//! The `[name] ` tag that the backend puts before the text of a reply.

use vstd::prelude::*;

verus! {

#[verifier::external_type_specification]
#[verifier::external_body]
pub struct ExRegex(regex::Regex);

#[verifier::external_type_specification]
#[verifier::external_body]
pub struct ExRegexError(regex::Error);

/// The tag: a bracketed name, or the thread starter's title, then spaces.
pub const PEOPLE_TAG_PATTERN: &'static str = "\\[(\u{6d1e}\u{4e3b}|\\w+?(\\s\\w+)?)\\]\\s+";

/// The text before and the text after the first tag in `text`, where there
/// is one.
pub uninterp spec fn people_tag_split(text: Seq<char>) -> Option<(Seq<char>, Seq<char>)>;

/// Relies on `regex::Regex::new`: compiles a pattern.
#[verifier::external_body]
fn compile_regex(pattern: &str) -> (r: Result<regex::Regex, regex::Error>) {
    regex::Regex::new(pattern)
}

/// Finds the tag in a text.
pub struct PeopleTag {
    re: regex::Regex,
}

/// Relies on `regex::Regex::find` with the compiled tag pattern: the text
/// before and after the leftmost-first match, if any. The matcher only ever
/// holds that one pattern, so the split depends on the text alone.
#[verifier::external_body]
fn split_first_tag(tag: &PeopleTag, text: &str) -> (r: Option<(String, String)>)
    ensures
        match r {
            Some((before, after)) => people_tag_split(text@) == Some((before@, after@)),
            None => people_tag_split(text@) is None,
        },
{
    tag.re.find(text).map(|m| (text[..m.start()].to_string(), text[m.end()..].to_string()))
}

/// `text` without its first tag.
pub open spec fn without_people_tag(text: Seq<char>) -> Seq<char> {
    match people_tag_split(text) {
        Some((before, after)) => before + after,
        None => text,
    }
}

impl PeopleTag {
    /// The matcher of the tag pattern; `None` if the regex engine refuses it.
    pub fn new() -> (r: Option<PeopleTag>) {
        match compile_regex(PEOPLE_TAG_PATTERN) {
            Ok(re) => Some(PeopleTag { re }),
            Err(_) => None,
        }
    }

    /// `text` with its first tag removed; unchanged where it has none.
    pub fn strip_people_prefix(&self, text: &str) -> (r: String)
        ensures
            r@ == without_people_tag(text@),
    {
        match split_first_tag(self, text) {
            Some((before, after)) => {
                let mut r = before;
                r.append(after.as_str());
                r
            },
            None => text.to_string(),
        }
    }
}

} // verus!
