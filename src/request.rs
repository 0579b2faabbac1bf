use vstd::prelude::*;

verus! {

#[verifier::external_type_specification]
#[verifier::external_body]
pub struct ExUrl(url::Url);

#[verifier::external_type_specification]
#[verifier::external_body]
pub struct ExParseError(url::ParseError);

/// The decimal digit `d` (`d < 10`) as a character.
pub open spec fn digit_char(d: nat) -> char {
    seq!['0', '1', '2', '3', '4', '5', '6', '7', '8', '9'][d as int]
}

/// The decimal notation of `n`: its digits, most significant first, without
/// sign or leading zeros.
pub open spec fn decimal(n: nat) -> Seq<char>
    decreases n,
{
    if n < 10 {
        seq![digit_char(n)]
    } else {
        decimal(n / 10).push(digit_char(n % 10))
    }
}

/// The decimal digit `d` as a one-character string.
fn digit_str(d: usize) -> (r: &'static str)
    requires
        d < 10,
    ensures
        r@ == seq![digit_char(d as nat)],
{
    proof {
        reveal_strlit("0");
        reveal_strlit("1");
        reveal_strlit("2");
        reveal_strlit("3");
        reveal_strlit("4");
        reveal_strlit("5");
        reveal_strlit("6");
        reveal_strlit("7");
        reveal_strlit("8");
        reveal_strlit("9");
    }
    let r = if d == 0 {
        "0"
    } else if d == 1 {
        "1"
    } else if d == 2 {
        "2"
    } else if d == 3 {
        "3"
    } else if d == 4 {
        "4"
    } else if d == 5 {
        "5"
    } else if d == 6 {
        "6"
    } else if d == 7 {
        "7"
    } else if d == 8 {
        "8"
    } else {
        "9"
    };
    assert(r@ =~= seq![digit_char(d as nat)]);
    r
}

/// The decimal notation of `n`.
pub fn decimal_string(n: usize) -> (r: String)
    ensures
        r@ == decimal(n as nat),
    decreases n,
{
    if n < 10 {
        digit_str(n).to_string()
    } else {
        let mut r = decimal_string(n / 10);
        r.append(digit_str(n % 10));
        assert(r@ =~= decimal(n as nat));
        r
    }
}

/// One step in building a URL from its base.
#[derive(Debug, Clone, PartialEq, Eq)]
pub enum UrlStep {
    /// Resolve a relative reference against the URL built so far.
    Join(String),
    /// Append a `name=value` pair to the query.
    Pair(String, String),
}

/// What a step does, in terms of character sequences.
pub enum StepView {
    Join(Seq<char>),
    Pair(Seq<char>, Seq<char>),
}

impl UrlStep {
    /// A copy of the step.
    pub fn duplicate(&self) -> (r: UrlStep)
        ensures
            r == *self,
    {
        match self {
            UrlStep::Join(reference) => UrlStep::Join(reference.clone()),
            UrlStep::Pair(name, value) => UrlStep::Pair(name.clone(), value.clone()),
        }
    }
}

impl View for UrlStep {
    type V = StepView;

    open spec fn view(&self) -> StepView {
        match self {
            UrlStep::Join(r) => StepView::Join(r@),
            UrlStep::Pair(k, v) => StepView::Pair(k@, v@),
        }
    }
}

/// The address of a request: a base URL and the steps that refine it.
///
/// Locations describe their targets as steps. Resolving references and
/// encoding query pairs is left to the `url` crate when the address is
/// rendered by [`RequestUrl::to_url`].
#[derive(Debug, Clone, PartialEq, Eq)]
pub struct RequestUrl {
    pub base: String,
    pub steps: Vec<UrlStep>,
}

pub struct RequestUrlView {
    pub base: Seq<char>,
    pub steps: Seq<StepView>,
}

impl View for RequestUrl {
    type V = RequestUrlView;

    open spec fn view(&self) -> RequestUrlView {
        RequestUrlView { base: self.base@, steps: self.steps@.map_values(|s: UrlStep| s@) }
    }
}

impl RequestUrlView {
    pub open spec fn join(self, reference: Seq<char>) -> RequestUrlView {
        RequestUrlView { base: self.base, steps: self.steps.push(StepView::Join(reference)) }
    }

    pub open spec fn pair(self, name: Seq<char>, value: Seq<char>) -> RequestUrlView {
        RequestUrlView { base: self.base, steps: self.steps.push(StepView::Pair(name, value)) }
    }
}

/// Whether `url::Url::parse` accepts `input` as an absolute URL.
pub uninterp spec fn parses_as_url(input: Seq<char>) -> bool;

/// Relies on `url::Url::parse`: parses an absolute URL; whether it succeeds
/// depends on the input alone.
#[verifier::external_body]
fn url_parse(input: &str) -> (r: Result<url::Url, url::ParseError>)
    ensures
        r is Ok <==> parses_as_url(input@),
{
    url::Url::parse(input)
}

/// Relies on `url::Url::join`: resolves a reference against a base URL.
#[verifier::external_body]
fn url_join(base: &url::Url, reference: &str) -> (r: Result<url::Url, url::ParseError>) {
    base.join(reference)
}

/// Relies on `url::Url::query_pairs_mut` and the serializer's `append_pair`:
/// appends one encoded pair to the query.
#[verifier::external_body]
fn url_append_pair(u: &mut url::Url, name: &str, value: &str) {
    u.query_pairs_mut().append_pair(name, value);
}

impl RequestUrl {
    /// An address with the given base and no steps.
    pub fn new(base: &str) -> (r: RequestUrl)
        ensures
            r@.base == base@,
            r@.steps == Seq::<StepView>::empty(),
    {
        let r = RequestUrl { base: base.to_string(), steps: Vec::new() };
        assert(r@.steps =~= Seq::<StepView>::empty());
        r
    }

    /// A copy of the address.
    pub fn duplicate(&self) -> (r: RequestUrl)
        ensures
            r@ == self@,
    {
        let mut steps: Vec<UrlStep> = Vec::new();
        let mut i: usize = 0;
        while i < self.steps.len()
            invariant
                i <= self.steps.len(),
                steps@ == self.steps@.take(i as int),
            decreases self.steps.len() - i,
        {
            steps.push(self.steps[i].duplicate());
            i = i + 1;
            assert(steps@ =~= self.steps@.take(i as int));
        }
        assert(self.steps@.take(self.steps.len() as int) =~= self.steps@);
        RequestUrl { base: self.base.clone(), steps }
    }

    /// This address with a reference to resolve against it.
    pub fn join(self, reference: &str) -> (r: RequestUrl)
        ensures
            r@ == self@.join(reference@),
    {
        let RequestUrl { base, mut steps } = self;
        steps.push(UrlStep::Join(reference.to_string()));
        let r = RequestUrl { base, steps };
        assert(r@.steps =~= self@.steps.push(StepView::Join(reference@)));
        r
    }

    /// This address with a `name=value` pair appended to its query.
    pub fn append_pair(self, name: &str, value: &str) -> (r: RequestUrl)
        ensures
            r@ == self@.pair(name@, value@),
    {
        let RequestUrl { base, mut steps } = self;
        steps.push(UrlStep::Pair(name.to_string(), value.to_string()));
        let r = RequestUrl { base, steps };
        assert(r@.steps =~= self@.steps.push(StepView::Pair(name@, value@)));
        r
    }

    /// Renders the address: parses the base, then applies each step in order.
    /// Fails with the `url` crate's error where the base or a reference is
    /// not a valid URL. An address without steps renders exactly when its
    /// base parses.
    pub fn to_url(&self) -> (r: Result<url::Url, url::ParseError>)
        ensures
            !parses_as_url(self@.base) ==> r is Err,
            self@.steps.len() == 0 ==> (r is Ok <==> parses_as_url(self@.base)),
    {
        let mut u = match url_parse(self.base.as_str()) {
            Ok(u) => u,
            Err(e) => return Err(e),
        };
        let mut i: usize = 0;
        while i < self.steps.len()
            invariant
                i <= self.steps.len(),
            decreases self.steps.len() - i,
        {
            match &self.steps[i] {
                UrlStep::Join(reference) => {
                    u = match url_join(&u, reference.as_str()) {
                        Ok(j) => j,
                        Err(e) => return Err(e),
                    };
                },
                UrlStep::Pair(name, value) => {
                    url_append_pair(&mut u, name.as_str(), value.as_str());
                },
            }
            i = i + 1;
        }
        Ok(u)
    }
}

} // verus!
