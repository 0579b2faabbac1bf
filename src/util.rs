use vstd::prelude::*;

verus! {

/// A payload that carries either one value or a list of them.
#[derive(Clone, Debug, PartialEq)]
pub enum OneOrMany<T> {
    /// Single value
    One(T),
    /// Array of values
    Vec(Vec<T>),
}

impl<T> OneOrMany<T> {
    /// The values carried, as a list.
    pub open spec fn spec_values(self) -> Seq<T> {
        match self {
            OneOrMany::One(v) => seq![v],
            OneOrMany::Vec(vs) => vs@,
        }
    }

    /// The values carried, as a list: the one value alone, or the list itself.
    pub fn into_vec(self) -> (r: Vec<T>)
        ensures
            r@ == self.spec_values(),
    {
        match self {
            OneOrMany::One(v) => {
                let mut r = Vec::new();
                r.push(v);
                assert(r@ =~= seq![v]);
                r
            },
            OneOrMany::Vec(vs) => vs,
        }
    }
}

impl<T> Default for OneOrMany<T> {
    /// An empty list.
    fn default() -> (r: Self)
        ensures
            r.spec_values() == Seq::<T>::empty(),
    {
        OneOrMany::Vec(Vec::new())
    }
}

impl<T> From<OneOrMany<T>> for Vec<T> {
    fn from(from: OneOrMany<T>) -> (r: Vec<T>) {
        from.into_vec()
    }
}

impl<T> vstd::std_specs::convert::FromSpecImpl<OneOrMany<T>> for Vec<T> {
    open spec fn obeys_from_spec() -> bool {
        false
    }

    open spec fn from_spec(v: OneOrMany<T>) -> Vec<T> {
        arbitrary()
    }
}

/// A payload that is either the data itself or an object whose `data`
/// field holds it.
#[derive(Debug, Clone, PartialEq)]
pub enum ExtraDataLayer<T: Default> {
    Data(T),
    Embedded { data: T },
}

impl<T: Default> ExtraDataLayer<T> {
    /// The data, with the enclosing layer removed if there is one.
    pub fn get_data(self) -> (r: T)
        ensures
            r == match self {
                ExtraDataLayer::Data(d) => d,
                ExtraDataLayer::Embedded { data } => data,
            },
    {
        match self {
            ExtraDataLayer::Data(data) => data,
            ExtraDataLayer::Embedded { data } => data,
        }
    }
}

/// Whether `c` is an ASCII decimal digit.
pub open spec fn is_digit(c: char) -> bool {
    48 <= (c as u32) <= 57
}

/// The value of a decimal digit.
pub open spec fn digit_value(c: char) -> nat {
    ((c as u32) - 48) as nat
}

/// The value of a string of decimal digits, most significant first.
pub open spec fn digits_value(s: Seq<char>) -> nat
    decreases s.len(),
{
    if s.len() == 0 {
        0
    } else {
        digits_value(s.drop_last()) * 10 + digit_value(s.last())
    }
}

/// The digits of an unsigned number: the text without one leading `+`.
pub open spec fn unsigned_digits(s: Seq<char>) -> Seq<char> {
    if s.len() > 0 && s[0] == '+' {
        s.drop_first()
    } else {
        s
    }
}

/// The `usize` that `s` spells: an optional `+` and at least one decimal
/// digit, of a value that fits in `usize`. `None` for anything else.
pub open spec fn parse_usize(s: Seq<char>) -> Option<nat> {
    let d = unsigned_digits(s);
    if d.len() > 0 && (forall|i: int| 0 <= i < d.len() ==> is_digit(#[trigger] d[i]))
        && digits_value(d) <= usize::MAX {
        Some(digits_value(d))
    } else {
        None
    }
}

proof fn lemma_digits_value_prefix(s: Seq<char>, k: int)
    requires
        0 <= k <= s.len(),
    ensures
        digits_value(s) >= digits_value(s.take(k)),
    decreases s.len(),
{
    if k < s.len() {
        lemma_digits_value_prefix(s.drop_last(), k);
        assert(s.drop_last().take(k) =~= s.take(k));
    } else {
        assert(s.take(k) =~= s);
    }
}

/// Reads a number sent as text; text that is not an unsigned decimal
/// number fitting in `usize` reads as 0.
pub fn lossy_deserialize_usize(text: &str) -> (r: usize)
    ensures
        r == match parse_usize(text@) {
            Some(n) => n,
            None => 0,
        },
{
    let len = text.unicode_len();
    let ghost s = text@;
    let mut start: usize = 0;
    if len > 0 && text.get_char(0) == '+' {
        start = 1;
    }
    let ghost d = unsigned_digits(s);
    assert(d =~= s.subrange(start as int, len as int));
    if start == len {
        return 0;
    }
    let mut acc: usize = 0;
    let mut i: usize = start;
    while i < len
        invariant
            start <= i <= len,
            len == s.len(),
            s == text@,
            d == s.subrange(start as int, len as int),
            d == unsigned_digits(s),
            forall|j: int| start <= j < i ==> is_digit(#[trigger] s[j]),
            acc == digits_value(s.subrange(start as int, i as int)),
        decreases len - i,
    {
        let c = text.get_char(i);
        assert(d[i - start] == c);
        let code = c as u32;
        if code < 48 || code > 57 {
            assert(!is_digit(d[i - start]));
            return 0;
        }
        let v = (code - 48) as usize;
        assert(v == digit_value(c));
        let ghost prefix = s.subrange(start as int, i as int + 1);
        assert(prefix.drop_last() =~= s.subrange(start as int, i as int));
        assert(prefix =~= d.take(i - start + 1));
        if acc > (usize::MAX - v) / 10 {
            proof {
                assert(acc * 10 + v > usize::MAX) by (nonlinear_arith)
                    requires
                        acc > (usize::MAX - v) / 10,
                        v <= 9,
                ;
                assert(digits_value(prefix) == acc * 10 + v);
                if forall|j: int| 0 <= j < d.len() ==> is_digit(#[trigger] d[j]) {
                    lemma_digits_value_prefix(d, i - start + 1);
                    assert(digits_value(d) > usize::MAX);
                }
            }
            return 0;
        }
        assert(acc * 10 + v <= usize::MAX) by (nonlinear_arith)
            requires
                acc <= (usize::MAX - v) / 10,
                v <= 9,
        ;
        acc = acc * 10 + v;
        i = i + 1;
    }
    assert(s.subrange(start as int, len as int) =~= d);
    acc
}

/// Reads a flag sent as a number: 1 is set, anything else is not.
pub fn number_to_bool(n: usize) -> (r: bool)
    ensures
        r == (n == 1),
{
    n == 1
}

} // verus!
