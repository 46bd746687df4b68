//! Numbers as the renderer reads them: in decimal notation.
use vstd::prelude::*;
use crate::text::free_of;

verus! {

/// Whether `c` is one of the ten decimal digits.
pub open spec fn is_digit(c: char) -> bool {
    '0' <= c <= '9'
}

/// Whether `s` is written as digits, or as digits, a point and digits.
pub open spec fn is_decimal(s: Seq<char>) -> bool {
    &&& s.len() > 0
    &&& is_digit(s.first())
    &&& is_digit(s.last())
    &&& forall|i: int| 0 <= i < s.len() ==> is_digit(#[trigger] s[i]) || s[i] == '.'
    &&& forall|i: int, j: int| 0 <= i < j < s.len() ==> !(#[trigger] s[i] == '.' && #[trigger] s[j] == '.')
}

/// Whether `s` is a decimal or the word for infinity.
pub open spec fn is_magnitude(s: Seq<char>) -> bool {
    is_decimal(s) || s == "inf"@
}

/// Whether `s` denotes a number: `NaN`, or a magnitude with or without a
/// minus sign before it.
pub open spec fn is_number(s: Seq<char>) -> bool {
    ||| s == "NaN"@
    ||| is_magnitude(s)
    ||| s.len() > 0 && s.first() == '-' && is_magnitude(s.skip(1))
}

/// A number in its decimal notation.
pub struct Number {
    text: String,
}

impl View for Number {
    type V = Seq<char>;

    closed spec fn view(&self) -> Seq<char> {
        self.text@
    }
}

/// The characters of `text`, in order.
fn chars_of(text: &str) -> (v: Vec<char>)
    ensures
        v@ == text@,
{
    let mut v: Vec<char> = Vec::new();
    for c in it: text.chars()
        invariant
            it.seq() == text@,
            v@ == text@.take(it.index()),
    {
        assert(text@.take(it.index() + 1) == text@.take(it.index()).push(c));
        v.push(c);
    }
    assert(text@.take(text@.len() as int) == text@);
    v
}

/// Tells whether the characters of `v` from `from` on are a decimal.
fn decimal_from(v: &Vec<char>, from: usize) -> (b: bool)
    requires
        from <= v.len(),
    ensures
        b == is_decimal(v@.skip(from as int)),
{
    let ghost s = v@.skip(from as int);
    let n = v.len();
    if from == n {
        return false;
    }
    let first = v[from];
    let last = v[n - 1];
    assert(s.first() == first && s.last() == last);
    if !('0' <= first && first <= '9' && '0' <= last && last <= '9') {
        return false;
    }
    let mut seen_point = false;
    let mut i: usize = from;
    while i < n
        invariant
            from <= i <= n == v.len(),
            s == v@.skip(from as int),
            forall|k: int| 0 <= k < i - from ==> is_digit(#[trigger] s[k]) || s[k] == '.',
            forall|k: int, l: int|
                0 <= k < l < i - from ==> !(#[trigger] s[k] == '.' && #[trigger] s[l] == '.'),
            seen_point <==> exists|k: int| 0 <= k < i - from && #[trigger] s[k] == '.',
        decreases n - i,
    {
        let c = v[i];
        assert(s[i - from] == c);
        if c == '.' {
            if seen_point {
                return false;
            }
            seen_point = true;
        } else if !('0' <= c && c <= '9') {
            return false;
        }
        i += 1;
    }
    true
}

/// Tells whether the characters of `v` from `from` on are a magnitude.
fn magnitude_from(v: &Vec<char>, from: usize) -> (b: bool)
    requires
        from <= v.len(),
    ensures
        b == is_magnitude(v@.skip(from as int)),
{
    proof {
        reveal_strlit("inf");
    }
    let ghost s = v@.skip(from as int);
    if v.len() - from == 3 && v[from] == 'i' && v[from + 1] == 'n' && v[from + 2] == 'f' {
        assert(s =~= "inf"@);
        true
    } else {
        assert(s.len() == 3 ==> s[0] == v@[from as int] && s[1] == v@[from + 1] && s[2] == v@[from + 2]);
        decimal_from(v, from)
    }
}

impl Number {
    #[verifier::type_invariant]
    spec fn well_formed(&self) -> bool {
        is_number(self.text@)
    }

    /// Reads a number from its notation: `Some` if and only if `text` denotes
    /// a number, and then the number with that notation.
    pub fn parse(text: &str) -> (n: Option<Number>)
        ensures
            n is Some <==> is_number(text@),
            n matches Some(v) ==> v@ == text@,
    {
        proof {
            reveal_strlit("NaN");
            reveal_strlit("inf");
        }
        let v = chars_of(text);
        let ok = if v.len() == 3 && v[0] == 'N' && v[1] == 'a' && v[2] == 'N' {
            assert(v@ =~= "NaN"@);
            true
        } else if magnitude_from(&v, 0) {
            assert(v@.skip(0) == v@);
            true
        } else if v.len() > 0 && v[0] == '-' {
            assert(v@.skip(0) == v@);
            magnitude_from(&v, 1)
        } else {
            assert(v@.skip(0) == v@);
            false
        };
        if ok {
            Some(Number { text: text.to_owned() })
        } else {
            None
        }
    }

    /// The number's notation.
    pub fn as_str(&self) -> (s: &str)
        ensures
            s@ == self@,
            is_number(s@),
    {
        proof {
            use_type_invariant(self);
        }
        self.text.as_str()
    }
}

/// The notation of a number is one word: it is not empty, and holds
/// neither a space nor a line break.
pub proof fn lemma_number_is_one_word(s: Seq<char>)
    requires
        is_number(s),
    ensures
        s.len() > 0,
        free_of(s, ' '),
        free_of(s, '\n'),
{
    reveal_strlit("NaN");
    reveal_strlit("inf");
    if s == "NaN"@ || s == "inf"@ || is_decimal(s) {
    } else {
        let rest = s.skip(1);
        assert forall|i: int| 0 <= i < s.len() implies s[i] != ' ' && s[i] != '\n' by {
            if i > 0 {
                assert(s[i] == rest[i - 1]);
            }
        }
    }
}

} // verus!
