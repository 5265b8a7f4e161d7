//! The numeric text filter.
//!
//! A text field may restrict typing so that its value always stays a decimal
//! numeral of a fixed integer shape.  The predicate [`parses_as`] defines
//! which character sequences denote a value of a given shape — an optional
//! sign (`+` always, `-` only for signed shapes) followed by at least one
//! digit, with the signed value inside the shape's range — and
//! [`is_valid_number`] decides, for one typed character, whether the
//! extended text still satisfies it.

use vstd::prelude::*;

use crate::strings::chars_vec;

verus! {

/// The integer shapes a numeric filter can target.
#[derive(Clone, Copy, Debug, PartialEq, Eq, Structural)]
pub enum NumericKind {
    U32,
    U64,
    I32,
    I64,
}

/// Whether `c` is a decimal digit.
pub open spec fn is_ascii_digit(c: char) -> bool {
    48 <= c as u32 <= 57
}

/// The numeric value of a decimal digit.
pub open spec fn digit_value(c: char) -> int {
    c as u32 - 48
}

/// Whether every character of `s` is a decimal digit.
pub open spec fn all_digits(s: Seq<char>) -> bool {
    forall|i: int| 0 <= i < s.len() ==> is_ascii_digit(s[i])
}

/// The value of a digit string read in base ten.
pub open spec fn digits_value(s: Seq<char>) -> int
    decreases s.len(),
{
    if s.len() == 0 {
        0
    } else {
        digits_value(s.drop_last()) * 10 + digit_value(s.last())
    }
}

/// The smallest value of the shape.
pub open spec fn kind_min(k: NumericKind) -> int {
    match k {
        NumericKind::U32 => 0,
        NumericKind::U64 => 0,
        NumericKind::I32 => i32::MIN as int,
        NumericKind::I64 => i64::MIN as int,
    }
}

/// The largest value of the shape.
pub open spec fn kind_max(k: NumericKind) -> int {
    match k {
        NumericKind::U32 => u32::MAX as int,
        NumericKind::U64 => u64::MAX as int,
        NumericKind::I32 => i32::MAX as int,
        NumericKind::I64 => i64::MAX as int,
    }
}

/// Whether the shape admits a leading minus sign.
pub open spec fn kind_signed(k: NumericKind) -> bool {
    k is I32 || k is I64
}

/// Whether the digit part `d`, negated if `negative`, denotes a value of
/// shape `k`: at least one digit, digits only, value within range.
pub open spec fn digits_in_range(k: NumericKind, negative: bool, d: Seq<char>) -> bool {
    &&& d.len() > 0
    &&& all_digits(d)
    &&& kind_min(k) <= (if negative {
        -digits_value(d)
    } else {
        digits_value(d)
    }) <= kind_max(k)
}

/// Whether `s` is a decimal numeral denoting a value of shape `k`.
pub open spec fn parses_as(k: NumericKind, s: Seq<char>) -> bool {
    if s.len() == 0 {
        false
    } else if s[0] == '+' {
        digits_in_range(k, false, s.drop_first())
    } else if s[0] == '-' {
        kind_signed(k) && digits_in_range(k, true, s.drop_first())
    } else {
        digits_in_range(k, false, s)
    }
}

/// The magnitude a numeral of shape `k` must stay within: the absolute value
/// of the smallest value for a negative numeral, the largest value otherwise.
pub open spec fn magnitude_limit(k: NumericKind, negative: bool) -> int {
    if negative {
        -kind_min(k)
    } else {
        kind_max(k)
    }
}

proof fn lemma_digits_value_nonneg(s: Seq<char>)
    requires
        all_digits(s),
    ensures
        digits_value(s) >= 0,
    decreases s.len(),
{
    if s.len() > 0 {
        assert(all_digits(s.drop_last()));
        lemma_digits_value_nonneg(s.drop_last());
        assert(is_ascii_digit(s.last()));
    }
}

proof fn lemma_digits_value_append(s: Seq<char>, c: char)
    ensures
        digits_value(s.push(c)) == digits_value(s) * 10 + digit_value(c),
{
    assert(s.push(c).drop_last() =~= s);
    assert(s.push(c).last() == c);
}

/// Reading further digits never shrinks the value: the value of a prefix of
/// a digit string is at most the value of the whole.
proof fn lemma_digits_value_prefix_le(s: Seq<char>, i: int, j: int)
    requires
        all_digits(s),
        0 <= i <= j <= s.len(),
    ensures
        digits_value(s.subrange(0, i)) <= digits_value(s.subrange(0, j)),
    decreases j - i,
{
    if i < j {
        lemma_digits_value_prefix_le(s, i, j - 1);
        let prev = s.subrange(0, j - 1);
        assert(s.subrange(0, j) =~= prev.push(s[j - 1]));
        lemma_digits_value_append(prev, s[j - 1]);
        assert(all_digits(prev));
        lemma_digits_value_nonneg(prev);
        assert(is_ascii_digit(s[j - 1]));
    }
}

fn magnitude_limit_exec(k: NumericKind, negative: bool) -> (r: u64)
    ensures
        r == magnitude_limit(k, negative),
{
    match k {
        NumericKind::U32 => if negative {
            0
        } else {
            4294967295
        },
        NumericKind::U64 => if negative {
            0
        } else {
            18446744073709551615
        },
        NumericKind::I32 => if negative {
            2147483648
        } else {
            2147483647
        },
        NumericKind::I64 => if negative {
            9223372036854775808
        } else {
            9223372036854775807
        },
    }
}

/// Decides [`parses_as`] for the characters in `s`.
pub fn check_numeral(k: NumericKind, s: &Vec<char>) -> (r: bool)
    ensures
        r == parses_as(k, s@),
{
    let n = s.len();
    if n == 0 {
        return false;
    }
    let first = s[0];
    let mut start: usize = 1;
    let mut negative = false;
    if first == '+' {
    } else if first == '-' {
        let signed = match k {
            NumericKind::I32 => true,
            NumericKind::I64 => true,
            NumericKind::U32 => false,
            NumericKind::U64 => false,
        };
        if !signed {
            return false;
        }
        negative = true;
    } else {
        start = 0;
    }
    if start == n {
        proof {
            if start == 1 {
                assert(s@.drop_first() =~= s@.subrange(1, n as int));
                assert(s@.drop_first().len() == 0);
            }
        }
        return false;
    }
    let ghost dpart = s@.subrange(start as int, n as int);
    proof {
        if start == 1 {
            assert(s@.drop_first() =~= dpart);
        } else {
            assert(s@.subrange(0, n as int) =~= s@);
        }
    }
    let limit: u128 = magnitude_limit_exec(k, negative) as u128;
    let mut acc: u128 = 0;
    let mut i: usize = start;
    while i < n
        invariant
            n == s@.len(),
            start <= i <= n,
            start < n,
            start <= 1,
            dpart == s@.subrange(start as int, n as int),
            start == 1 ==> dpart == s@.drop_first(),
            start == 1 && !negative ==> s@[0] == '+',
            start == 0 ==> !negative && s@[0] != '+' && s@[0] != '-',
            negative ==> start == 1 && s@[0] == '-' && kind_signed(k),
            limit == magnitude_limit(k, negative),
            limit <= u64::MAX,
            acc <= limit,
            acc == digits_value(s@.subrange(start as int, i as int)),
            all_digits(s@.subrange(start as int, i as int)),
        decreases n - i,
    {
        let c = s[i];
        let u = c as u32;
        if u < 48 || u > 57 {
            proof {
                assert(!is_ascii_digit(s@[i as int]));
                assert(dpart[i - start as int] == s@[i as int]);
                assert(!all_digits(dpart));
            }
            return false;
        }
        let d = (u - 48) as u128;
        let next = acc * 10 + d;
        if next > limit {
            proof {
                let done = s@.subrange(start as int, i + 1);
                assert(done =~= s@.subrange(start as int, i as int).push(s@[i as int]));
                lemma_digits_value_append(s@.subrange(start as int, i as int), s@[i as int]);
                assert(digits_value(done) == next);
                if all_digits(dpart) {
                    assert(done =~= dpart.subrange(0, i + 1 - start));
                    assert(dpart.subrange(0, dpart.len() as int) =~= dpart);
                    lemma_digits_value_prefix_le(dpart, i + 1 - start, dpart.len() as int);
                    assert(digits_value(dpart) > limit);
                }
                assert(!digits_in_range(k, negative, dpart));
                if start == 0 {
                    assert(dpart =~= s@);
                }
                assert(!parses_as(k, s@));
            }
            return false;
        }
        acc = next;
        proof {
            let done = s@.subrange(start as int, i + 1);
            assert(done =~= s@.subrange(start as int, i as int).push(s@[i as int]));
            lemma_digits_value_append(s@.subrange(start as int, i as int), s@[i as int]);
            assert(is_ascii_digit(s@[i as int]));
            assert(all_digits(done));
        }
        i += 1;
    }
    proof {
        assert(s@.subrange(start as int, n as int) == dpart);
        assert(acc == digits_value(dpart));
        assert(all_digits(dpart));
        assert(dpart.len() > 0);
        lemma_digits_value_nonneg(dpart);
        assert(digits_in_range(k, negative, dpart));
        if start == 0 {
            assert(dpart =~= s@);
        }
        assert(parses_as(k, s@));
    }
    true
}

/// Whether typing `c` keeps a field holding `v` a numeral of shape `k`: the
/// character must be a decimal digit and the extended text must denote a
/// value of the shape.
pub fn is_valid_number(k: NumericKind, c: char, v: &String) -> (r: bool)
    ensures
        r == (is_ascii_digit(c) && parses_as(k, v@.push(c))),
{
    let u = c as u32;
    if u < 48 || u > 57 {
        return false;
    }
    let mut chars = chars_vec(v.as_str());
    chars.push(c);
    check_numeral(k, &chars)
}

/// A character filter for text fields.
#[derive(Clone, Copy, Debug, PartialEq, Eq, Structural)]
pub struct TextFilter {
    pub kind: FilterKind,
}

/// What a filter tests.
#[derive(Clone, Copy, Debug, PartialEq, Eq, Structural)]
pub enum FilterKind {
    Numeric(NumericKind),
}

impl TextFilter {
    /// A filter admitting exactly the numerals of shape `k`.
    pub fn numeric(k: NumericKind) -> (r: TextFilter)
        ensures
            r == (TextFilter { kind: FilterKind::Numeric(k) }),
    {
        TextFilter { kind: FilterKind::Numeric(k) }
    }

    /// What the filter admits, as a predicate over the typed character and
    /// the field's current text.
    pub open spec fn spec_matches(&self, c: char, v: Seq<char>) -> bool {
        match self.kind {
            FilterKind::Numeric(k) => is_ascii_digit(c) && parses_as(k, v.push(c)),
        }
    }

    /// Whether typing `c` into a field holding `v` is admitted.
    pub fn matches(&self, c: char, v: &String) -> (r: bool)
        ensures
            r == self.spec_matches(c, v@),
    {
        match self.kind {
            FilterKind::Numeric(k) => is_valid_number(k, c, v),
        }
    }
}

} // verus!
