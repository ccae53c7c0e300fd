//! Decimal digits: rendering unsigned integers and parsing digit strings.

use vstd::prelude::*;

verus! {

/// The digit character for a value below ten.
pub open spec fn digit_char(d: int) -> char {
    ((48 + d) as u8) as char
}

/// A decimal digit character.
pub open spec fn is_digit(c: char) -> bool {
    48 <= c as u32 && c as u32 <= 57
}

/// The numeric value of a digit character.
pub open spec fn digit_val(c: char) -> int {
    c as u32 - 48
}

/// The decimal rendering of a non-negative integer, most significant digit
/// first.
pub open spec fn decimal(n: int) -> Seq<char>
    decreases n,
{
    if n < 10 {
        seq![digit_char(if n < 0 { 0 } else { n })]
    } else {
        decimal(n / 10).push(digit_char(n % 10))
    }
}

/// The numeric value of a digit string.
pub open spec fn digits_val(s: Seq<char>) -> int
    decreases s.len(),
{
    if s.len() == 0 {
        0
    } else {
        digits_val(s.drop_last()) * 10 + digit_val(s.last())
    }
}

/// A non-empty, all-digit string.
pub open spec fn all_digits(s: Seq<char>) -> bool {
    s.len() > 0 && forall|i: int| 0 <= i < s.len() ==> is_digit(s[i])
}

/// What parsing a digit string as an unsigned integer yields: the value when
/// the string is non-empty, all digits, and the value fits below the bound.
pub open spec fn parse_uint_spec(s: Seq<char>, bound: int) -> Option<int> {
    if all_digits(s) && digits_val(s) < bound {
        Some(digits_val(s))
    } else {
        None
    }
}

/// The value of an all-digit string is non-negative, and never smaller than
/// the value of any of its prefixes.
pub proof fn lemma_digits_val_prefix(s: Seq<char>, k: int)
    requires
        0 <= k <= s.len(),
        forall|i: int| 0 <= i < s.len() ==> is_digit(s[i]),
    ensures
        0 <= digits_val(s.subrange(0, k)) <= digits_val(s),
    decreases s.len(),
{
    if s.len() == 0 {
        assert(s.subrange(0, k) =~= s);
    } else {
        let pre = s.drop_last();
        assert(forall|i: int| 0 <= i < pre.len() ==> is_digit(pre[i]));
        lemma_digits_val_prefix(pre, if k <= pre.len() { k } else { pre.len() as int });
        assert(0 <= digit_val(s.last()) <= 9);
        if k <= pre.len() {
            assert(s.subrange(0, k) =~= pre.subrange(0, k));
        } else {
            assert(s.subrange(0, k) =~= s);
        }
    }
}

/// Tests a character for being a decimal digit.
pub fn is_digit_char(c: char) -> (r: bool)
    ensures
        r == is_digit(c),
{
    let u = c as u32;
    48 <= u && u <= 57
}

/// Renders an integer in decimal.
pub fn u64_to_string(n: u64) -> (r: String)
    ensures
        r@ == decimal(n as int),
    decreases n,
{
    if n < 10 {
        let mut r = String::new();
        crate::text::push_char(&mut r, ((48 + n as u8)) as char);
        proof {
            assert(r@ =~= decimal(n as int));
        }
        r
    } else {
        let mut r = u64_to_string(n / 10);
        crate::text::push_char(&mut r, (48 + (n % 10) as u8) as char);
        r
    }
}

/// Parses a digit string as an unsigned integer of at most `max`.
///
/// Returns the value exactly when the characters form a non-empty digit
/// string whose value is at most `max`.
pub fn parse_uint(s: &Vec<char>, max: u64) -> (r: Option<u64>)
    ensures
        r matches Some(v) ==> parse_uint_spec(s@, max as int + 1) == Some(v as int),
        r is None ==> parse_uint_spec(s@, max as int + 1) is None,
{
    if s.len() == 0 {
        return None;
    }
    let mut acc: u64 = 0;
    let mut i: usize = 0;
    while i < s.len()
        invariant
            0 < s@.len(),
            i <= s@.len(),
            acc <= max,
            forall|k: int| 0 <= k < i ==> is_digit(s@[k]),
            acc == digits_val(s@.subrange(0, i as int)),
        decreases s@.len() - i,
    {
        let c = s[i];
        let u = c as u32;
        if u < 48 || u > 57 {
            return None;
        }
        let d = (u - 48) as u64;
        proof {
            assert(s@.subrange(0, i + 1 as int).drop_last() =~= s@.subrange(0, i as int));
        }
        if acc > max / 10 || (acc == max / 10 && d > max % 10) {
            // The value of the whole string can only grow past the bound.
            proof {
                assert(acc * 10 + d > max) by (nonlinear_arith)
                    requires
                        acc > max / 10 || (acc == max / 10 && d > max % 10),
                        acc >= 0,
                        d >= 0,
                ;
                if all_digits(s@) && digits_val(s@) < max as int + 1 {
                    lemma_digits_val_prefix(s@, i + 1 as int);
                    assert(digits_val(s@.subrange(0, i + 1 as int)) == acc * 10 + d);
                    assert(false);
                }
            }
            return None;
        }
        proof {
            assert(acc * 10 + d <= max) by (nonlinear_arith)
                requires
                    acc <= max / 10,
                    acc == max / 10 ==> d <= max % 10,
                    acc >= 0,
                    0 <= d <= 9,
            ;
        }
        acc = acc * 10 + d;
        i = i + 1;
    }
    proof {
        assert(s@.subrange(0, s@.len() as int) =~= s@);
    }
    Some(acc)
}

} // verus!
