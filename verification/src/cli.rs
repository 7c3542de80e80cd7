//! The decisions behind the command-line arguments: reading a decimal count
//! from argument text, and falling back to a built-in default — with a
//! warning owed to the caller — where the text is not a valid number.

use vstd::prelude::*;

verus! {

/// Default number of kernel passes when no valid count is given.
pub const DEFAULT_REPEATS: usize = 100;

/// Default number of rows when no valid count is given.
pub const DEFAULT_ROWS: usize = 5;

/// Default number of columns when no valid count is given.
pub const DEFAULT_COLS: usize = 4;

/// The byte is an ASCII decimal digit.
pub open spec fn is_ascii_digit(b: u8) -> bool {
    48 <= b <= 57
}

/// The numeric value of an ASCII decimal digit.
pub open spec fn digit_of(b: u8) -> int {
    b - 48
}

/// The value of a digit string read as a decimal number.
pub open spec fn digits_value(s: Seq<u8>) -> int
    decreases s.len(),
{
    if s.len() == 0 {
        0
    } else {
        digits_value(s.drop_last()) * 10 + digit_of(s.last())
    }
}

/// Every byte of the string is an ASCII decimal digit.
pub open spec fn all_ascii_digits(s: Seq<u8>) -> bool {
    forall|i: int| 0 <= i < s.len() ==> is_ascii_digit(#[trigger] s[i])
}

/// The text is a valid count: nonempty, digits only, and its value fits.
pub open spec fn usize_text(s: Seq<u8>) -> bool {
    &&& s.len() > 0
    &&& all_ascii_digits(s)
    &&& digits_value(s) <= usize::MAX as int
}

/// The value of an all-digit string is never negative.
proof fn lemma_digits_value_nonneg(s: Seq<u8>)
    requires
        all_ascii_digits(s),
    ensures
        digits_value(s) >= 0,
    decreases s.len(),
{
    if s.len() > 0 {
        assert(all_ascii_digits(s.drop_last()));
        lemma_digits_value_nonneg(s.drop_last());
    }
}

/// Extending an all-digit string can only grow its value: any prefix reads
/// as at most the whole.
proof fn lemma_digits_value_prefix_le(s: Seq<u8>, j: int)
    requires
        all_ascii_digits(s),
        0 <= j <= s.len(),
    ensures
        digits_value(s.take(j)) <= digits_value(s),
    decreases s.len() - j,
{
    if j == s.len() {
        assert(s.take(j) =~= s);
    } else {
        lemma_digits_value_prefix_le(s, j + 1);
        assert(s.take(j + 1).drop_last() =~= s.take(j));
        assert(s.take(j + 1).last() == s[j]);
        assert(all_ascii_digits(s.take(j)));
        lemma_digits_value_nonneg(s.take(j));
    }
}

/// Reads the text as a decimal `usize`: `Some` exactly of a nonempty
/// all-digit string whose value fits, and then of its value; `None` of
/// everything else — empty text, any non-digit byte, or a value too large.
#[verifier::loop_isolation(false)]
pub fn parse_usize(s: &Vec<u8>) -> (r: Option<usize>)
    ensures
        usize_text(s@) ==> r == Some(digits_value(s@) as usize),
        !usize_text(s@) ==> r is None,
{
    let n: usize = s.len();
    if n == 0 {
        return None;
    }
    let mut acc: usize = 0;
    for i in 0..n
        invariant
            all_ascii_digits(s@.take(i as int)),
            acc == digits_value(s@.take(i as int)),
    {
        let b: u8 = s[i];
        if b < 48 || b > 57 {
            assert(!is_ascii_digit(s@[i as int]));
            return None;
        }
        let d: usize = (b - 48) as usize;
        if acc > (usize::MAX - d) / 10 {
            proof {
                assert(acc * 10 + d > usize::MAX as int) by (nonlinear_arith)
                    requires
                        acc > (usize::MAX - d) / 10,
                        0 <= d <= 9,
                        acc >= 0,
                ;
                assert(s@.take(i as int + 1).drop_last() =~= s@.take(i as int));
                assert(s@.take(i as int + 1).last() == s@[i as int]);
                assert(digits_value(s@.take(i as int + 1)) > usize::MAX as int);
                if all_ascii_digits(s@) {
                    lemma_digits_value_prefix_le(s@, i as int + 1);
                }
            }
            return None;
        }
        proof {
            assert(acc * 10 + d <= usize::MAX as int) by (nonlinear_arith)
                requires
                    acc <= (usize::MAX - d) / 10,
                    0 <= d <= 9,
                    acc >= 0,
            ;
            assert(s@.take(i as int + 1).drop_last() =~= s@.take(i as int));
            assert(s@.take(i as int + 1).last() == s@[i as int]);
        }
        acc = acc * 10 + d;
    }
    proof {
        assert(s@.take(n as int) =~= s@);
    }
    Some(acc)
}

/// The value an optional positional argument yields: the parsed count where
/// the text is a valid number, else the given default. The flag says that
/// the default was substituted, so the caller owes a warning.
pub fn arg_value(text: &Vec<u8>, default_value: usize) -> (r: (usize, bool))
    ensures
        usize_text(text@) ==> r == (digits_value(text@) as usize, false),
        !usize_text(text@) ==> r == (default_value, true),
{
    match parse_usize(text) {
        Some(v) => (v, false),
        None => (default_value, true),
    }
}

} // verus!
