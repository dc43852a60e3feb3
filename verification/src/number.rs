//! Decimal numbers: writing an `i64` and reading a `u64`.

use crate::text::chars_of;
use vstd::prelude::*;

verus! {

/// The digit for a number below ten.
pub open spec fn digit(n: nat) -> char {
    (('0' as int) + n) as char
}

/// The decimal digits of a natural number, without leading zeros.
pub open spec fn digits(n: nat) -> Seq<char>
    decreases n,
{
    if n < 10 {
        seq![digit(n)]
    } else {
        digits(n / 10).push(digit(n % 10))
    }
}

/// A number in decimal, with a minus sign in front when it is negative.
pub open spec fn decimal(n: int) -> Seq<char> {
    if n < 0 {
        seq!['-'] + digits((-n) as nat)
    } else {
        digits(n as nat)
    }
}

/// Every character is one of `0` to `9`.
pub open spec fn all_digits(s: Seq<char>) -> bool {
    forall|i: int| 0 <= i < s.len() ==> '0' <= #[trigger] s[i] && s[i] <= '9'
}

/// The number that a row of digits writes.
pub open spec fn value_of(s: Seq<char>) -> nat
    decreases s.len(),
{
    if s.len() == 0 {
        0
    } else {
        (value_of(s.drop_last()) * 10 + ((s.last() as int) - ('0' as int))) as nat
    }
}

/// `s` without one leading plus sign.
pub open spec fn unsigned_part(s: Seq<char>) -> Seq<char> {
    if s.len() > 0 && s[0] == '+' {
        s.skip(1)
    } else {
        s
    }
}

/// The `u64` that `s` writes: an optional plus sign and then one or more
/// digits, of a value that fits.
pub open spec fn parsed_u64(s: Seq<char>) -> Option<u64> {
    let row = unsigned_part(s);
    if row.len() > 0 && all_digits(row) && value_of(row) <= u64::MAX {
        Some(value_of(row) as u64)
    } else {
        None
    }
}

/// A longer row of digits writes no smaller number.
proof fn lemma_value_grows(s: Seq<char>, n: int)
    requires
        0 <= n <= s.len(),
        all_digits(s),
    ensures
        value_of(s.take(n)) <= value_of(s),
    decreases s.len() - n,
{
    if n < s.len() {
        lemma_value_grows(s, n + 1);
        assert(s.take(n + 1).drop_last() == s.take(n));
    } else {
        assert(s.take(n) == s);
    }
}

/// The digits of a number are one or more, and write that number.
proof fn lemma_digits_write_the_number(n: nat)
    ensures
        digits(n).len() > 0,
        all_digits(digits(n)),
        value_of(digits(n)) == n,
    decreases n,
{
    if n >= 10 {
        lemma_digits_write_the_number(n / 10);
        assert(digits(n).drop_last() == digits(n / 10));
    } else {
        assert(digits(n).drop_last() == Seq::<char>::empty());
        assert(value_of(Seq::<char>::empty()) == 0);
    }
}

/// A negative number is written as a minus sign and its absolute value.
pub proof fn law_negative_numbers_have_a_sign(n: int)
    requires
        n > 0,
    ensures
        decimal(-n) == seq!['-'] + decimal(n),
{
}

/// Reading back a number that was written in decimal gives that number.
pub proof fn law_decimal_reads_back(n: u64)
    ensures
        parsed_u64(decimal(n as int)) == Some(n),
{
    lemma_digits_write_the_number(n as nat);
    let row = digits(n as nat);
    assert('0' <= row[0]);
    assert(unsigned_part(row) == row);
}

/// Appends the decimal digits of `n` to `s`.
fn push_digits(s: &mut String, n: u64)
    ensures
        final(s)@ == old(s)@ + digits(n as nat),
    decreases n,
{
    if n >= 10 {
        push_digits(s, n / 10);
    }
    let low: u8 = (n % 10) as u8;
    let c: char = (48u8 + low) as char;
    s.push(c);
    assert(old(s)@ + digits(n as nat) == s@);
}

/// Writes a number in decimal.
pub fn decimal_text(n: i64) -> (r: String)
    ensures
        r@ == decimal(n as int),
{
    let mut r = String::new();
    if n < 0 {
        r.push('-');
        let size: u64 = (-(n as i128)) as u64;
        push_digits(&mut r, size);
        assert(r@ == decimal(n as int));
    } else {
        push_digits(&mut r, n as u64);
        assert(r@ == decimal(n as int));
    }
    r
}

/// Reads a `u64`.
pub fn parse_u64(s: &str) -> (r: Option<u64>)
    ensures
        r == parsed_u64(s@),
{
    let chars = chars_of(s);
    let first: usize = if chars.len() > 0 && chars[0] == '+' {
        1
    } else {
        0
    };
    let ghost row = unsigned_part(s@);
    assert(row == s@.skip(first as int));
    if first == chars.len() {
        return None;
    }
    let mut value: u64 = 0;
    let mut i: usize = first;
    assert(row.take(0).len() == 0);
    while i < chars.len()
        invariant
            chars@ == s@,
            first <= i <= chars@.len(),
            first <= 1,
            row == unsigned_part(s@),
            row == s@.skip(first as int),
            row.len() > 0,
            all_digits(row.take(i - first)),
            value == value_of(row.take(i - first)),
        decreases chars@.len() - i,
    {
        let c: char = chars[i];
        assert(row[i - first] == c);
        let ghost longer = row.take(i - first + 1);
        assert(longer.drop_last() == row.take(i - first));
        if c < '0' || '9' < c {
            return None;
        }
        let d: u64 = (c as u32 - 48u32) as u64;
        assert forall|k: int| 0 <= k < longer.len() implies '0' <= #[trigger] longer[k]
            && longer[k] <= '9' by {
            if k < i - first {
                assert(longer[k] == row.take(i - first)[k]);
            }
        }
        assert(value_of(longer) == value * 10 + d);
        let fits: bool = (value as u128) * 10 + (d as u128) <= u64::MAX as u128;
        if !fits {
            proof {
                if all_digits(row) {
                    lemma_value_grows(row, i - first + 1);
                }
            }
            return None;
        }
        value = value * 10 + d;
        i = i + 1;
    }
    assert(row.take(i - first) == row);
    Some(value)
}

} // verus!
