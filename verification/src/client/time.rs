use vstd::prelude::*;

use core::time::Duration;

use crate::entropy::{duration_nanos, nanos_of};

verus! {

/// The base of the readable digits.
pub const BASE: usize = 62;

/// The readable character of the digit `d` below the base: `0`-`9`, then
/// `A`-`Z`, then `a`-`z`.
pub open spec fn readable_digit(d: nat) -> u8 {
    if d < 10 {
        (0x30 + d) as u8
    } else if d < 36 {
        (0x41 + (d - 10)) as u8
    } else {
        (0x61 + (d - 36)) as u8
    }
}

/// Whether `b` is an ASCII digit or letter.
pub open spec fn is_ascii_alphanumeric(b: u8) -> bool {
    (0x30 <= b <= 0x39) || (0x41 <= b <= 0x5a) || (0x61 <= b <= 0x7a)
}

/// The microseconds within the second of a time of `nanos` nanoseconds.
pub open spec fn micros_within_second(nanos: u128) -> nat {
    ((nanos % 1_000_000_000) / 1000) as nat
}

/// What the digit loop leaves in `result`: while `r` is above the base, `r`
/// is divided by the base and the readable digit of the new `r` modulo the
/// base goes into the next place, from place `i` on.
pub open spec fn readable_digits(r: nat, i: nat, result: Seq<u8>) -> Seq<u8>
    decreases r,
{
    if r > BASE {
        let next = r / BASE as nat;
        readable_digits(next, i + 1, result.update(i as int, readable_digit(next % BASE as nat)))
    } else {
        result
    }
}

/// The digit loop on a number of microseconds, below a million.
pub fn write_readable_digits(n: usize, result: &mut [u8; 6])
    requires
        n < 1_000_000,
    ensures
        final(result)@ == readable_digits(n as nat, 0, old(result)@),
{
    let mut r: usize = n;
    let mut i: usize = 0;
    while r > BASE
        invariant
            (i == 0 && r < 1_000_000) || (i == 1 && r < 16130) || (i == 2 && r < 261) || (i == 3
                && r < 5),
            result@.len() == 6,
            readable_digits(n as nat, 0, old(result)@) == readable_digits(
                r as nat,
                i as nat,
                result@,
            ),
        decreases r,
    {
        let ghost before = result@;
        let ghost old_r = r;
        r = r / BASE;
        let d = r % BASE;
        let digit: usize = if d < 10 {
            0x30 + d
        } else if d < 36 {
            0x41 + (d - 10)
        } else {
            0x61 + (d - 36)
        };
        result[i] = digit as u8;
        assert(result@ == before.update(i as int, readable_digit(r as nat % BASE as nat)));
        i = i + 1;
    }
}

/// The readable character of a digit below the base is an ASCII digit or
/// letter.
pub proof fn lemma_readable_digit_alphanumeric(d: nat)
    requires
        d < BASE,
    ensures
        is_ascii_alphanumeric(readable_digit(d)),
{
}

/// Every place that the digit loop fills, on a number of microseconds below
/// a million, holds an ASCII digit or letter, and the loop fills no place
/// past the third.
pub proof fn lemma_readable_digits_alphanumeric(r: nat, i: nat, result: Seq<u8>, j: int)
    requires
        (i == 0 && r < 1_000_000) || (i == 1 && r < 16130) || (i == 2 && r < 261) || (i == 3
            && r < 5),
        result.len() == 6,
        0 <= j < 6,
    ensures
        readable_digits(r, i, result).len() == 6,
        readable_digits(r, i, result)[j] == result[j] || is_ascii_alphanumeric(
            readable_digits(r, i, result)[j],
        ),
        j >= 3 ==> readable_digits(r, i, result)[j] == result[j],
    decreases r,
{
    if r > BASE {
        let next = r / BASE as nat;
        lemma_readable_digit_alphanumeric(next % BASE as nat);
        let updated = result.update(i as int, readable_digit(next % BASE as nat));
        lemma_readable_digits_alphanumeric(next, i + 1, updated, j);
    }
}

/// A short readable form of a time: the microseconds within its second,
/// written as readable digits into a six-byte buffer.
pub trait SmallestReadableString: Sized + Copy {
    /// Writes the digits into `result` and hands back the whole buffer.
    fn to_smallest_readable_string(self, result: &mut [u8; 6]) -> (r: &[u8])
        ensures
            exists|n: nat|
                n < 1_000_000 && #[trigger] readable_digits(n, 0, old(result)@) == final(result)@,
            r@ == final(result)@,
    ;
}

impl SmallestReadableString for Duration {
    /// Writes the digits of the microseconds within the duration's second.
    fn to_smallest_readable_string(self, result: &mut [u8; 6]) -> (r: &[u8])
        ensures
            final(result)@ == readable_digits(micros_within_second(nanos_of(self)), 0, old(result)@),
    {
        let nanos = duration_nanos(&self);
        let n = ((nanos % 1_000_000_000) / 1000) as usize;
        write_readable_digits(n, result);
        result.as_slice()
    }
}

/// The digits depend on the microseconds within the second alone: a time of
/// `seconds` whole seconds, `micros` microseconds and `sub` nanoseconds below
/// a microsecond gives the digits of `micros`, whatever the seconds and the
/// nanoseconds below a microsecond are.
pub proof fn law_digits_of_micros_alone(seconds: nat, micros: nat, sub: nat, buffer: Seq<u8>)
    requires
        micros < 1_000_000,
        sub < 1000,
        seconds * 1_000_000_000 + micros * 1000 + sub <= u128::MAX,
    ensures
        readable_digits(
            micros_within_second((seconds * 1_000_000_000 + micros * 1000 + sub) as u128),
            0,
            buffer,
        ) == readable_digits(micros, 0, buffer),
{
    let n = seconds * 1_000_000_000 + micros * 1000 + sub;
    assert(n % 1_000_000_000 == micros * 1000 + sub) by (nonlinear_arith)
        requires
            n == seconds * 1_000_000_000 + micros * 1000 + sub,
            micros < 1_000_000,
            sub < 1000,
    ;
    assert((micros * 1000 + sub) / 1000 == micros) by (nonlinear_arith)
        requires
            sub < 1000,
    ;
}

} // verus!
