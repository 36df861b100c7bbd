//! The fixed buffer that a log line is written into.
//!
//! A line is a `heapless::String` of 48 bytes. Verification sees it only
//! through [`line_text`] and through the three functions below, whose
//! contracts are taken on trust from the source of `heapless`.
use super::text::{byte_len, lemma_bytes_of_concat};
use vstd::prelude::*;
use vstd::utf8::{is_ascii_chars, is_ascii_chars_encode_utf8};

verus! {

/// The number of bytes that a line holds at most.
pub const LINE_CAPACITY: usize = 48;

/// `heapless::String`: a string in a buffer of `N` bytes. Nothing of its
/// inside is known to the proofs.
#[verifier::external_type_specification]
#[verifier::external_body]
pub struct ExLine<const N: usize>(heapless::String<N>);

/// The text that a line holds: what `heapless::String::as_str` gives.
pub uninterp spec fn line_text(line: heapless::String<48>) -> Seq<char>;

/// `heapless::String::new`: an empty line.
#[verifier::external_body]
pub(crate) fn line_new() -> (line: heapless::String<48>)
    ensures
        line_text(line) == Seq::<char>::empty(),
{
    heapless::String::new()
}

/// `heapless::String::push_str`: appends `s` if the line has room for all
/// of its bytes, and else leaves the line as it is. Says whether it did.
#[verifier::external_body]
pub(crate) fn line_push_str(line: &mut heapless::String<48>, s: &str) -> (pushed: bool)
    ensures
        pushed == (byte_len(line_text(*old(line))) + byte_len(s@) <= LINE_CAPACITY),
        pushed ==> line_text(*final(line)) == line_text(*old(line)) + s@,
        !pushed ==> line_text(*final(line)) == line_text(*old(line)),
{
    line.push_str(s).is_ok()
}

/// `heapless::String::push`: appends `c` if the line has room for all of
/// its bytes, and else leaves the line as it is. Says whether it did.
#[verifier::external_body]
pub(crate) fn line_push(line: &mut heapless::String<48>, c: char) -> (pushed: bool)
    ensures
        pushed == (byte_len(line_text(*old(line))) + byte_len(seq![c]) <= LINE_CAPACITY),
        pushed ==> line_text(*final(line)) == line_text(*old(line)).push(c),
        !pushed ==> line_text(*final(line)) == line_text(*old(line)),
{
    line.push(c).is_ok()
}

/// The decimal digit for `d`.
pub open spec fn digit(d: nat) -> char
    recommends
        d < 10,
{
    (48 + d) as u8 as char
}

/// `n` in decimal, without leading zeros.
pub open spec fn decimal(n: nat) -> Seq<char>
    decreases n,
{
    if n < 10 {
        seq![digit(n)]
    } else {
        decimal(n / 10).push(digit(n % 10))
    }
}

/// A decimal number is ASCII, one byte per digit, and a `u64` has at most
/// twenty digits.
pub proof fn lemma_decimal_is_ascii(n: nat)
    ensures
        is_ascii_chars(decimal(n)),
        byte_len(decimal(n)) == decimal(n).len(),
        decimal(n).len() >= 1,
        n <= u64::MAX ==> decimal(n).len() <= 20,
    decreases n,
{
    if n >= 10 {
        lemma_decimal_is_ascii(n / 10);
    }
    if n <= u64::MAX {
        assert(pow10(20) == 100_000_000_000_000_000_000) by {
            reveal_with_fuel(pow10, 21);
        }
        lemma_decimal_len_bound(n, 20);
    }
    is_ascii_chars_encode_utf8(decimal(n));
}

/// A number below the `k`-th power of ten has at most `k` digits.
proof fn lemma_decimal_len_bound(n: nat, k: nat)
    requires
        k >= 1,
        n < pow10(k),
    ensures
        decimal(n).len() <= k,
    decreases n,
{
    if n >= 10 {
        if k == 1 {
            assert(pow10(1) == 10) by {
                reveal_with_fuel(pow10, 2);
            }
        } else {
            lemma_decimal_len_bound(n / 10, (k - 1) as nat);
        }
    }
}

/// The `k`-th power of ten.
pub open spec fn pow10(k: nat) -> nat
    decreases k,
{
    if k == 0 {
        1
    } else {
        10 * pow10((k - 1) as nat)
    }
}

/// The number of digits of `n` in decimal.
pub fn decimal_len(n: u64) -> (len: usize)
    ensures
        len == decimal(n as nat).len(),
        1 <= len <= 20,
{
    proof {
        lemma_decimal_is_ascii(n as nat);
    }
    let mut len: usize = 1;
    let mut rest: u64 = n;
    while rest >= 10
        invariant
            1 <= len,
            decimal(n as nat).len() <= 20,
            decimal(n as nat).len() == decimal(rest as nat).len() + len - 1,
        decreases rest,
    {
        rest = rest / 10;
        len += 1;
    }
    len
}

/// Appends `n` in decimal to a line that has room for it.
pub(crate) fn line_push_decimal(line: &mut heapless::String<48>, n: u64)
    requires
        byte_len(line_text(*old(line))) + decimal(n as nat).len() <= LINE_CAPACITY,
    ensures
        line_text(*final(line)) == line_text(*old(line)) + decimal(n as nat),
    decreases n,
{
    if n >= 10 {
        line_push_decimal(line, n / 10);
    }
    let d: u8 = (n % 10) as u8;
    let c: char = (48 + d) as char;
    proof {
        let before: Seq<char> = if n >= 10 {
            decimal((n / 10) as nat)
        } else {
            Seq::empty()
        };
        assert(c == digit((n % 10) as nat));
        assert(decimal(n as nat) =~= before.push(c));
        assert(line_text(*line) == line_text(*old(line)) + before);
        lemma_bytes_of_concat(line_text(*old(line)), before);
        if n >= 10 {
            lemma_decimal_is_ascii((n / 10) as nat);
        }
        assert(is_ascii_chars(seq![c]));
        is_ascii_chars_encode_utf8(seq![c]);
    }
    let pushed = line_push(line, c);
    proof {
        assert(pushed);
        assert(line_text(*line) =~= line_text(*old(line)) + decimal(n as nat));
    }
}

} // verus!
