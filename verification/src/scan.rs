//! Reading the lines of a symbol file: their fields, and the numbers and
//! texts that the fields hold.

use vstd::prelude::*;
use vstd::slice::slice_subrange;
use vstd::utf8::{decode_utf8, valid_utf8};

verus! {

/// `core::str::Utf8Error`, of which nothing is looked into.
#[verifier::external_type_specification]
#[verifier::external_body]
pub struct ExUtf8Error(core::str::Utf8Error);

/// `core::str::from_utf8`: succeeds on the bytes that are UTF-8, and on none
/// else; the text it gives is the one that the bytes encode.
pub assume_specification<'a>[ core::str::from_utf8 ](v: &'a [u8]) -> (r: Result<
    &'a str,
    core::str::Utf8Error,
>)
    ensures
        r is Ok <==> valid_utf8(v@),
        r matches Ok(s) ==> s@ == decode_utf8(v@),
;

/// The byte that parts one field of a line from the next.
pub const SPACE: u8 = 0x20;

/// The byte that ends a line.
pub const NEWLINE: u8 = 0x0a;

/// The byte that may stand before the end of a line, and is no part of it.
pub const CARRIAGE_RETURN: u8 = 0x0d;

/// The position of the first `stop` at or after `start`; the length of `s`
/// where there is none.
pub open spec fn scan_to(s: Seq<u8>, start: int, stop: u8) -> int
    decreases s.len() - start,
{
    if 0 <= start < s.len() && s[start] != stop {
        scan_to(s, start + 1, stop)
    } else {
        start
    }
}

/// The position of the first byte other than `skip` at or after `start`;
/// the length of `s` where there is none.
pub open spec fn skip_over(s: Seq<u8>, start: int, skip: u8) -> int
    decreases s.len() - start,
{
    if 0 <= start < s.len() && s[start] == skip {
        skip_over(s, start + 1, skip)
    } else {
        start
    }
}

/// Where the field that begins at `start` ends.
pub open spec fn field_end(line: Seq<u8>, start: int) -> int {
    scan_to(line, start, SPACE)
}

/// Where the field after the one that begins at `start` begins.
pub open spec fn next_field(line: Seq<u8>, start: int) -> int {
    skip_over(line, field_end(line, start), SPACE)
}

/// The field that begins at `start`: the bytes up to the next space.
pub open spec fn field(line: Seq<u8>, start: int) -> Seq<u8> {
    line.subrange(start, field_end(line, start))
}

/// What is left of the line from `start` on.
pub open spec fn rest(line: Seq<u8>, start: int) -> Seq<u8> {
    line.subrange(start, line.len() as int)
}

/// A line without the carriage return that may end it.
pub open spec fn without_cr(line: Seq<u8>) -> Seq<u8> {
    if line.len() > 0 && line.last() == CARRIAGE_RETURN {
        line.drop_last()
    } else {
        line
    }
}

/// A scan ends inside the text, at the byte it looks for or at the end, and
/// passes over none of its kind.
pub proof fn lemma_scan_to_bounds(s: Seq<u8>, start: int, stop: u8)
    requires
        0 <= start <= s.len(),
    ensures
        start <= scan_to(s, start, stop) <= s.len(),
        scan_to(s, start, stop) < s.len() ==> s[scan_to(s, start, stop)] == stop,
        forall|i: int| start <= i < scan_to(s, start, stop) ==> s[i] != stop,
    decreases s.len() - start,
{
    if start < s.len() && s[start] != stop {
        lemma_scan_to_bounds(s, start + 1, stop);
    }
}

/// A skip ends inside the text, at a byte other than the one it skips or
/// at the end, and passes over none but those.
pub proof fn lemma_skip_over_bounds(s: Seq<u8>, start: int, skip: u8)
    requires
        0 <= start <= s.len(),
    ensures
        start <= skip_over(s, start, skip) <= s.len(),
        skip_over(s, start, skip) < s.len() ==> s[skip_over(s, start, skip)] != skip,
        forall|i: int| start <= i < skip_over(s, start, skip) ==> s[i] == skip,
    decreases s.len() - start,
{
    if start < s.len() && s[start] == skip {
        lemma_skip_over_bounds(s, start + 1, skip);
    }
}

/// The position of the first `stop` at or after `start`.
pub(crate) fn find_byte(s: &[u8], start: usize, stop: u8) -> (end: usize)
    requires
        start <= s.len(),
    ensures
        end == scan_to(s@, start as int, stop),
        start <= end <= s.len(),
{
    let mut i = start;
    while i < s.len() && s[i] != stop
        invariant
            start <= i <= s.len(),
            scan_to(s@, start as int, stop) == scan_to(s@, i as int, stop),
        decreases s.len() - i,
    {
        i = i + 1;
    }
    i
}

/// The position of the first byte other than `skip` at or after `start`.
pub(crate) fn skip_byte(s: &[u8], start: usize, skip: u8) -> (end: usize)
    requires
        start <= s.len(),
    ensures
        end == skip_over(s@, start as int, skip),
        start <= end <= s.len(),
{
    let mut i = start;
    while i < s.len() && s[i] == skip
        invariant
            start <= i <= s.len(),
            skip_over(s@, start as int, skip) == skip_over(s@, i as int, skip),
        decreases s.len() - i,
    {
        i = i + 1;
    }
    i
}

/// The value of a digit in the given radix, ten or sixteen.
pub open spec fn digit_value(b: u8, radix: nat) -> Option<nat> {
    if 0x30 <= b <= 0x39 {
        Some((b - 0x30) as nat)
    } else if radix == 16 && 0x61 <= b <= 0x66 {
        Some((b - 0x61 + 10) as nat)
    } else if radix == 16 && 0x41 <= b <= 0x46 {
        Some((b - 0x41 + 10) as nat)
    } else {
        None
    }
}

/// The number that `digits` write in the given radix; none where they are
/// empty or hold anything but digits.
pub open spec fn number(digits: Seq<u8>, radix: nat) -> Option<nat>
    decreases digits.len(),
{
    if digits.len() == 0 {
        None
    } else if digits.len() == 1 {
        digit_value(digits[0], radix)
    } else {
        match (number(digits.drop_last(), radix), digit_value(digits.last(), radix)) {
            (Some(high), Some(low)) => Some(high * radix + low),
            _ => None,
        }
    }
}

/// The number that `digits` write, where it is at most `max`.
pub open spec fn number_up_to(digits: Seq<u8>, radix: nat, max: u64) -> Option<u64> {
    match number(digits, radix) {
        Some(n) => if n <= max {
            Some(n as u64)
        } else {
            None
        },
        None => None,
    }
}

/// A 64-bit number in hexadecimal digits.
pub open spec fn hex_u64(digits: Seq<u8>) -> Option<u64> {
    number_up_to(digits, 16, u64::MAX)
}

/// A 32-bit number in hexadecimal digits.
pub open spec fn hex_u32(digits: Seq<u8>) -> Option<u32> {
    match number_up_to(digits, 16, 0xffff_ffff) {
        Some(n) => Some(n as u32),
        None => None,
    }
}

/// A 32-bit number in decimal digits.
pub open spec fn dec_u32(digits: Seq<u8>) -> Option<u32> {
    match number_up_to(digits, 10, 0xffff_ffff) {
        Some(n) => Some(n as u32),
        None => None,
    }
}

/// What a longer run of digits writes, given what a part at its front
/// writes: nothing where the part writes nothing, and no less than the part.
pub proof fn lemma_number_of_prefix(digits: Seq<u8>, radix: nat, k: int)
    requires
        1 <= k <= digits.len(),
        radix == 10 || radix == 16,
    ensures
        number(digits.take(k), radix) is None ==> number(digits, radix) is None,
        number(digits, radix) matches Some(n) ==> number(digits.take(k), radix)->0 <= n,
    decreases digits.len() - k,
{
    if k == digits.len() {
        assert(digits.take(k) =~= digits);
    } else {
        assert(digits.drop_last().take(k) =~= digits.take(k));
        lemma_number_of_prefix(digits.drop_last(), radix, k);
        if number(digits, radix) is Some {
            let high = number(digits.drop_last(), radix)->0;
            let low = digit_value(digits.last(), radix)->0;
            assert(high * radix + low >= high) by (nonlinear_arith)
                requires
                    radix >= 1,
                    high >= 0,
                    low >= 0,
            ;
        }
    }
}

/// The two ways in which numbers are written.
#[derive(Clone, Copy, Debug, PartialEq, Eq, Structural)]
pub enum Radix {
    /// In the digits `0` to `9`.
    Decimal,
    /// In the digits `0` to `9` and `a` to `f`, of either case.
    Hexadecimal,
}

impl Radix {
    /// The number of digits: ten or sixteen.
    pub open spec fn base(self) -> nat {
        match self {
            Radix::Decimal => 10,
            Radix::Hexadecimal => 16,
        }
    }
}

/// Reads a number of at most `max` from all of `digits`.
pub fn parse_number(digits: &[u8], in_radix: Radix, max: u64) -> (r: Option<u64>)
    ensures
        r == number_up_to(digits@, in_radix.base(), max),
{
    let radix: u64 = match in_radix {
        Radix::Decimal => 10,
        Radix::Hexadecimal => 16,
    };
    if digits.len() == 0 {
        return None;
    }
    let mut acc: u64 = 0;
    let mut i: usize = 0;
    while i < digits.len()
        invariant
            i <= digits.len(),
            radix == 10 || radix == 16,
            radix == in_radix.base(),
            digits.len() > 0,
            i > 0 ==> number(digits@.take(i as int), radix as nat) == Some(acc as nat),
            i == 0 ==> acc == 0,
            acc <= max,
        decreases digits.len() - i,
    {
        let b = digits[i];
        let d: u64 = if b >= 0x30 && b <= 0x39 {
            (b - 0x30) as u64
        } else if radix == 16 && b >= 0x61 && b <= 0x66 {
            (b - 0x61 + 10) as u64
        } else if radix == 16 && b >= 0x41 && b <= 0x46 {
            (b - 0x41 + 10) as u64
        } else {
            proof {
                lemma_number_of_prefix(digits@, radix as nat, i + 1);
            }
            return None;
        };
        proof {
            assert(digits@.take(i + 1).drop_last() =~= digits@.take(i as int));
            lemma_number_of_prefix(digits@, radix as nat, i + 1);
        }
        if d > max || acc > (max - d) / radix {
            proof {
                assert(acc * radix + d > max) by (nonlinear_arith)
                    requires
                        d > max || acc > (max - d) / (radix as int),
                        radix == 10 || radix == 16,
                        acc >= 0,
                        d >= 0,
                ;
            }
            return None;
        }
        assert(acc * radix + d <= max) by (nonlinear_arith)
            requires
                acc <= (max - d) / (radix as int),
                d <= max,
                radix == 10 || radix == 16,
                acc >= 0,
        ;
        acc = acc * radix + d;
        i = i + 1;
    }
    assert(digits@.take(digits.len() as int) =~= digits@);
    Some(acc)
}

/// The text that `bytes` encode in UTF-8; none where they are empty or do
/// not encode a text.
pub open spec fn text_value(bytes: Seq<u8>) -> Option<Seq<char>> {
    if bytes.len() > 0 && valid_utf8(bytes) {
        Some(decode_utf8(bytes))
    } else {
        None
    }
}

/// The view of a text that may be missing.
pub open spec fn text_view(s: Option<String>) -> Option<Seq<char>> {
    match s {
        Some(s) => Some(s@),
        None => None,
    }
}

/// Reads a text from all of `bytes`.
pub fn parse_text(bytes: &[u8]) -> (r: Option<String>)
    ensures
        text_view(r) == text_value(bytes@),
{
    if bytes.len() == 0 {
        return None;
    }
    match core::str::from_utf8(bytes) {
        Ok(s) => Some(s.to_owned()),
        Err(_) => None,
    }
}

/// The bytes of `line` from `start` up to `end`.
pub(crate) fn bytes_between(line: &[u8], start: usize, end: usize) -> (r: &[u8])
    requires
        start <= end <= line.len(),
    ensures
        r@ == line@.subrange(start as int, end as int),
{
    slice_subrange(line, start, end)
}

} // verus!
