//! Text as bytes: decimal numbers, hexadecimal digits and escaping, for
//! the calendar files and reports that the scheduler writes.

use vstd::prelude::*;
use vstd::string::StringSliceAdditionalSpecFns;

verus! {

/// The ASCII digit of `d`.
pub open spec fn digit(d: int) -> u8 {
    (48 + d) as u8
}

/// A number below 100 in two decimal digits.
pub open spec fn two_digits(v: int) -> Seq<u8> {
    seq![digit(v / 10), digit(v % 10)]
}

/// A number below 10000 in four decimal digits.
pub open spec fn four_digits(v: int) -> Seq<u8> {
    seq![digit(v / 1000), digit(v / 100 % 10), digit(v / 10 % 10), digit(v % 10)]
}

/// `v` in decimal, without leading zeros.
pub open spec fn decimal(v: nat) -> Seq<u8>
    decreases v,
{
    if v < 10 {
        seq![digit(v as int)]
    } else {
        decimal(v / 10).push(digit(v as int % 10))
    }
}

/// The lower-case hexadecimal digit of `n`.
pub open spec fn hex_digit(n: int) -> u8 {
    if n < 10 {
        (48 + n) as u8
    } else {
        (87 + n) as u8
    }
}

/// Two lower-case hexadecimal digits for each byte, the high one first.
pub open spec fn hex_bytes(data: Seq<u8>) -> Seq<u8> {
    Seq::new(
        2 * data.len(),
        |i: int|
            if i % 2 == 0 {
                hex_digit(data[i / 2] as int / 16)
            } else {
                hex_digit(data[i / 2] as int % 16)
            },
    )
}

/// Calls `hex::encode` of the crate `hex` and takes the bytes of the
/// string it returns. Nothing is proved of it: the contract states what
/// the crate documents, two lower-case hexadecimal digits for each byte.
#[verifier::external_body]
pub(crate) fn hex_encode(data: &[u8; 16]) -> (out: Vec<u8>)
    ensures
        out@ == hex_bytes(data@),
{
    hex::encode(data).into_bytes()
}

/// Calls `String::from_utf8` of std on bytes that are all ASCII, which
/// are valid UTF-8 with one character for each byte. Nothing is proved of
/// it: the contract states that the string holds those characters.
#[verifier::external_body]
pub(crate) fn ascii_string(bytes: Vec<u8>) -> (s: String)
    requires
        forall|i: int| 0 <= i < bytes@.len() ==> bytes@[i] < 128,
    ensures
        s@ == Seq::new(bytes@.len(), |i: int| bytes@[i] as char),
{
    String::from_utf8(bytes).unwrap_or_default()
}

/// Appends `bytes`.
pub fn push_bytes(out: &mut Vec<u8>, bytes: &[u8])
    ensures
        final(out)@ == old(out)@ + bytes@,
{
    let mut i: usize = 0;
    while i < bytes.len()
        invariant
            0 <= i <= bytes@.len(),
            out@ == old(out)@ + bytes@.subrange(0, i as int),
        decreases bytes@.len() - i,
    {
        out.push(bytes[i]);
        i += 1;
        assert(out@ =~= old(out)@ + bytes@.subrange(0, i as int));
    }
    assert(bytes@.subrange(0, bytes@.len() as int) =~= bytes@);
}

/// Appends the UTF-8 bytes of `text`.
pub fn push_text(out: &mut Vec<u8>, text: &str)
    ensures
        final(out)@ == old(out)@ + text.spec_bytes(),
{
    push_bytes(out, text.as_bytes());
}

/// Appends a number below 100 in two decimal digits.
pub fn push_two_digits(out: &mut Vec<u8>, v: u64)
    requires
        v < 100,
    ensures
        final(out)@ == old(out)@ + two_digits(v as int),
{
    out.push((48 + v / 10) as u8);
    out.push((48 + v % 10) as u8);
    assert(out@ =~= old(out)@ + two_digits(v as int));
}

/// Appends a number below 10000 in four decimal digits.
pub fn push_four_digits(out: &mut Vec<u8>, v: u64)
    requires
        v < 10000,
    ensures
        final(out)@ == old(out)@ + four_digits(v as int),
{
    out.push((48 + v / 1000) as u8);
    out.push((48 + v / 100 % 10) as u8);
    out.push((48 + v / 10 % 10) as u8);
    out.push((48 + v % 10) as u8);
    assert(out@ =~= old(out)@ + four_digits(v as int));
}

/// Appends `v` in decimal, without leading zeros.
pub fn push_decimal(out: &mut Vec<u8>, v: u64)
    ensures
        final(out)@ == old(out)@ + decimal(v as nat),
    decreases v,
{
    if v >= 10 {
        push_decimal(out, v / 10);
    }
    out.push((48 + v % 10) as u8);
    assert(out@ =~= old(out)@ + decimal(v as nat));
}

/// What stands for one byte in an escaped text: a backslash goes before a
/// backslash, a comma and a semicolon, and a line feed becomes a backslash
/// and `n` where `newlines` is set.
pub open spec fn escape_byte(b: u8, newlines: bool) -> Seq<u8> {
    if b == 92 {
        seq![92u8, 92u8]
    } else if b == 44 {
        seq![92u8, 44u8]
    } else if b == 59 {
        seq![92u8, 59u8]
    } else if newlines && b == 10 {
        seq![92u8, 110u8]
    } else {
        seq![b]
    }
}

/// `s` with every byte escaped.
pub open spec fn escaped(s: Seq<u8>, newlines: bool) -> Seq<u8>
    decreases s.len(),
{
    if s.len() == 0 {
        Seq::empty()
    } else {
        escaped(s.drop_last(), newlines) + escape_byte(s.last(), newlines)
    }
}

/// Appends `text` with its special characters escaped.
pub fn push_escaped(out: &mut Vec<u8>, text: &str, newlines: bool)
    ensures
        final(out)@ == old(out)@ + escaped(text.spec_bytes(), newlines),
{
    let bytes: &[u8] = text.as_bytes();
    let mut i: usize = 0;
    while i < bytes.len()
        invariant
            0 <= i <= bytes@.len(),
            out@ == old(out)@ + escaped(bytes@.subrange(0, i as int), newlines),
        decreases bytes@.len() - i,
    {
        let b: u8 = bytes[i];
        let ghost before = out@;
        if b == 92 || b == 44 || b == 59 {
            out.push(92);
            out.push(b);
        } else if newlines && b == 10 {
            out.push(92);
            out.push(110);
        } else {
            out.push(b);
        }
        proof {
            let next = bytes@.subrange(0, i + 1);
            assert(next.drop_last() =~= bytes@.subrange(0, i as int));
            assert(next.last() == b);
            assert(out@ =~= before + escape_byte(b, newlines));
            assert(out@ =~= old(out)@ + escaped(next, newlines));
        }
        i += 1;
    }
    assert(bytes@.subrange(0, bytes@.len() as int) =~= bytes@);
}

} // verus!
