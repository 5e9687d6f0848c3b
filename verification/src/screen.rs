//! The byte stream that a frame is made of.
//!
//! Nothing here touches a terminal. Drawing appends to a byte buffer: cursor
//! movements in the encoding the terminal expects, followed by the glyphs to
//! show there. Whoever owns the terminal writes the buffer out.

use std::io::Write;
use vstd::prelude::*;

verus! {

/// The decimal digits of `n` in ASCII, most significant first, without
/// padding.
pub open spec fn decimal(n: nat) -> Seq<u8>
    decreases n,
{
    if n < 10 {
        seq![(48 + n) as u8]
    } else {
        decimal(n / 10).push((48 + n % 10) as u8)
    }
}

/// The decimal form of a signed number: a minus sign in front of a negative
/// one.
pub open spec fn signed_decimal(n: int) -> Seq<u8> {
    if n < 0 {
        seq![45u8] + decimal((-n) as nat)
    } else {
        decimal(n as nat)
    }
}

/// The escape sequence that moves the cursor to column `x` of row `y`:
/// `ESC [ y ; x H`, both numbers in decimal.
pub open spec fn goto_code(x: u16, y: u16) -> Seq<u8> {
    seq![27u8, 91u8] + decimal(y as nat) + seq![59u8] + decimal(x as nat) + seq![72u8]
}

/// The bytes that stand for a string on the wire.
pub open spec fn utf8(text: Seq<char>) -> Seq<u8> {
    vstd::utf8::encode_utf8(text)
}

/// Appending in two steps is appending the two pieces joined.
pub proof fn lemma_append_twice(out: Seq<u8>, first: Seq<u8>, second: Seq<u8>)
    ensures
        (out + first) + second == out + (first + second),
{
    assert((out + first) + second =~= out + (first + second));
}

/// Appends the decimal digits of `n`.
pub fn push_decimal(out: &mut Vec<u8>, n: u64)
    ensures
        final(out)@ == old(out)@ + decimal(n as nat),
    decreases n,
{
    if n >= 10 {
        push_decimal(out, n / 10);
    }
    let digit: u8 = 48 + (n % 10) as u8;
    out.push(digit);
    proof {
        if n >= 10 {
            assert(final(out)@ =~= old(out)@ + decimal(n as nat));
        } else {
            assert(final(out)@ =~= old(out)@ + decimal(n as nat));
        }
    }
}

/// Appends the decimal form of a signed number.
pub fn push_signed_decimal(out: &mut Vec<u8>, n: i32)
    ensures
        final(out)@ == old(out)@ + signed_decimal(n as int),
{
    if n < 0 {
        out.push(45u8);
        let magnitude: u64 = (-(n as i64)) as u64;
        push_decimal(out, magnitude);
        assert(final(out)@ =~= old(out)@ + signed_decimal(n as int));
    } else {
        push_decimal(out, n as u64);
    }
}

/// Appends `bytes` as they are.
pub fn push_bytes(out: &mut Vec<u8>, bytes: &[u8])
    ensures
        final(out)@ == old(out)@ + bytes@,
{
    let mut i: usize = 0;
    while i < bytes.len()
        invariant
            i <= bytes@.len(),
            out@ == old(out)@ + bytes@.subrange(0, i as int),
        decreases bytes@.len() - i,
    {
        out.push(bytes[i]);
        i += 1;
        assert(out@ =~= old(out)@ + bytes@.subrange(0, i as int));
    }
    assert(bytes@.subrange(0, i as int) =~= bytes@);
}

/// Appends the bytes of `text`.
pub fn push_text(out: &mut Vec<u8>, text: &str)
    ensures
        final(out)@ == old(out)@ + utf8(text@),
{
    push_bytes(out, text.as_bytes());
}

/// Appends the cursor movement to column `x`, row `y`.
///
/// Trusted: the body formats `termion::cursor::Goto(x, y)` into the buffer.
/// The contract restates what its `Display` impl writes, `ESC [ y ; x H` with
/// the row first and both numbers in plain decimal, and leaves out the one
/// position, (0, 0), that its debug assertion rejects.
#[verifier::external_body]
pub(crate) fn push_goto(out: &mut Vec<u8>, x: u16, y: u16)
    requires
        x != 0 || y != 0,
    ensures
        final(out)@ == old(out)@ + goto_code(x, y),
{
    let _ = write!(out, "{}", termion::cursor::Goto(x, y));
}

} // verus!
