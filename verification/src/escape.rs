//! Byte-level model of the terminal escape sequences the renderer emits.
//!
//! Every sequence written to the output sink is specified here as a `Seq<u8>`,
//! so that the rendering functions can promise, byte for byte, what they append.

use vstd::prelude::*;

verus! {

/// The decimal digits of `n`, most significant first, as ASCII bytes.
pub open spec fn dec_digits(n: int) -> Seq<u8>
    decreases n,
{
    if n < 10 {
        seq![(48 + n) as u8]
    } else {
        dec_digits(n / 10) + seq![(48 + n % 10) as u8]
    }
}

/// `ESC [ <row> ; <col> H`: move the cursor to a cell, row and column as decimal text.
pub open spec fn cursor_escape(row: int, col: int) -> Seq<u8> {
    seq![27u8, 91u8] + dec_digits(row) + seq![59u8] + dec_digits(col) + seq![72u8]
}

/// `ESC [ 2 J`: clear the whole screen.
pub open spec fn clear_screen_escape() -> Seq<u8> {
    seq![27u8, 91u8, 50u8, 74u8]
}

/// `ESC [ ? 2 5 l`: hide the cursor.
pub open spec fn hide_cursor_escape() -> Seq<u8> {
    seq![27u8, 91u8, 63u8, 50u8, 53u8, 108u8]
}

/// `ESC [ ? 2 5 h`: show the cursor.
pub open spec fn show_cursor_escape() -> Seq<u8> {
    seq![27u8, 91u8, 63u8, 50u8, 53u8, 104u8]
}

/// Appends the decimal digits of `n` to `out`.
pub fn push_decimal(out: &mut Vec<u8>, n: u64)
    ensures
        final(out)@ == old(out)@ + dec_digits(n as int),
    decreases n,
{
    if n < 10 {
        out.push(48 + n as u8);
        assert(out@ =~= old(out)@ + dec_digits(n as int));
    } else {
        push_decimal(out, n / 10);
        out.push(48 + (n % 10) as u8);
        assert(out@ =~= old(out)@ + dec_digits(n as int));
    }
}

/// Appends `ESC [ <row> ; <col> H` to `out`.
pub fn push_cursor_escape(out: &mut Vec<u8>, row: u64, col: u64)
    ensures
        final(out)@ == old(out)@ + cursor_escape(row as int, col as int),
{
    out.push(27);
    out.push(91);
    push_decimal(out, row);
    out.push(59);
    push_decimal(out, col);
    out.push(72);
    assert(out@ =~= old(out)@ + cursor_escape(row as int, col as int));
}

/// Appends `ESC [ 2 J` to `out`.
pub fn push_clear_screen(out: &mut Vec<u8>)
    ensures
        final(out)@ == old(out)@ + clear_screen_escape(),
{
    out.push(27);
    out.push(91);
    out.push(50);
    out.push(74);
    assert(out@ =~= old(out)@ + clear_screen_escape());
}

} // verus!
