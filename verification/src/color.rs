//! Colour encoding strategies: truecolor and 256-colour palettes, each as a
//! foreground or background SGR escape.
//!
//! A `Colorize` value is the colour token stored per diff run; its
//! `escape_seq` spec names the exact activation bytes `write_escape` emits.

use crate::escape::dec_digits;
use crate::escape::push_decimal;
use vstd::prelude::*;

verus! {

/// The 256-colour palette index that `ansi_colours` assigns to an RGB triple.
pub uninterp spec fn ansi256_of(r: u8, g: u8, b: u8) -> u8;

/// Relies on `ansi_colours::ansi256_from_rgb`: the palette index approximating
/// an sRGB colour, a pure function of the RGB triple alone.
#[verifier::external_body]
fn ansi256_from_rgb(r: u8, g: u8, b: u8) -> (idx: u8)
    ensures
        idx == ansi256_of(r, g, b),
{
    ansi_colours::ansi256_from_rgb((r, g, b))
}

/// A colour token: built from an RGB triple once per diff run, compared
/// exactly to decide whether a style activation escape must be re-emitted,
/// and written as its activation escape sequence.
pub trait Colorize: Sized + Copy {
    /// The token that `from_rgb` builds.
    spec fn spec_from_rgb(r: u8, g: u8, b: u8) -> Self;

    /// The token written for runs before any run has been written.
    spec fn spec_default() -> Self;

    /// Whether this strategy paints cell backgrounds (glyphs are then spaces).
    spec fn spec_is_background() -> bool;

    /// The activation escape sequence of this token.
    spec fn escape_seq(&self) -> Seq<u8>;

    fn from_rgb(r: u8, g: u8, b: u8) -> (c: Self)
        ensures
            c == Self::spec_from_rgb(r, g, b),
    ;

    fn default_color() -> (c: Self)
        ensures
            c == Self::spec_default(),
    ;

    fn is_background() -> (bg: bool)
        ensures
            bg == Self::spec_is_background(),
    ;

    fn eq_color(&self, other: &Self) -> (r: bool)
        ensures
            r == (*self == *other),
    ;

    fn write_escape(&self, out: &mut Vec<u8>)
        ensures
            final(out)@ == old(out)@ + self.escape_seq(),
    ;
}

/// Truecolor foreground: `ESC [ 3 8 ; 2 ; R ; G ; B m`.
#[derive(Clone, Copy, PartialEq, Eq, Structural, Debug)]
pub struct Rgb {
    pub r: u8,
    pub g: u8,
    pub b: u8,
}

/// Truecolor background: `ESC [ 4 8 ; 2 ; R ; G ; B m`.
#[derive(Clone, Copy, PartialEq, Eq, Structural, Debug)]
pub struct BackgroundRgb {
    pub r: u8,
    pub g: u8,
    pub b: u8,
}

/// 256-colour foreground: `ESC [ 3 8 ; 5 ; N m`.
#[derive(Clone, Copy, PartialEq, Eq, Structural, Debug)]
pub struct Ansi256 {
    pub index: u8,
}

/// 256-colour background: `ESC [ 4 8 ; 5 ; N m`.
#[derive(Clone, Copy, PartialEq, Eq, Structural, Debug)]
pub struct BackgroundAnsi256 {
    pub index: u8,
}

/// `ESC [ <sgr> ; 2 ; <r> ; <g> ; <b> m`, the truecolor activation body.
pub open spec fn truecolor_escape(sgr_tens: u8, r: u8, g: u8, b: u8) -> Seq<u8> {
    seq![27u8, 91u8, sgr_tens, 56u8, 59u8, 50u8, 59u8] + dec_digits(r as int) + seq![59u8]
        + dec_digits(g as int) + seq![59u8] + dec_digits(b as int) + seq![109u8]
}

/// `ESC [ <sgr> ; 5 ; <index> m`, the 256-colour activation body.
pub open spec fn palette_escape(sgr_tens: u8, index: u8) -> Seq<u8> {
    seq![27u8, 91u8, sgr_tens, 56u8, 59u8, 53u8, 59u8] + dec_digits(index as int) + seq![109u8]
}

fn push_truecolor_escape(out: &mut Vec<u8>, sgr_tens: u8, r: u8, g: u8, b: u8)
    ensures
        final(out)@ == old(out)@ + truecolor_escape(sgr_tens, r, g, b),
{
    out.push(27);
    out.push(91);
    out.push(sgr_tens);
    out.push(56);
    out.push(59);
    out.push(50);
    out.push(59);
    push_decimal(out, r as u64);
    out.push(59);
    push_decimal(out, g as u64);
    out.push(59);
    push_decimal(out, b as u64);
    out.push(109);
    assert(out@ =~= old(out)@ + truecolor_escape(sgr_tens, r, g, b));
}

fn push_palette_escape(out: &mut Vec<u8>, sgr_tens: u8, index: u8)
    ensures
        final(out)@ == old(out)@ + palette_escape(sgr_tens, index),
{
    out.push(27);
    out.push(91);
    out.push(sgr_tens);
    out.push(56);
    out.push(59);
    out.push(53);
    out.push(59);
    push_decimal(out, index as u64);
    out.push(109);
    assert(out@ =~= old(out)@ + palette_escape(sgr_tens, index));
}

impl Colorize for Rgb {
    open spec fn spec_from_rgb(r: u8, g: u8, b: u8) -> Self {
        Rgb { r, g, b }
    }

    open spec fn spec_default() -> Self {
        Rgb { r: 0, g: 0, b: 0 }
    }

    open spec fn spec_is_background() -> bool {
        false
    }

    open spec fn escape_seq(&self) -> Seq<u8> {
        truecolor_escape(51u8, self.r, self.g, self.b)
    }

    fn from_rgb(r: u8, g: u8, b: u8) -> Self {
        Rgb { r, g, b }
    }

    fn default_color() -> Self {
        Rgb { r: 0, g: 0, b: 0 }
    }

    fn is_background() -> bool {
        false
    }

    fn eq_color(&self, other: &Self) -> bool {
        *self == *other
    }

    fn write_escape(&self, out: &mut Vec<u8>) {
        push_truecolor_escape(out, 51, self.r, self.g, self.b);
    }
}

impl Colorize for BackgroundRgb {
    open spec fn spec_from_rgb(r: u8, g: u8, b: u8) -> Self {
        BackgroundRgb { r, g, b }
    }

    open spec fn spec_default() -> Self {
        BackgroundRgb { r: 0, g: 0, b: 0 }
    }

    open spec fn spec_is_background() -> bool {
        true
    }

    open spec fn escape_seq(&self) -> Seq<u8> {
        truecolor_escape(52u8, self.r, self.g, self.b)
    }

    fn from_rgb(r: u8, g: u8, b: u8) -> Self {
        BackgroundRgb { r, g, b }
    }

    fn default_color() -> Self {
        BackgroundRgb { r: 0, g: 0, b: 0 }
    }

    fn is_background() -> bool {
        true
    }

    fn eq_color(&self, other: &Self) -> bool {
        *self == *other
    }

    fn write_escape(&self, out: &mut Vec<u8>) {
        push_truecolor_escape(out, 52, self.r, self.g, self.b);
    }
}

impl Colorize for Ansi256 {
    open spec fn spec_from_rgb(r: u8, g: u8, b: u8) -> Self {
        Ansi256 { index: ansi256_of(r, g, b) }
    }

    open spec fn spec_default() -> Self {
        Ansi256 { index: 0 }
    }

    open spec fn spec_is_background() -> bool {
        false
    }

    open spec fn escape_seq(&self) -> Seq<u8> {
        palette_escape(51u8, self.index)
    }

    fn from_rgb(r: u8, g: u8, b: u8) -> Self {
        Ansi256 { index: ansi256_from_rgb(r, g, b) }
    }

    fn default_color() -> Self {
        Ansi256 { index: 0 }
    }

    fn is_background() -> bool {
        false
    }

    fn eq_color(&self, other: &Self) -> bool {
        *self == *other
    }

    fn write_escape(&self, out: &mut Vec<u8>) {
        push_palette_escape(out, 51, self.index);
    }
}

impl Colorize for BackgroundAnsi256 {
    open spec fn spec_from_rgb(r: u8, g: u8, b: u8) -> Self {
        BackgroundAnsi256 { index: ansi256_of(r, g, b) }
    }

    open spec fn spec_default() -> Self {
        BackgroundAnsi256 { index: 0 }
    }

    open spec fn spec_is_background() -> bool {
        true
    }

    open spec fn escape_seq(&self) -> Seq<u8> {
        palette_escape(52u8, self.index)
    }

    fn from_rgb(r: u8, g: u8, b: u8) -> Self {
        BackgroundAnsi256 { index: ansi256_from_rgb(r, g, b) }
    }

    fn default_color() -> Self {
        BackgroundAnsi256 { index: 0 }
    }

    fn is_background() -> bool {
        true
    }

    fn eq_color(&self, other: &Self) -> bool {
        *self == *other
    }

    fn write_escape(&self, out: &mut Vec<u8>) {
        push_palette_escape(out, 52, self.index);
    }
}

} // verus!
