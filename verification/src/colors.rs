//! The terminal colors the prompt renders with.

use vstd::prelude::*;

verus! {

/// A terminal color: the ANSI codes for foreground and background use, the
/// bright variants of both, and the color's name.
#[derive(Clone, Copy)]
pub struct Color {
    pub fg: u8,
    pub bg: u8,
    pub fgb: u8,
    pub bgb: u8,
    pub name: &'static str,
}

pub open spec fn spec_black() -> Color {
    Color { fg: 30, bg: 40, fgb: 90, bgb: 100, name: "black" }
}

#[verifier::when_used_as_spec(spec_black)]
pub fn black() -> (c: Color)
    ensures
        c == spec_black(),
{
    Color { fg: 30, bg: 40, fgb: 90, bgb: 100, name: "black" }
}

pub open spec fn spec_red() -> Color {
    Color { fg: 31, bg: 41, fgb: 91, bgb: 101, name: "red" }
}

#[verifier::when_used_as_spec(spec_red)]
pub fn red() -> (c: Color)
    ensures
        c == spec_red(),
{
    Color { fg: 31, bg: 41, fgb: 91, bgb: 101, name: "red" }
}

pub open spec fn spec_green() -> Color {
    Color { fg: 32, bg: 42, fgb: 92, bgb: 102, name: "green" }
}

#[verifier::when_used_as_spec(spec_green)]
pub fn green() -> (c: Color)
    ensures
        c == spec_green(),
{
    Color { fg: 32, bg: 42, fgb: 92, bgb: 102, name: "green" }
}

pub open spec fn spec_yellow() -> Color {
    Color { fg: 33, bg: 43, fgb: 93, bgb: 103, name: "yellow" }
}

#[verifier::when_used_as_spec(spec_yellow)]
pub fn yellow() -> (c: Color)
    ensures
        c == spec_yellow(),
{
    Color { fg: 33, bg: 43, fgb: 93, bgb: 103, name: "yellow" }
}

pub open spec fn spec_blue() -> Color {
    Color { fg: 34, bg: 44, fgb: 94, bgb: 104, name: "blue" }
}

#[verifier::when_used_as_spec(spec_blue)]
pub fn blue() -> (c: Color)
    ensures
        c == spec_blue(),
{
    Color { fg: 34, bg: 44, fgb: 94, bgb: 104, name: "blue" }
}

pub open spec fn spec_default_color() -> Color {
    Color { fg: 39, bg: 49, fgb: 99, bgb: 109, name: "" }
}

#[verifier::when_used_as_spec(spec_default_color)]
pub fn default_color() -> (c: Color)
    ensures
        c == spec_default_color(),
{
    Color { fg: 39, bg: 49, fgb: 99, bgb: 109, name: "" }
}

} // verus!
