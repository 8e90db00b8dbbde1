//! Theme colours with an alpha channel, and how they are lightened,
//! darkened and shown on a terminal.
use vstd::prelude::*;
use crate::colorscheme::Rgb;

verus! {

/// A theme colour: red, green, blue and alpha.
#[derive(Debug, Clone, Copy, PartialEq, Eq, Structural)]
pub struct ThemeColor {
    pub r: u8,
    pub g: u8,
    pub b: u8,
    pub a: u8,
}

/// `x + y`, or 255 where that does not fit.
pub open spec fn sat_add(x: u8, y: u8) -> u8 {
    if x + y > 255 { 255 } else { (x + y) as u8 }
}

/// `x - y`, or 0 where that is negative.
pub open spec fn sat_sub(x: u8, y: u8) -> u8 {
    if x < y { 0 } else { (x - y) as u8 }
}

impl ThemeColor {
    /// The colour with `amount` added to each of red, green and blue,
    /// stopping at 255; alpha is kept.
    pub fn lighten(&self, amount: u8) -> (c: ThemeColor)
        ensures
            c == (ThemeColor {
                r: sat_add(self.r, amount),
                g: sat_add(self.g, amount),
                b: sat_add(self.b, amount),
                a: self.a,
            }),
    {
        ThemeColor {
            r: self.r.saturating_add(amount),
            g: self.g.saturating_add(amount),
            b: self.b.saturating_add(amount),
            a: self.a,
        }
    }

    /// The colour with `amount` taken from each of red, green and blue,
    /// stopping at 0; alpha is kept.
    pub fn darken(&self, amount: u8) -> (c: ThemeColor)
        ensures
            c == (ThemeColor {
                r: sat_sub(self.r, amount),
                g: sat_sub(self.g, amount),
                b: sat_sub(self.b, amount),
                a: self.a,
            }),
    {
        ThemeColor {
            r: self.r.saturating_sub(amount),
            g: self.g.saturating_sub(amount),
            b: self.b.saturating_sub(amount),
            a: self.a,
        }
    }

    /// The terminal colour: alpha is dropped.
    pub fn rgb(&self) -> (c: Rgb)
        ensures
            c == (Rgb { r: self.r, g: self.g, b: self.b }),
    {
        Rgb { r: self.r, g: self.g, b: self.b }
    }
}

} // verus!
