//! Lightning Time: a base-16, fractal clock.
//!
//! A moment of the day is a 20-bit fixed-point fraction of one calendar day,
//! read as five hexadecimal digits named, from most to least significant,
//! `bolts`, `zaps`, `sparks`, `charges` and `subcharges`. The crate converts
//! between this representation and ordinary time of day, encodes it as a short
//! separator-delimited hex string, and derives three display colors from it.

use vstd::prelude::*;

pub mod clock;
pub mod color;
pub mod text;

pub use clock::TimeOfDay;
pub use color::{LightningBaseColors, LightningTimeColorConfig, LightningTimeColors, Rgb};

verus! {

/// A moment of the day as five base-16 digits, most significant first.
///
/// Together the digits encode a 20-bit fraction of one calendar day: `bolts`
/// is the most significant hex digit and `subcharges` the least. Each field is
/// meant to hold a nibble, a value in `0..=15`; see [`LightningTime::wf`].
#[derive(Clone, Copy, Debug, PartialEq, Eq, Structural)]
pub struct LightningTime {
    pub bolts: u8,
    pub zaps: u8,
    pub sparks: u8,
    pub charges: u8,
    pub subcharges: u8,
}

impl LightningTime {
    /// Well-formed: every digit is a nibble, so the encoded value lies in
    /// `[0, 16^5)`.
    pub open spec fn wf(self) -> bool {
        self.bolts <= 15 && self.zaps <= 15 && self.sparks <= 15 && self.charges <= 15
            && self.subcharges <= 15
    }

    /// Builds a time from the four most significant digits; `subcharges` is
    /// zero.
    pub fn new(bolts: u8, zaps: u8, sparks: u8, charges: u8) -> (r: Self)
        ensures
            r == (LightningTime { bolts, zaps, sparks, charges, subcharges: 0 }),
    {
        LightningTime { bolts, zaps, sparks, charges, subcharges: 0 }
    }
}

impl Default for LightningTime {
    /// Midnight: all five digits zero.
    fn default() -> (r: Self)
        ensures
            r == (LightningTime { bolts: 0, zaps: 0, sparks: 0, charges: 0, subcharges: 0 }),
    {
        LightningTime { bolts: 0, zaps: 0, sparks: 0, charges: 0, subcharges: 0 }
    }
}

/// The one error of the crate: text that does not match the parse grammar, or
/// a reconstructed time of day outside the valid daily range.
#[derive(Clone, Copy, Debug, PartialEq, Eq, Structural)]
pub enum Error {
    InvalidConversion,
}

} // verus!
