//! Derived display colors.
//!
//! Each derived color has one "moving" channel built by packing two adjacent
//! time digits into one byte (high nibble = earlier digit); the other two
//! channels are fixed per scheme, giving each color a distinct identity.
//! `subcharges` does not participate.

use vstd::prelude::*;

use crate::LightningTime;

verus! {

/// An RGB triple, one byte per channel.
#[derive(Clone, Copy, Debug, PartialEq, Eq, Structural)]
pub struct Rgb {
    pub red: u8,
    pub green: u8,
    pub blue: u8,
}

/// The two fixed channel values of one derived color: the channels not driven
/// by the time digits.
#[derive(Clone, Copy, Debug, PartialEq, Eq, Structural)]
pub struct LightningBaseColors(pub u8, pub u8);

/// A color scheme: one pair of fixed channels per derived color.
#[derive(Clone, Copy, Debug, PartialEq, Eq, Structural)]
pub struct LightningTimeColorConfig {
    pub bolt: LightningBaseColors,
    pub zap: LightningBaseColors,
    pub spark: LightningBaseColors,
}

impl Default for LightningTimeColorConfig {
    /// The documented default scheme.
    fn default() -> (r: Self)
        ensures
            r == (LightningTimeColorConfig {
                bolt: LightningBaseColors(161, 0),
                zap: LightningBaseColors(50, 214),
                spark: LightningBaseColors(246, 133),
            }),
    {
        LightningTimeColorConfig {
            bolt: LightningBaseColors(161, 0),
            zap: LightningBaseColors(50, 214),
            spark: LightningBaseColors(246, 133),
        }
    }
}

/// The three colors derived from a time under a scheme.
#[derive(Clone, Copy, Debug, PartialEq, Eq, Structural)]
pub struct LightningTimeColors {
    pub bolt: Rgb,
    pub zap: Rgb,
    pub spark: Rgb,
}

/// The colors a well-formed time yields under a scheme.
pub open spec fn spec_colors(t: LightningTime, config: LightningTimeColorConfig) -> LightningTimeColors {
    LightningTimeColors {
        bolt: Rgb {
            red: (t.bolts * 16 + t.zaps) as u8,
            green: config.bolt.0,
            blue: config.bolt.1,
        },
        zap: Rgb {
            red: config.zap.0,
            green: (t.zaps * 16 + t.sparks) as u8,
            blue: config.zap.1,
        },
        spark: Rgb {
            red: config.spark.0,
            green: config.spark.1,
            blue: (t.sparks * 16 + t.charges) as u8,
        },
    }
}

impl LightningTime {
    /// Derives the three display colors: each moving channel packs two
    /// adjacent digits into one byte, high nibble first.
    pub fn colors(&self, config: &LightningTimeColorConfig) -> (r: LightningTimeColors)
        requires
            self.wf(),
        ensures
            r == spec_colors(*self, *config),
    {
        LightningTimeColors {
            bolt: Rgb { red: self.bolts * 16 + self.zaps, green: config.bolt.0, blue: config.bolt.1 },
            zap: Rgb { red: config.zap.0, green: self.zaps * 16 + self.sparks, blue: config.zap.1 },
            spark: Rgb {
                red: config.spark.0,
                green: config.spark.1,
                blue: self.sparks * 16 + self.charges,
            },
        }
    }
}

} // verus!
