//! The color type shared by the compositing operations: an RGBA value with
//! un-premultiplied alpha whose channels are always clamped to the unit
//! range.

use crate::fixed::{Fixed, SCALE};
use vstd::prelude::*;

verus! {

/// A raw channel part clamped into the unit range `[0, 1]`: values above
/// clamp down to one, values below clamp up to zero.
pub open spec fn clamp_unit(v: int) -> int {
    if v < 0 {
        0
    } else if v > SCALE {
        SCALE as int
    } else {
        v
    }
}

/// The four channels of an `Rgba`, as raw fixed-point parts.
pub ghost struct RgbaView {
    pub red: int,
    pub green: int,
    pub blue: int,
    pub alpha: int,
}

/// An RGBA color with un-premultiplied alpha.
///
/// Every channel is clamped into the unit range `[0, 1]` on every
/// construction path and stays there after any operation.
#[derive(Clone, Copy, Debug, PartialEq, Eq, Structural)]
pub struct Rgba {
    red: Fixed,
    green: Fixed,
    blue: Fixed,
    alpha: Fixed,
}

impl View for Rgba {
    type V = RgbaView;

    closed spec fn view(&self) -> RgbaView {
        RgbaView { red: self.red@, green: self.green@, blue: self.blue@, alpha: self.alpha@ }
    }
}

/// One channel clamped into the unit range.
fn clamp_channel(v: Fixed) -> (r: Fixed)
    ensures
        r@ == clamp_unit(v@),
{
    let raw = v.raw();
    if raw < 0 {
        Fixed::from_raw(0)
    } else if raw > 65536 {
        Fixed::from_raw(65536)
    } else {
        v
    }
}

impl Rgba {
    #[verifier::type_invariant]
    spec fn channels_clamped(self) -> bool {
        &&& 0 <= self.red@ <= SCALE
        &&& 0 <= self.green@ <= SCALE
        &&& 0 <= self.blue@ <= SCALE
        &&& 0 <= self.alpha@ <= SCALE
    }

    /// The color with the given channels, each clamped into the unit
    /// range.  This normalization runs on every construction path.
    pub fn new(red: Fixed, green: Fixed, blue: Fixed, alpha: Fixed) -> (c: Rgba)
        ensures
            c@.red == clamp_unit(red@),
            c@.green == clamp_unit(green@),
            c@.blue == clamp_unit(blue@),
            c@.alpha == clamp_unit(alpha@),
    {
        Rgba {
            red: clamp_channel(red),
            green: clamp_channel(green),
            blue: clamp_channel(blue),
            alpha: clamp_channel(alpha),
        }
    }

    /// The color with the given raw channel parts, which the caller has
    /// already shown to lie within the unit range.
    pub(crate) fn from_unit_raw(red: i64, green: i64, blue: i64, alpha: i64) -> (c: Rgba)
        requires
            0 <= red <= SCALE,
            0 <= green <= SCALE,
            0 <= blue <= SCALE,
            0 <= alpha <= SCALE,
        ensures
            c@.red == red as int,
            c@.green == green as int,
            c@.blue == blue as int,
            c@.alpha == alpha as int,
    {
        Rgba {
            red: Fixed::from_raw(red),
            green: Fixed::from_raw(green),
            blue: Fixed::from_raw(blue),
            alpha: Fixed::from_raw(alpha),
        }
    }

    /// The red channel; always within the unit range.
    pub fn red(&self) -> (r: Fixed)
        ensures
            r@ == self@.red,
            0 <= r@ <= SCALE,
    {
        proof {
            use_type_invariant(self);
        }
        self.red
    }

    /// The green channel; always within the unit range.
    pub fn green(&self) -> (r: Fixed)
        ensures
            r@ == self@.green,
            0 <= r@ <= SCALE,
    {
        proof {
            use_type_invariant(self);
        }
        self.green
    }

    /// The blue channel; always within the unit range.
    pub fn blue(&self) -> (r: Fixed)
        ensures
            r@ == self@.blue,
            0 <= r@ <= SCALE,
    {
        proof {
            use_type_invariant(self);
        }
        self.blue
    }

    /// The alpha channel; always within the unit range.
    pub fn alpha(&self) -> (r: Fixed)
        ensures
            r@ == self@.alpha,
            0 <= r@ <= SCALE,
    {
        proof {
            use_type_invariant(self);
        }
        self.alpha
    }

    /// Each channel as an 8-bit value: multiplied by 255 and truncated,
    /// not rounded.
    pub fn to_int(&self) -> (r: (u8, u8, u8, u8))
        ensures
            r.0 as int == self@.red * 255 / (SCALE as int),
            r.1 as int == self@.green * 255 / (SCALE as int),
            r.2 as int == self@.blue * 255 / (SCALE as int),
            r.3 as int == self@.alpha * 255 / (SCALE as int),
    {
        proof {
            use_type_invariant(self);
        }
        (
            ((self.red.raw() as u64 * 255) / 65536) as u8,
            ((self.green.raw() as u64 * 255) / 65536) as u8,
            ((self.blue.raw() as u64 * 255) / 65536) as u8,
            ((self.alpha.raw() as u64 * 255) / 65536) as u8,
        )
    }
}

} // verus!
