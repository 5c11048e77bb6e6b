//! Colors as fixed-point RGB triples.

use vstd::prelude::*;
use crate::fixed::Fx;

verus! {

/// A color, one fixed-point channel each for red, green and blue; `1.0` per
/// channel is full intensity.
#[derive(Clone, Copy, Debug, PartialEq, Eq, Structural)]
pub struct Color {
    pub red: Fx,
    pub green: Fx,
    pub blue: Fx,
}

impl Color {
    /// The color with the given channels.
    pub fn new(red: Fx, green: Fx, blue: Fx) -> (c: Color)
        ensures
            c == (Color { red, green, blue }),
    {
        Color { red, green, blue }
    }

    /// Pure black.
    pub fn black() -> (c: Color)
        ensures
            c == Color::black_v(),
    {
        Color { red: Fx { raw: 0 }, green: Fx { raw: 0 }, blue: Fx { raw: 0 } }
    }

    /// What `black` returns.
    pub open spec fn black_v() -> Color {
        Color { red: Fx { raw: 0 }, green: Fx { raw: 0 }, blue: Fx { raw: 0 } }
    }

    /// Opaque white: full intensity on every channel.
    pub open spec fn white_v() -> Color {
        Color {
            red: crate::fixed::fx_one(),
            green: crate::fixed::fx_one(),
            blue: crate::fixed::fx_one(),
        }
    }

    /// What `add` returns.
    pub open spec fn add_v(self, o: Color) -> Color {
        Color {
            red: self.red.add_v(o.red),
            green: self.green.add_v(o.green),
            blue: self.blue.add_v(o.blue),
        }
    }

    /// Channel-wise sum.
    pub fn add(self, o: Color) -> (c: Color)
        ensures
            c == self.add_v(o),
    {
        Color {
            red: self.red.add(o.red),
            green: self.green.add(o.green),
            blue: self.blue.add(o.blue),
        }
    }

    /// What `mul` returns.
    pub open spec fn mul_v(self, o: Color) -> Color {
        Color {
            red: self.red.mul_v(o.red),
            green: self.green.mul_v(o.green),
            blue: self.blue.mul_v(o.blue),
        }
    }

    /// Channel-wise product: attenuation applied to a radiance estimate.
    pub fn mul(self, o: Color) -> (c: Color)
        ensures
            c == self.mul_v(o),
    {
        Color {
            red: self.red.mul(o.red),
            green: self.green.mul(o.green),
            blue: self.blue.mul(o.blue),
        }
    }
}

} // verus!
