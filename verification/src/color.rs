//! Colors: three fixed-point channels. Channels are not clamped here;
//! additive lighting may push them past one unit, and only a consumer
//! quantizing for output clamps them.

use vstd::prelude::*;

verus! {

use crate::fx::{fx_add, fx_div, fx_mul, fx_near, fx_sub, Scalar, SCALE};

#[derive(Clone, Copy, Debug)]
pub struct Color {
    pub red: Scalar,
    pub green: Scalar,
    pub blue: Scalar,
}

/// Channelwise equality within the geometric tolerance: what `==` means
/// for colors throughout the kernel.
pub open spec fn spec_color_near(a: Color, b: Color) -> bool {
    fx_near(a.red@, b.red@) && fx_near(a.green@, b.green@) && fx_near(a.blue@, b.blue@)
}

/// The ghost view of a color: its three channels in millionths.
pub ghost struct ColorV {
    pub red: int,
    pub green: int,
    pub blue: int,
}

/// View of a color.
pub open spec fn cv(c: Color) -> ColorV {
    ColorV { red: c.red@, green: c.green@, blue: c.blue@ }
}

pub open spec fn cv_add(a: ColorV, b: ColorV) -> ColorV {
    ColorV {
        red: fx_add(a.red, b.red),
        green: fx_add(a.green, b.green),
        blue: fx_add(a.blue, b.blue),
    }
}

pub open spec fn cv_sub(a: ColorV, b: ColorV) -> ColorV {
    ColorV {
        red: fx_sub(a.red, b.red),
        green: fx_sub(a.green, b.green),
        blue: fx_sub(a.blue, b.blue),
    }
}

pub open spec fn cv_hadamard(a: ColorV, b: ColorV) -> ColorV {
    ColorV {
        red: fx_mul(a.red, b.red),
        green: fx_mul(a.green, b.green),
        blue: fx_mul(a.blue, b.blue),
    }
}

pub open spec fn cv_scale(a: ColorV, k: int) -> ColorV {
    ColorV { red: fx_mul(a.red, k), green: fx_mul(a.green, k), blue: fx_mul(a.blue, k) }
}

pub open spec fn cv_div(a: ColorV, k: int) -> ColorV {
    ColorV { red: fx_div(a.red, k), green: fx_div(a.green, k), blue: fx_div(a.blue, k) }
}

/// The black color's view: every channel zero.
pub open spec fn cv_black() -> ColorV {
    ColorV { red: 0, green: 0, blue: 0 }
}

impl PartialEq for Color {
    fn eq(&self, other: &Color) -> (r: bool) {
        self.red.near(other.red) && self.green.near(other.green) && self.blue.near(other.blue)
    }
}

impl vstd::std_specs::cmp::PartialEqSpecImpl for Color {
    open spec fn obeys_eq_spec() -> bool {
        true
    }

    open spec fn eq_spec(&self, other: &Color) -> bool {
        spec_color_near(*self, *other)
    }
}

impl Color {
    pub fn new(red: Scalar, green: Scalar, blue: Scalar) -> (r: Color)
        ensures
            r.red == red && r.green == green && r.blue == blue,
    {
        Color { red, green, blue }
    }

    pub fn white() -> (r: Color)
        ensures
            r.red@ == SCALE as int && r.green@ == SCALE as int && r.blue@ == SCALE as int,
    {
        Color { red: Scalar { v: SCALE }, green: Scalar { v: SCALE }, blue: Scalar { v: SCALE } }
    }

    pub fn black() -> (r: Color)
        ensures
            r.red@ == 0 && r.green@ == 0 && r.blue@ == 0,
    {
        Color { red: Scalar { v: 0 }, green: Scalar { v: 0 }, blue: Scalar { v: 0 } }
    }

    pub fn add(&self, other: &Color) -> (r: Color)
        ensures
            r.red@ == fx_add(self.red@, other.red@),
            r.green@ == fx_add(self.green@, other.green@),
            r.blue@ == fx_add(self.blue@, other.blue@),
    {
        Color {
            red: self.red.add(other.red),
            green: self.green.add(other.green),
            blue: self.blue.add(other.blue),
        }
    }

    pub fn sub(&self, other: &Color) -> (r: Color)
        ensures
            r.red@ == fx_sub(self.red@, other.red@),
            r.green@ == fx_sub(self.green@, other.green@),
            r.blue@ == fx_sub(self.blue@, other.blue@),
    {
        Color {
            red: self.red.sub(other.red),
            green: self.green.sub(other.green),
            blue: self.blue.sub(other.blue),
        }
    }

    /// Channelwise product, used to filter a light's intensity through a
    /// surface color.
    pub fn hadamard_product(&self, other: &Color) -> (r: Color)
        ensures
            r.red@ == fx_mul(self.red@, other.red@),
            r.green@ == fx_mul(self.green@, other.green@),
            r.blue@ == fx_mul(self.blue@, other.blue@),
    {
        Color {
            red: self.red.mul(other.red),
            green: self.green.mul(other.green),
            blue: self.blue.mul(other.blue),
        }
    }

    pub fn multiply_scalar(&self, factor: Scalar) -> (r: Color)
        ensures
            r.red@ == fx_mul(self.red@, factor@),
            r.green@ == fx_mul(self.green@, factor@),
            r.blue@ == fx_mul(self.blue@, factor@),
    {
        Color {
            red: self.red.mul(factor),
            green: self.green.mul(factor),
            blue: self.blue.mul(factor),
        }
    }

    pub fn divide(&self, factor: Scalar) -> (r: Color)
        ensures
            r.red@ == fx_div(self.red@, factor@),
            r.green@ == fx_div(self.green@, factor@),
            r.blue@ == fx_div(self.blue@, factor@),
    {
        Color {
            red: self.red.div(factor),
            green: self.green.div(factor),
            blue: self.blue.div(factor),
        }
    }
}

} // verus!
