//! A point light: a position and an intensity color.

use vstd::prelude::*;

verus! {

use crate::color::Color;
use crate::point::Point;

#[derive(Clone, Copy, Debug)]
pub struct PointLight {
    pub intensity: Color,
    pub position: Point,
}

} // verus!
