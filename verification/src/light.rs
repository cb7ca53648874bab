//! An isotropic point light source.

use vstd::prelude::*;
use crate::color::{Color, ColorModel};
use crate::tuple::{Tuple, TupleModel};

verus! {

/// The mathematical value of a point light.
pub struct LightModel {
    pub intensity: ColorModel,
    pub position: TupleModel,
}

/// A point light: a color intensity radiating from one position.
#[derive(Clone, Copy, PartialEq, Eq, Structural, Debug)]
pub struct PointLight {
    pub intensity: Color,
    pub position: Tuple,
}

impl View for PointLight {
    type V = LightModel;

    open spec fn view(&self) -> LightModel {
        LightModel { intensity: self.intensity@, position: self.position@ }
    }
}

impl PointLight {
    /// A light of the given intensity at the given position (a point).
    pub fn new(intensity: Color, position: Tuple) -> (r: PointLight)
        ensures
            r@ == (LightModel { intensity: intensity@, position: position@ }),
    {
        PointLight { intensity, position }
    }

    /// The color intensity.
    pub fn intensity(&self) -> (r: &Color)
        ensures
            r@ == self@.intensity,
    {
        &self.intensity
    }

    /// The position.
    pub fn position(&self) -> (r: &Tuple)
        ensures
            r@ == self@.position,
    {
        &self.position
    }
}

} // verus!
