//! Red/green/blue color values with componentwise arithmetic.
//!
//! Channels are unclamped fixed-point scalars; clamping to a displayable
//! range belongs to the pixel sink, not to this kernel.

use vstd::prelude::*;
use crate::scalar::{Scalar, s_add, s_sub, s_mul, s_approx};

verus! {

/// The mathematical value of a color: three fixed-point channels.
pub struct ColorModel {
    pub red: int,
    pub green: int,
    pub blue: int,
}

/// Componentwise sum.
pub open spec fn col_add(a: ColorModel, b: ColorModel) -> ColorModel {
    ColorModel { red: s_add(a.red, b.red), green: s_add(a.green, b.green), blue: s_add(a.blue, b.blue) }
}

/// Componentwise difference.
pub open spec fn col_sub(a: ColorModel, b: ColorModel) -> ColorModel {
    ColorModel { red: s_sub(a.red, b.red), green: s_sub(a.green, b.green), blue: s_sub(a.blue, b.blue) }
}

/// Componentwise (Hadamard) product.
pub open spec fn col_mul(a: ColorModel, b: ColorModel) -> ColorModel {
    ColorModel { red: s_mul(a.red, b.red), green: s_mul(a.green, b.green), blue: s_mul(a.blue, b.blue) }
}

/// Scaling of every channel by one scalar.
pub open spec fn col_scale(a: ColorModel, k: int) -> ColorModel {
    ColorModel { red: s_mul(a.red, k), green: s_mul(a.green, k), blue: s_mul(a.blue, k) }
}

/// Componentwise approximate equality.
pub open spec fn col_approx(a: ColorModel, b: ColorModel) -> bool {
    s_approx(a.red, b.red) && s_approx(a.green, b.green) && s_approx(a.blue, b.blue)
}

/// An unclamped red/green/blue color.
#[derive(Clone, Copy, PartialEq, Eq, Structural, Debug)]
pub struct Color {
    pub red: Scalar,
    pub green: Scalar,
    pub blue: Scalar,
}

impl View for Color {
    type V = ColorModel;

    open spec fn view(&self) -> ColorModel {
        ColorModel { red: self.red@, green: self.green@, blue: self.blue@ }
    }
}

impl Color {
    /// A color from its three channels.
    pub fn new(red: Scalar, green: Scalar, blue: Scalar) -> (r: Color)
        ensures
            r@ == (ColorModel { red: red@, green: green@, blue: blue@ }),
    {
        Color { red, green, blue }
    }

    /// Black: all channels zero.
    pub fn black() -> (r: Color)
        ensures
            r@ == (ColorModel { red: 0, green: 0, blue: 0 }),
    {
        Color { red: Scalar::zero(), green: Scalar::zero(), blue: Scalar::zero() }
    }

    /// The red channel.
    pub fn red(&self) -> (r: Scalar)
        ensures
            r@ == self@.red,
    {
        self.red
    }

    /// The green channel.
    pub fn green(&self) -> (r: Scalar)
        ensures
            r@ == self@.green,
    {
        self.green
    }

    /// The blue channel.
    pub fn blue(&self) -> (r: Scalar)
        ensures
            r@ == self@.blue,
    {
        self.blue
    }

    /// Componentwise sum.
    pub fn add(self, rhs: Color) -> (r: Color)
        ensures
            r@ == col_add(self@, rhs@),
    {
        Color {
            red: self.red.add(rhs.red),
            green: self.green.add(rhs.green),
            blue: self.blue.add(rhs.blue),
        }
    }

    /// Componentwise difference.
    pub fn sub(self, rhs: Color) -> (r: Color)
        ensures
            r@ == col_sub(self@, rhs@),
    {
        Color {
            red: self.red.sub(rhs.red),
            green: self.green.sub(rhs.green),
            blue: self.blue.sub(rhs.blue),
        }
    }

    /// Componentwise (Hadamard) product.
    pub fn mul(self, rhs: Color) -> (r: Color)
        ensures
            r@ == col_mul(self@, rhs@),
    {
        Color {
            red: self.red.mul(rhs.red),
            green: self.green.mul(rhs.green),
            blue: self.blue.mul(rhs.blue),
        }
    }

    /// Scaling of every channel by one scalar.
    pub fn scale(self, k: Scalar) -> (r: Color)
        ensures
            r@ == col_scale(self@, k@),
    {
        Color { red: self.red.mul(k), green: self.green.mul(k), blue: self.blue.mul(k) }
    }

    /// Componentwise approximate equality.
    pub fn approx_eq(&self, other: &Color) -> (r: bool)
        ensures
            r == col_approx(self@, other@),
    {
        self.red.approx_eq(other.red) && self.green.approx_eq(other.green)
            && self.blue.approx_eq(other.blue)
    }
}

} // verus!
