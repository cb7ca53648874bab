//! Phong-style materials and the point-light shading computation.

use vstd::prelude::*;
use crate::color::{Color, ColorModel, col_add, col_mul, col_scale};
use crate::light::{LightModel, PointLight};
use crate::scalar::{Scalar, SCALE, div_near, lemma_div_near_sign, s_pow};
use crate::tuple::{
    Tuple, TupleModel, tup_dot, tup_neg, tup_normalize, tup_reflect, tup_sq_mag, tup_sub,
};

verus! {

/// The mathematical value of a material.
pub struct MaterialModel {
    pub color: ColorModel,
    pub ambient: int,
    pub diffuse: int,
    pub specular: int,
    pub shininess: int,
}

/// The specular exponent drawn from the shininess: the nearest whole number,
/// and zero for a shininess that is not positive.
pub open spec fn shininess_exp(shininess: int) -> nat {
    if shininess <= 0 {
        0
    } else {
        div_near(shininess, SCALE as int) as nat
    }
}

/// The lit color at a surface point: the ambient, diffuse and specular terms
/// of the Phong model, summed.
///
/// The light vector points from the surface to the light. A surface facing
/// away from the light (negative light-normal product) keeps only the
/// ambient term; an eye away from the reflection keeps ambient and diffuse.
pub open spec fn lighting_spec(
    m: MaterialModel,
    light: LightModel,
    position: TupleModel,
    eyev: TupleModel,
    normalv: TupleModel,
) -> ColorModel
    recommends
        tup_sq_mag(tup_sub(light.position, position)) != 0,
{
    let effective = col_mul(m.color, light.intensity);
    let lightv = tup_normalize(tup_sub(light.position, position));
    let ambient = col_scale(effective, m.ambient);
    let ldn = tup_dot(lightv, normalv);
    let black = ColorModel { red: 0, green: 0, blue: 0 };
    let diffuse = if ldn >= 0 {
        col_scale(col_scale(effective, m.diffuse), ldn)
    } else {
        black
    };
    let specular = if ldn >= 0 {
        let reflectv = tup_neg(tup_reflect(lightv, normalv));
        let rde = tup_dot(eyev, reflectv);
        if rde > 0 {
            col_scale(col_scale(light.intensity, m.specular), s_pow(rde, shininess_exp(m.shininess)))
        } else {
            black
        }
    } else {
        black
    };
    col_add(col_add(ambient, diffuse), specular)
}

/// A Phong-style material: a base color and four reflection parameters.
#[derive(Clone, Copy, PartialEq, Eq, Structural, Debug)]
pub struct Material {
    pub color: Color,
    pub ambient: Scalar,
    pub diffuse: Scalar,
    pub specular: Scalar,
    pub shininess: Scalar,
}

impl View for Material {
    type V = MaterialModel;

    open spec fn view(&self) -> MaterialModel {
        MaterialModel {
            color: self.color@,
            ambient: self.ambient@,
            diffuse: self.diffuse@,
            specular: self.specular@,
            shininess: self.shininess@,
        }
    }
}

/// The default material: white, ambient 0.1, diffuse 0.9, specular 0.9,
/// shininess 200.
pub open spec fn material_default() -> MaterialModel {
    MaterialModel {
        color: ColorModel { red: SCALE as int, green: SCALE as int, blue: SCALE as int },
        ambient: 100_000,
        diffuse: 900_000,
        specular: 900_000,
        shininess: 200_000_000,
    }
}

impl Material {
    /// The default material.
    pub fn new() -> (r: Material)
        ensures
            r@ == material_default(),
    {
        let one = Scalar::one();
        Material {
            color: Color::new(one, one, one),
            ambient: Scalar::from_millionths(100_000),
            diffuse: Scalar::from_millionths(900_000),
            specular: Scalar::from_millionths(900_000),
            shininess: Scalar::from_millionths(200_000_000),
        }
    }

    /// The lit color at a surface point, given the light, the eye vector and
    /// the surface normal. The light may not sit exactly on the surface
    /// point, since the direction towards it would then vanish.
    pub fn lighting(
        &self,
        light: &PointLight,
        position: &Tuple,
        eyev: &Tuple,
        normalv: &Tuple,
    ) -> (r: Color)
        requires
            tup_sq_mag(tup_sub(light@.position, position@)) != 0,
        ensures
            r@ == lighting_spec(self@, light@, position@, eyev@, normalv@),
    {
        let effective_color = self.color.mul(*light.intensity());
        let lightv = light.position().sub(*position).normalize();
        let ambient = effective_color.scale(self.ambient);
        let light_dot_normal = lightv.dot(normalv);
        let mut diffuse = Color::black();
        let mut specular = Color::black();
        if light_dot_normal.millionths() >= 0 {
            diffuse = effective_color.scale(self.diffuse).scale(light_dot_normal);
            let reflectv = lightv.reflect(*normalv).neg();
            let reflect_dot_eye = eyev.dot(&reflectv);
            if reflect_dot_eye.millionths() > 0 {
                let exponent: u64 = if self.shininess.millionths() <= 0 {
                    0
                } else {
                    proof {
                        lemma_div_near_sign(self.shininess@, SCALE as int);
                    }
                    self.shininess.round_units() as u64
                };
                let factor = reflect_dot_eye.powi(exponent);
                specular = light.intensity().scale(self.specular).scale(factor);
            }
        }
        ambient.add(diffuse).add(specular)
    }
}

} // verus!
