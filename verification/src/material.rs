//! Surface materials and the Phong lighting model.

use vstd::prelude::*;

verus! {

use crate::color::{cv, cv_add, cv_black, cv_hadamard, cv_scale, Color, ColorV};
use crate::fx::{fx_near, fx_pow, Scalar, SCALE};
use crate::matrix::m4v;
use crate::patternable::{spec_color_at_object, Patternable};
use crate::point::{pv, v4_dot, v4_normalize, v4_reflect, v4_scale, v4_sub, Point, V4};
use crate::point_light::PointLight;
use crate::shape::Shape;

#[derive(Debug)]
pub struct Material {
    pub ambient: Scalar,
    pub diffuse: Scalar,
    pub pattern: Patternable,
    pub reflective: Scalar,
    pub refractive_index: Scalar,
    pub shininess: u32,
    pub specular: Scalar,
    pub transparency: Scalar,
}

/// The default material: matte white plastic that neither reflects nor
/// transmits.
pub open spec fn is_default_material(m: Material) -> bool {
    &&& m.ambient@ == 100_000
    &&& m.diffuse@ == 900_000
    &&& m.reflective@ == 0
    &&& m.refractive_index@ == SCALE as int
    &&& m.shininess == 200u32
    &&& m.specular@ == 900_000
    &&& m.transparency@ == 0
    &&& m.pattern.wf()
    &&& m.pattern.patternable_type matches crate::patternable::PatternableType::Solid(c)
        && c.red@ == SCALE as int && c.green@ == SCALE as int && c.blue@ == SCALE as int
    &&& m4v(m.pattern.transform) =~= crate::matrix::identity_v()
}

/// The Phong model: ambient light always contributes; diffuse and
/// specular terms contribute only when their dot products are positive,
/// clamped to zero otherwise; in shadow only the ambient term remains.
pub open spec fn spec_lighting(
    m: Material,
    light: PointLight,
    position: V4,
    eye: V4,
    normal: V4,
    in_shadow: bool,
    object_transform: Seq<int>,
) -> ColorV {
    let effective = cv_hadamard(
        spec_color_at_object(m.pattern, object_transform, position),
        cv(light.intensity),
    );
    let ambient = cv_scale(effective, m.ambient@);
    if in_shadow {
        ambient
    } else {
        let lightv = v4_normalize(v4_sub(pv(light.position), position));
        let ldn = v4_dot(lightv, normal);
        let diffuse = if ldn >= 0 {
            cv_scale(cv_scale(effective, m.diffuse@), ldn)
        } else {
            cv_black()
        };
        let specular = if ldn >= 0 {
            let reflectv = v4_reflect(v4_scale(lightv, -(SCALE as int)), normal);
            let rde = v4_dot(reflectv, eye);
            if rde > 0 {
                cv_scale(cv_scale(cv(light.intensity), m.specular@), fx_pow(rde, m.shininess as nat))
            } else {
                cv_black()
            }
        } else {
            cv_black()
        };
        cv_add(cv_add(ambient, diffuse), specular)
    }
}

impl Material {
    pub open spec fn wf(&self) -> bool {
        self.pattern.wf()
    }

    pub fn new() -> (r: Material)
        ensures
            r.wf(),
            is_default_material(r),
    {
        Material {
            ambient: Scalar { v: 100_000 },
            diffuse: Scalar { v: 900_000 },
            pattern: Patternable::solid(Color::white()),
            reflective: Scalar { v: 0 },
            refractive_index: Scalar { v: SCALE },
            shininess: 200,
            specular: Scalar { v: 900_000 },
            transparency: Scalar { v: 0 },
        }
    }

    /// Equality of the scalar lighting parameters within tolerance.
    pub fn equal(&self, other: &Material) -> (r: bool)
        ensures
            r == (fx_near(self.ambient@, other.ambient@) && fx_near(self.diffuse@, other.diffuse@)
                && self.shininess == other.shininess && fx_near(
                self.specular@,
                other.specular@,
            )),
    {
        self.ambient.near(other.ambient) && self.diffuse.near(other.diffuse) && self.shininess
            == other.shininess && self.specular.near(other.specular)
    }

    /// Phong shading of one point on `object`.
    pub fn lighting(
        &self,
        light: &PointLight,
        position: &Point,
        eye: &Point,
        normal: &Point,
        in_shadow: bool,
        object: &Shape,
    ) -> (r: Color)
        requires
            self.wf(),
            object.wf(),
        ensures
            cv(r) == spec_lighting(
                *self,
                *light,
                pv(*position),
                pv(*eye),
                pv(*normal),
                in_shadow,
                m4v(object.transform),
            ),
    {
        let color = self.pattern.color_at_object(object, position);
        let effective_color = color.hadamard_product(&light.intensity);
        let ambient = effective_color.multiply_scalar(self.ambient);
        if in_shadow {
            return ambient;
        }
        let mut diffuse: Color = Color::black();
        let mut specular: Color = Color::black();
        let lightv = light.position.sub(position).normalize();
        let light_dot_normal = lightv.dot(normal);
        if light_dot_normal.ge(Scalar { v: 0 }) {
            diffuse = effective_color.multiply_scalar(self.diffuse).multiply_scalar(
                light_dot_normal,
            );
            let reflectv = lightv.multiply_scalar(Scalar { v: -SCALE }).reflect(normal);
            let reflect_dot_eye = reflectv.dot(eye);
            if reflect_dot_eye.gt(Scalar { v: 0 }) {
                let factor = reflect_dot_eye.pow(self.shininess);
                specular = light.intensity.multiply_scalar(self.specular).multiply_scalar(factor);
            }
        }
        ambient.add(&diffuse).add(&specular)
    }
}

} // verus!
