//! Mirror reflection and refraction of directions.

use crate::scalar::abs_of;
use crate::scalar::faithful;
use crate::scalar::from_i32_of;
use crate::scalar::min;
use crate::scalar::spec_min;
use crate::scalar::total;
use crate::scalar::Scalar;
use crate::vec3::sqrt_of;
use crate::vec3::Sqrt;
use crate::vec3::Vec3;
use std::ops::Neg;
use vstd::prelude::*;
use vstd::std_specs::ops::MulSpec;
use vstd::std_specs::ops::NegSpec;
use vstd::std_specs::ops::SubSpec;

verus! {

/// `v` mirrored at the plane whose normal is `n`: `v - n * (2 * (v . n))`.
pub open spec fn spec_reflect<T: Scalar>(v: Vec3<T>, n: Vec3<T>) -> Vec3<T> {
    v.spec_minus(n.spec_scaled(v.spec_dot(n).mul_spec(from_i32_of::<T>(2))))
}

pub fn reflect<T: Scalar>(v: Vec3<T>, n: Vec3<T>) -> (r: Vec3<T>)
    requires
        total::<T>(),
    ensures
        faithful::<T>() ==> r == spec_reflect(v, n),
{
    v - n * (v.dot(n) * T::from_i32(2))
}

/// The part of the refracted direction that lies across the normal.
pub open spec fn spec_refract_perpendicular<T: Scalar>(
    uv: Vec3<T>,
    n: Vec3<T>,
    etai_over_etat: T,
) -> Vec3<T> {
    let cos_theta = spec_min(from_i32_of::<T>(1), uv.spec_dot(n).neg_spec());
    uv.spec_plus(n.spec_scaled(cos_theta)).spec_scaled(etai_over_etat)
}

/// The unit direction `uv` bent on entering a medium, by Snell's law:
/// the part across the normal `n` scaled by the ratio of the refractive
/// indices, and along `n` what is left of the unit length.
pub open spec fn spec_refract<T: Scalar>(uv: Vec3<T>, n: Vec3<T>, etai_over_etat: T) -> Vec3<T> {
    let perpendicular = spec_refract_perpendicular(uv, n, etai_over_etat);
    let parallel = n.spec_scaled(
        sqrt_of(
            abs_of(from_i32_of::<T>(1).sub_spec(perpendicular.spec_length_squared())),
        ).neg_spec(),
    );
    parallel.spec_plus(perpendicular)
}

pub fn refract<T: Scalar>(uv: Vec3<T>, n: Vec3<T>, etai_over_etat: T) -> (r: Vec3<T>)
    requires
        total::<T>(),
    ensures
        faithful::<T>() ==> r == spec_refract(uv, n, etai_over_etat),
{
    let cos_theta = min(T::from_i32(1), uv.dot(n).neg());
    let r_out_perpendicular = (uv + n * cos_theta) * etai_over_etat;
    let r_out_parallel = n * (T::from_i32(1) - r_out_perpendicular.length_squared()).abs().sqrt().neg();
    r_out_parallel + r_out_perpendicular
}

} // verus!
