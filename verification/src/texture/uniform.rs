//! The texture that has one colour everywhere.
use vstd::prelude::*;
use crate::float::Float;
use crate::texture::Texture;
use crate::vector::{Components, Vec3};

verus! {

/// One colour, whatever the coordinates.
pub struct UniformTexture<T: Float> {
    color: Vec3<T>,
}

impl<T: Float> UniformTexture<T> {
    /// The colour, as a specification.
    pub closed spec fn color(&self) -> Seq<T> {
        self.color@
    }

    pub fn new(color: Vec3<T>) -> (r: Self)
        ensures
            r.color() == color@,
    {
        UniformTexture { color }
    }
}

impl<T: Float> Texture<T> for UniformTexture<T> {
    open spec fn color_spec(&self, u: T, v: T, point: Components<T>) -> Components<T> {
        self.color()
    }

    fn get_color(&self, _u: T, _v: T, _point: &Vec3<T>) -> (r: Vec3<T>) {
        self.color.copy()
    }
}

} // verus!
