//! Cameras: where a ray through a point of the image starts and where it goes.
use vstd::prelude::*;
use crate::float::Float;
use crate::ray::{Ray, RayModel};
use crate::vector::Vec3;

pub mod perspective;

verus! {

/// What the orientation of a camera is locked to.
#[derive(Clone, Copy, Debug, PartialEq, Eq, Structural)]
pub enum CameraLock {
    /// The camera looks along its direction.
    Direction,
    /// The camera looks at a point.
    LookAt,
}

/// The parameters that a camera is set up with.
pub struct CameraModel<T> {
    pub position: Seq<T>,
    pub direction: Seq<T>,
    pub lookat: Seq<T>,
    pub up: Seq<T>,
    pub aperture: T,
    pub focus: T,
    pub aspect: T,
    pub fov: T,
}

/// A camera. Every setter changes the parameter it names and no other.
pub trait Camera<T: Float> {
    /// The parameters of the camera.
    spec fn parameters(&self) -> CameraModel<T>;

    /// The ray through the image coordinates `r` and `s`, both between -1 and 1,
    /// that leaves the lens at the point `lens` of the unit disc.
    spec fn ray_spec(&self, r: T, s: T, lens: Seq<T>) -> RayModel<T>;

    fn get_position(&self) -> (r: &Vec3<T>)
        ensures
            r@ == self.parameters().position,
    ;

    fn set_position(&mut self, position: &[T])
        requires
            position@.len() >= 3,
        ensures
            final(self).parameters() == (CameraModel {
                position: position@.subrange(0, 3),
                ..old(self).parameters()
            }),
    ;

    fn get_direction(&self) -> (r: &Vec3<T>)
        ensures
            r@ == self.parameters().direction,
    ;

    fn set_direction(&mut self, direction: &[T])
        requires
            direction@.len() >= 3,
        ensures
            final(self).parameters() == (CameraModel {
                direction: direction@.subrange(0, 3),
                ..old(self).parameters()
            }),
    ;

    fn get_lookat(&self) -> (r: &Vec3<T>)
        ensures
            r@ == self.parameters().lookat,
    ;

    fn set_lookat(&mut self, lookat: &[T])
        requires
            lookat@.len() >= 3,
        ensures
            final(self).parameters() == (CameraModel {
                lookat: lookat@.subrange(0, 3),
                ..old(self).parameters()
            }),
    ;

    fn get_up(&self) -> (r: &Vec3<T>)
        ensures
            r@ == self.parameters().up,
    ;

    fn set_up(&mut self, up: &[T])
        requires
            up@.len() >= 3,
        ensures
            final(self).parameters() == (CameraModel {
                up: up@.subrange(0, 3),
                ..old(self).parameters()
            }),
    ;

    fn get_aperture(&self) -> (r: T)
        ensures
            r == self.parameters().aperture,
    ;

    fn set_aperture(&mut self, aperture: T)
        ensures
            final(self).parameters() == (CameraModel { aperture, ..old(self).parameters() }),
    ;

    fn get_focus(&self) -> (r: T)
        ensures
            r == self.parameters().focus,
    ;

    fn set_focus(&mut self, focus: T)
        ensures
            final(self).parameters() == (CameraModel { focus, ..old(self).parameters() }),
    ;

    fn get_aspect(&self) -> (r: T)
        ensures
            r == self.parameters().aspect,
    ;

    fn set_aspect(&mut self, aspect: T)
        ensures
            final(self).parameters() == (CameraModel { aspect, ..old(self).parameters() }),
    ;

    fn get_fov(&self) -> (r: T)
        ensures
            r == self.parameters().fov,
    ;

    fn set_fov(&mut self, fov: T)
        ensures
            final(self).parameters() == (CameraModel { fov, ..old(self).parameters() }),
    ;

    /// The ray through the image coordinates `r` and `s` that leaves the lens at the
    /// point `lens` of the unit disc. The caller draws `lens`; a camera without
    /// aperture ignores it.
    fn get_ray(&self, r: T, s: T, lens: &Vec3<T>) -> (ray: Ray<T>)
        ensures
            ray@ == self.ray_spec(r, s, lens@),
    ;
}

} // verus!
