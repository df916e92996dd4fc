//! The perspective camera with a thin lens.
use vstd::prelude::*;
use crate::camera::{Camera, CameraLock, CameraModel};
use crate::float::{half, half_spec, Float};
use crate::ray::{Ray, RayModel};
use crate::vector::{cross_spec, lemma_vec3_len, minus, normalized, plus, scaled, Vec3};

verus! {

/// Everything a perspective camera keeps: its parameters, what its orientation is
/// locked to, and what `update` derives from them.
pub struct PerspectiveModel<T> {
    pub position: Seq<T>,
    pub direction: Seq<T>,
    pub lookat: Seq<T>,
    pub center: Seq<T>,
    pub up: Seq<T>,
    pub u: Seq<T>,
    pub v: Seq<T>,
    pub w: Seq<T>,
    pub aspect: T,
    pub fov: T,
    pub half_height: T,
    pub half_width: T,
    pub aperture: T,
    pub focus: T,
    pub lock: CameraLock,
}

/// The direction in which the camera looks: its direction, or the way from its
/// position to the point it looks at.
pub open spec fn line_of_sight<T: Float>(m: PerspectiveModel<T>) -> Seq<T> {
    match m.lock {
        CameraLock::Direction => scaled(m.direction, T::one_spec()),
        CameraLock::LookAt => minus(m.lookat, m.position),
    }
}

/// The camera with everything derived anew from its parameters.
///
/// `w` is the normalized line of sight, `u` the normalized cross product of `w` and
/// the up vector, `v` the normalized cross product of `w` and `u`. The centre of the
/// image lies `focus` along `w` from the position. Half the height of the image is
/// `tan(fov / 2) * focus`, half its width is the aspect ratio times that.
pub open spec fn updated<T: Float>(m: PerspectiveModel<T>) -> PerspectiveModel<T> {
    let w = normalized(line_of_sight(m));
    let u = normalized(cross_spec(w, m.up));
    let v = normalized(cross_spec(w, u));
    let half_height = half_spec::<T>().mul_spec(m.fov).tan_spec().mul_spec(m.focus);
    PerspectiveModel {
        w,
        u,
        v,
        center: plus(m.position, scaled(w, m.focus)),
        half_height,
        half_width: m.aspect.mul_spec(half_height),
        ..m
    }
}

/// The field of view of a new camera: `157075 / 100000`, a little less than a
/// right angle.
pub open spec fn default_fov<T: Float>() -> T {
    T::from_usize_spec(157075).div_spec(T::from_usize_spec(100000))
}

/// The camera at the origin that looks down the negative Z axis, Y up, through a
/// pinhole at a square image one unit away, before anything is derived.
pub open spec fn default_camera<T: Float>() -> PerspectiveModel<T> {
    let zero = T::zero_spec();
    let one = T::one_spec();
    PerspectiveModel {
        position: seq![zero, zero, zero],
        direction: seq![zero, zero, one.neg_spec()],
        lookat: seq![zero, zero, one.neg_spec()],
        center: seq![zero, zero, one.neg_spec()],
        up: seq![zero, one, zero],
        u: seq![zero, zero, zero],
        v: seq![zero, zero, zero],
        w: seq![zero, zero, zero],
        aspect: one,
        fov: default_fov(),
        half_height: one,
        half_width: one,
        aperture: zero,
        focus: one,
        lock: CameraLock::Direction,
    }
}

/// How far from the position a ray starts: the point `lens` of the unit disc scaled
/// by half the aperture, or nothing if the aperture is not positive.
pub open spec fn lens_offset<T: Float>(m: PerspectiveModel<T>, lens: Seq<T>) -> Seq<T> {
    if T::zero_spec().lt_spec(m.aperture) {
        scaled(lens, m.aperture.mul_spec(half_spec::<T>()))
    } else {
        seq![T::zero_spec(), T::zero_spec(), T::zero_spec()]
    }
}

/// The ray through the image coordinates `r` and `s`: it starts at the position
/// moved by the lens offset and runs, with normalized direction, towards the point
/// `center + u * r * half_width + v * s * half_height` of the image.
pub open spec fn camera_ray<T: Float>(m: PerspectiveModel<T>, r: T, s: T, lens: Seq<T>) -> RayModel<
    T,
> {
    let offset = lens_offset(m, lens);
    let target = plus(
        plus(m.center, scaled(scaled(m.u, r), m.half_width)),
        scaled(scaled(m.v, s), m.half_height),
    );
    RayModel {
        origin: plus(m.position, offset),
        direction: normalized(minus(minus(target, m.position), offset)),
    }
}

/// A camera that projects through one point or, with an aperture, through a lens.
pub struct PerspectiveCamera<T: Float> {
    position: Vec3<T>,
    direction: Vec3<T>,
    lookat: Vec3<T>,
    center: Vec3<T>,
    up: Vec3<T>,
    u: Vec3<T>,
    v: Vec3<T>,
    w: Vec3<T>,
    aspect: T,
    fov: T,
    half_height: T,
    half_width: T,
    aperture: T,
    focus: T,
    lock: CameraLock,
}

impl<T: Float> View for PerspectiveCamera<T> {
    type V = PerspectiveModel<T>;

    closed spec fn view(&self) -> PerspectiveModel<T> {
        PerspectiveModel {
            position: self.position@,
            direction: self.direction@,
            lookat: self.lookat@,
            center: self.center@,
            up: self.up@,
            u: self.u@,
            v: self.v@,
            w: self.w@,
            aspect: self.aspect,
            fov: self.fov,
            half_height: self.half_height,
            half_width: self.half_width,
            aperture: self.aperture,
            focus: self.focus,
            lock: self.lock,
        }
    }
}

impl<T: Float> PerspectiveCamera<T> {
    /// The default camera, with everything derived.
    pub fn new() -> (r: Self)
        ensures
            r@ == updated(default_camera::<T>()),
    {
        let mut camera = PerspectiveCamera {
            position: Vec3::from_array([T::zero(), T::zero(), T::zero()]),
            direction: Vec3::from_array([T::zero(), T::zero(), T::one().neg()]),
            lookat: Vec3::from_array([T::zero(), T::zero(), T::one().neg()]),
            center: Vec3::from_array([T::zero(), T::zero(), T::one().neg()]),
            up: Vec3::from_array([T::zero(), T::one(), T::zero()]),
            u: Vec3::new(),
            v: Vec3::new(),
            w: Vec3::new(),
            aspect: T::one(),
            half_height: T::one(),
            half_width: T::one(),
            aperture: T::zero(),
            focus: T::one(),
            fov: T::from_usize(157075).div(T::from_usize(100000)),
            lock: CameraLock::Direction,
        };
        proof {
            assert(camera@.position =~= default_camera::<T>().position);
            assert(camera@.direction =~= default_camera::<T>().direction);
            assert(camera@.lookat =~= default_camera::<T>().lookat);
            assert(camera@.center =~= default_camera::<T>().center);
            assert(camera@.up =~= default_camera::<T>().up);
        }
        camera.update();
        camera
    }

    /// Derives the frame of the camera and the extent of the image anew.
    pub fn update(&mut self)
        ensures
            final(self)@ == updated(old(self)@),
    {
        let direction = match self.lock {
            CameraLock::Direction => self.direction.mul(T::one()),
            CameraLock::LookAt => self.lookat.sub(&self.position),
        };
        let mut w = direction;
        w.normalize();
        let mut u = w.cross(&self.up);
        u.normalize();
        let mut v = w.cross(&u);
        v.normalize();
        self.center = self.position.add(&w.mul(self.focus));
        self.half_height = half::<T>().mul(self.fov).tan().mul(self.focus);
        self.half_width = self.aspect.mul(self.half_height);
        self.w = w;
        self.u = u;
        self.v = v;
    }

    /// The first axis of the image, to the right of the line of sight.
    pub fn get_u(&self) -> (r: &Vec3<T>)
        ensures
            r@ == self@.u,
    {
        &self.u
    }

    /// The second axis of the image.
    pub fn get_v(&self) -> (r: &Vec3<T>)
        ensures
            r@ == self@.v,
    {
        &self.v
    }

    /// The normalized line of sight.
    pub fn get_w(&self) -> (r: &Vec3<T>)
        ensures
            r@ == self@.w,
    {
        &self.w
    }
}

impl<T: Float> Camera<T> for PerspectiveCamera<T> {
    open spec fn parameters(&self) -> CameraModel<T> {
        CameraModel {
            position: self@.position,
            direction: self@.direction,
            lookat: self@.lookat,
            up: self@.up,
            aperture: self@.aperture,
            focus: self@.focus,
            aspect: self@.aspect,
            fov: self@.fov,
        }
    }

    open spec fn ray_spec(&self, r: T, s: T, lens: Seq<T>) -> RayModel<T> {
        camera_ray(self@, r, s, lens)
    }

    fn get_position(&self) -> (r: &Vec3<T>) {
        &self.position
    }

    /// Moves the camera. Nothing is derived anew.
    fn set_position(&mut self, position: &[T])
        ensures
            final(self)@ == (PerspectiveModel { position: position@.subrange(0, 3), ..old(self)@ }),
    {
        self.position.set_data(position);
    }

    fn get_direction(&self) -> (r: &Vec3<T>) {
        &self.direction
    }

    /// Turns the camera along `direction` and locks it to its direction.
    fn set_direction(&mut self, direction: &[T])
        ensures
            final(self)@ == updated(
                PerspectiveModel {
                    direction: direction@.subrange(0, 3),
                    lock: CameraLock::Direction,
                    ..old(self)@
                },
            ),
    {
        self.direction.set_data(direction);
        self.lock = CameraLock::Direction;
        self.update();
    }

    fn get_lookat(&self) -> (r: &Vec3<T>) {
        &self.lookat
    }

    /// Turns the camera towards `lookat` and locks it to that point.
    fn set_lookat(&mut self, lookat: &[T])
        ensures
            final(self)@ == updated(
                PerspectiveModel {
                    lookat: lookat@.subrange(0, 3),
                    lock: CameraLock::LookAt,
                    ..old(self)@
                },
            ),
    {
        self.lookat.set_data(lookat);
        self.lock = CameraLock::LookAt;
        self.update();
    }

    fn get_up(&self) -> (r: &Vec3<T>) {
        &self.up
    }

    fn set_up(&mut self, up: &[T])
        ensures
            final(self)@ == updated(PerspectiveModel { up: up@.subrange(0, 3), ..old(self)@ }),
    {
        self.up.set_data(up);
        self.update();
    }

    fn get_aperture(&self) -> (r: T) {
        self.aperture
    }

    fn set_aperture(&mut self, aperture: T)
        ensures
            final(self)@ == updated(PerspectiveModel { aperture, ..old(self)@ }),
    {
        self.aperture = aperture;
        self.update();
    }

    fn get_focus(&self) -> (r: T) {
        self.focus
    }

    fn set_focus(&mut self, focus: T)
        ensures
            final(self)@ == updated(PerspectiveModel { focus, ..old(self)@ }),
    {
        self.focus = focus;
        self.update();
    }

    fn get_aspect(&self) -> (r: T) {
        self.aspect
    }

    fn set_aspect(&mut self, aspect: T)
        ensures
            final(self)@ == updated(PerspectiveModel { aspect, ..old(self)@ }),
    {
        self.aspect = aspect;
        self.update();
    }

    fn get_fov(&self) -> (r: T) {
        self.fov
    }

    fn set_fov(&mut self, fov: T)
        ensures
            final(self)@ == updated(PerspectiveModel { fov, ..old(self)@ }),
    {
        self.fov = fov;
        self.update();
    }

    fn get_ray(&self, r: T, s: T, lens: &Vec3<T>) -> (ray: Ray<T>) {
        let offset = if self.aperture.gt(T::zero()) {
            lens.mul(self.aperture.mul(half()))
        } else {
            Vec3::new()
        };
        let mut ray_direction = self.center.add(&self.u.mul(r).mul(self.half_width)).add(
            &self.v.mul(s).mul(self.half_height),
        ).sub(&self.position).sub(&offset);
        ray_direction.normalize();
        let origin = self.position.add(&offset);
        proof {
            lemma_vec3_len(origin);
            lemma_vec3_len(ray_direction);
            assert(origin@.subrange(0, 3) =~= origin@);
            assert(ray_direction@.subrange(0, 3) =~= ray_direction@);
        }
        Ray::from_slice(origin.get_data(), ray_direction.get_data())
    }
}

} // verus!
