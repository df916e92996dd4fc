//! The renderer: one colour for every pixel of an image.
//!
//! Colours are estimates: materials and the renderer itself draw random numbers.
//! The renderer draws its own from a [`Sampler`] that the caller hands in.
use vstd::prelude::*;
use crate::camera::Camera;
use crate::float::Float;
use crate::hitable::Hitable;
use crate::material::Material;
use crate::ray::{Ray, RayModel};
use crate::scene::{may_see, IndexModel, Scene};
use crate::vector::{divided, lemma_vec3_len, plus, Vec3};

verus! {

/// A source of chance. Nothing is promised of what it hands out: two calls may
/// differ.
pub trait Sampler<T: Float> {
    /// A number drawn uniformly from `[0, 1)`.
    fn unit(&mut self) -> (r: T);

    /// A point drawn uniformly from the unit disc in the plane of the first two axes.
    fn lens(&mut self) -> (r: Vec3<T>);
}

/// An image: three scalars for every pixel, row by row.
pub struct Image<T: Float> {
    pub width: usize,
    pub height: usize,
    pub data: Vec<T>,
}

/// The place in the data of an image of the first scalar of the pixel in column
/// `i` of row `j`.
pub open spec fn pixel_offset(width: int, i: int, j: int) -> int {
    3 * (j * width + i)
}

/// Every pixel of an image of the given size has its three places in the data.
pub proof fn lemma_pixel_in_image(width: int, height: int, i: int, j: int)
    requires
        0 <= i < width,
        0 <= j < height,
    ensures
        0 <= pixel_offset(width, i, j),
        pixel_offset(width, i, j) + 3 <= 3 * width * height,
        0 <= j * width + i < width * height,
{
    assert(j * width + i < width * height) by (nonlinear_arith)
        requires
            0 <= i < width,
            0 <= j < height,
    ;
    assert(0 <= j * width) by (nonlinear_arith)
        requires
            0 <= j,
            0 <= width,
    ;
    assert(3 * width * height == 3 * (width * height)) by (nonlinear_arith);
}

/// The three scalars of the pixel in column `i` of row `j`.
pub open spec fn pixel_at<T>(data: Seq<T>, width: int, i: int, j: int) -> Seq<T> {
    seq![
        data[pixel_offset(width, i, j)],
        data[pixel_offset(width, i, j) + 1],
        data[pixel_offset(width, i, j) + 2],
    ]
}

/// Different pixels have different places in the data.
pub proof fn lemma_pixels_apart(width: int, i: int, j: int, a: int, b: int)
    requires
        0 <= i < width,
        0 <= a < width,
        0 <= j,
        0 <= b,
        i != a || j != b,
    ensures
        pixel_offset(width, a, b) + 3 <= pixel_offset(width, i, j) || pixel_offset(width, i, j) + 3
            <= pixel_offset(width, a, b),
{
    if b < j {
        assert(b * width + width <= j * width) by (nonlinear_arith)
            requires
                b + 1 <= j,
                0 <= width,
        ;
    } else if j < b {
        assert(j * width + width <= b * width) by (nonlinear_arith)
            requires
                j + 1 <= b,
                0 <= width,
        ;
    }
}

impl<T: Float> Image<T> {
    /// The image of the given size in which every scalar is zero.
    pub fn new(width: usize, height: usize) -> (r: Self)
        requires
            3 * width * height <= usize::MAX,
        ensures
            r.width == width,
            r.height == height,
            r.data@ == Seq::new((3 * width * height) as nat, |i: int| T::zero_spec()),
    {
        assert(width * height <= 3 * width * height) by (nonlinear_arith)
            requires
                0 <= width,
                0 <= height,
        ;
        assert(3 * (width * height) == 3 * width * height) by (nonlinear_arith);
        let count = 3 * (width * height);
        let mut data: Vec<T> = Vec::new();
        let mut k: usize = 0;
        while k < count
            invariant
                k <= count,
                data@ == Seq::new(k as nat, |i: int| T::zero_spec()),
            decreases count - k,
        {
            data.push(T::zero());
            assert(data@ =~= Seq::new((k + 1) as nat, |i: int| T::zero_spec()));
            k = k + 1;
        }
        Image { width, height, data }
    }

    /// Stores a colour as the pixel in column `i` of row `j`.
    pub fn set_pixel(&mut self, i: usize, j: usize, color: &Vec3<T>)
        requires
            i < old(self).width,
            j < old(self).height,
            old(self).data@.len() == 3 * old(self).width * old(self).height,
        ensures
            final(self).width == old(self).width,
            final(self).height == old(self).height,
            final(self).data@.len() == old(self).data@.len(),
            pixel_at(final(self).data@, old(self).width as int, i as int, j as int) == color@,
            forall|a: int, b: int|
                0 <= a < old(self).width && 0 <= b < old(self).height && (a != i || b != j)
                    ==> #[trigger] pixel_at(final(self).data@, old(self).width as int, a, b)
                    == pixel_at(old(self).data@, old(self).width as int, a, b),
            final(self).data@ == old(self).data@.update(
                pixel_offset(old(self).width as int, i as int, j as int),
                color@[0],
            ).update(
                pixel_offset(old(self).width as int, i as int, j as int) + 1,
                color@[1],
            ).update(pixel_offset(old(self).width as int, i as int, j as int) + 2, color@[2]),
    {
        let places = self.data.len();
        proof {
            lemma_pixel_in_image(self.width as int, self.height as int, i as int, j as int);
            lemma_vec3_len(*color);
            assert(0 <= j * self.width <= j * self.width + i) by (nonlinear_arith)
                requires
                    0 <= j,
                    0 <= self.width,
                    0 <= i,
            ;
            assert(pixel_offset(self.width as int, i as int, j as int) == 3 * (j * self.width + i));
            assert(3 * (j * self.width + i) + 3 <= places);
        }
        let index = j * self.width + i;
        self.data[3 * index] = color.get(0);
        self.data[3 * index + 1] = color.get(1);
        self.data[3 * index + 2] = color.get(2);
        proof {
            let width = old(self).width as int;
            assert(pixel_at(self.data@, width, i as int, j as int) =~= color@);
            assert forall|a: int, b: int|
                0 <= a < old(self).width && 0 <= b < old(self).height && (a != i
                    || b != j) implies #[trigger] pixel_at(self.data@, width, a, b) == pixel_at(
                old(self).data@,
                width,
                a,
                b,
            ) by {
                lemma_pixels_apart(width, i as int, j as int, a, b);
                lemma_pixel_in_image(width, old(self).height as int, a, b);
            }
        }
    }
}

/// What an image is rendered with: its size, the number of samples per pixel, the
/// budget of scattering events per sample, and whether every sample passes its
/// pixel at a point of its own.
pub struct Renderer {
    pub width: usize,
    pub height: usize,
    pub sampling: usize,
    pub reflections: usize,
    pub antialiasing: bool,
}

/// The image coordinate between -1 and 1 that the place `at` among `extent` places
/// stands for: `2 * (at / extent) - 1`.
pub open spec fn image_coordinate<T: Float>(at: T, extent: usize) -> T {
    T::from_usize_spec(2).mul_spec(at.div_spec(T::from_usize_spec(extent))).sub_spec(T::one_spec())
}

/// The number of samples that a pixel is rendered with: the number that the
/// renderer is set to, but one where it is set to none.
pub open spec fn sample_count(sampling: usize) -> usize {
    if sampling == 0 {
        1
    } else {
        sampling
    }
}

/// The ray of a sample of the pixel in column `i` of row `j`, for a given shift of
/// the sample within the pixel and a given point of the lens. Without antialiasing
/// the shift is ignored: the ray passes the pixel at its corner.
pub open spec fn sample_ray<T: Float, C: Camera<T>>(
    renderer: Renderer,
    camera: C,
    i: usize,
    j: usize,
    shift: (T, T),
    lens: Seq<T>,
) -> RayModel<T> {
    let column = if renderer.antialiasing {
        T::from_usize_spec(i).add_spec(shift.0)
    } else {
        T::from_usize_spec(i)
    };
    let row = if renderer.antialiasing {
        T::from_usize_spec(j).add_spec(shift.1)
    } else {
        T::from_usize_spec(j)
    };
    camera.ray_spec(
        image_coordinate(column, renderer.width),
        image_coordinate(row, renderer.height),
        lens,
    )
}

/// `ray` is a ray that a sample of the pixel in column `i` of row `j` may take: the
/// ray of some shift and some point of the lens.
pub open spec fn may_aim<T: Float, C: Camera<T>>(
    renderer: Renderer,
    camera: C,
    i: usize,
    j: usize,
    ray: RayModel<T>,
) -> bool {
    exists|shift: (T, T), lens: Seq<T>|
        ray == #[trigger] sample_ray(renderer, camera, i, j, shift, lens)
}

/// The first `count` of `colors` added up one after another, starting from the
/// zero vector.
pub open spec fn sum_of<T: Float>(colors: Seq<Seq<T>>, count: int) -> Seq<T>
    decreases count,
{
    if count <= 0 {
        seq![T::zero_spec(), T::zero_spec(), T::zero_spec()]
    } else {
        plus(sum_of(colors, count - 1), colors[count - 1])
    }
}

/// The mean of the first `count` of `colors`: their sum divided by their number.
pub open spec fn mean_of<T: Float>(colors: Seq<Seq<T>>, count: usize) -> Seq<T> {
    divided(sum_of(colors, count as int), T::from_usize_spec(count))
}

/// `rays` and `colors` are what the samples of the pixel in column `i` of row `j`
/// may be: every ray is one that a sample of the pixel may take, every colour is
/// one that may be seen along the ray of its sample with the renderer's budget of
/// scattering events, and without antialiasing all samples take the same ray.
pub open spec fn samples_of_pixel<T: Float, H: Hitable<T>, M: Material<T>, C: Camera<T>>(
    renderer: Renderer,
    camera: C,
    i: usize,
    j: usize,
    index: IndexModel<T, H, M>,
    background: Seq<T>,
    rays: Seq<RayModel<T>>,
    colors: Seq<Seq<T>>,
) -> bool {
    let count = sample_count(renderer.sampling) as int;
    &&& rays.len() == count
    &&& colors.len() == count
    &&& forall|k: int| 0 <= k < count ==> may_aim(renderer, camera, i, j, #[trigger] rays[k])
    &&& forall|k: int|
        0 <= k < count ==> may_see(
            index,
            background,
            rays[k],
            0,
            renderer.reflections as nat,
            #[trigger] colors[k],
        )
    &&& !renderer.antialiasing ==> forall|k: int| 0 <= k < count ==> #[trigger] rays[k] == rays[0]
}

/// `color` is a colour that the pixel in column `i` of row `j` may be rendered
/// with: the mean of colours that its samples may have.
pub open spec fn may_render<T: Float, H: Hitable<T>, M: Material<T>, C: Camera<T>>(
    renderer: Renderer,
    camera: C,
    i: usize,
    j: usize,
    index: IndexModel<T, H, M>,
    background: Seq<T>,
    color: Seq<T>,
) -> bool {
    exists|rays: Seq<RayModel<T>>, colors: Seq<Seq<T>>|
        #[trigger] samples_of_pixel(renderer, camera, i, j, index, background, rays, colors)
            && color == mean_of(colors, sample_count(renderer.sampling))
}

/// The sum of the first colours of a list does not depend on the colours behind
/// them.
pub proof fn lemma_sum_of_prefix<T: Float>(one: Seq<Seq<T>>, other: Seq<Seq<T>>, count: int)
    requires
        forall|k: int| 0 <= k < count ==> one[k] == other[k],
    ensures
        sum_of(one, count) == sum_of(other, count),
    decreases count,
{
    if count > 0 {
        lemma_sum_of_prefix(one, other, count - 1);
    }
}

impl Renderer {
    pub fn new(
        width: usize,
        height: usize,
        sampling: usize,
        reflections: usize,
        antialiasing: bool,
    ) -> (r: Self)
        ensures
            r.width == width,
            r.height == height,
            r.sampling == sampling,
            r.reflections == reflections,
            r.antialiasing == antialiasing,
    {
        Renderer { width, height, sampling, reflections, antialiasing }
    }

    /// An estimate of the colour of the pixel in column `i` of row `j`: the mean of
    /// the colours of its samples. A renderer set to no samples takes one. Without
    /// antialiasing one ray is aimed and every sample is seen along it; with
    /// antialiasing every sample is seen along a ray of its own.
    pub fn render_pixel<T, H, M, C, S>(
        &self,
        i: usize,
        j: usize,
        scene: &Scene<T, H, M>,
        camera: &C,
        sampler: &mut S,
    ) -> (r: Vec3<T>)
        where T: Float, H: Hitable<T>, M: Material<T>, C: Camera<T>, S: Sampler<T>
        ensures
            may_render(*self, *camera, i, j, scene.index(), scene.background(), r@),
    {
        let mut color = Vec3::<T>::new();
        let sampling = match self.sampling {
            0 => 1,
            _ => self.sampling,
        };
        let ghost mut rays: Seq<RayModel<T>> = Seq::empty();
        let ghost mut colors: Seq<Seq<T>> = Seq::empty();
        if !self.antialiasing {
            let ray = self.get_ray(i, j, camera, sampler);
            let mut k: usize = 0;
            while k < sampling
                invariant
                    k <= sampling,
                    !self.antialiasing,
                    may_aim(*self, *camera, i, j, ray@),
                    rays.len() == k,
                    colors.len() == k,
                    forall|n: int| 0 <= n < k ==> #[trigger] rays[n] == ray@,
                    forall|n: int|
                        0 <= n < k ==> may_see(
                            scene.index(),
                            scene.background(),
                            rays[n],
                            0,
                            self.reflections as nat,
                            #[trigger] colors[n],
                        ),
                    color@ == sum_of(colors, k as int),
                decreases sampling - k,
            {
                let seen = scene.get_color(&ray, 0, self.reflections);
                color = color.add(&seen);
                proof {
                    lemma_sum_of_prefix(colors, colors.push(seen@), k as int);
                    rays = rays.push(ray@);
                    colors = colors.push(seen@);
                }
                k = k + 1;
            }
        } else {
            let mut k: usize = 0;
            while k < sampling
                invariant
                    k <= sampling,
                    self.antialiasing,
                    rays.len() == k,
                    colors.len() == k,
                    forall|n: int| 0 <= n < k ==> may_aim(*self, *camera, i, j, #[trigger] rays[n]),
                    forall|n: int|
                        0 <= n < k ==> may_see(
                            scene.index(),
                            scene.background(),
                            rays[n],
                            0,
                            self.reflections as nat,
                            #[trigger] colors[n],
                        ),
                    color@ == sum_of(colors, k as int),
                decreases sampling - k,
            {
                let ray = self.get_ray(i, j, camera, sampler);
                let seen = scene.get_color(&ray, 0, self.reflections);
                color = color.add(&seen);
                proof {
                    lemma_sum_of_prefix(colors, colors.push(seen@), k as int);
                    rays = rays.push(ray@);
                    colors = colors.push(seen@);
                }
                k = k + 1;
            }
        }
        let mean = color.div(T::from_usize(sampling));
        proof {
            assert(sampling == sample_count(self.sampling));
            assert(samples_of_pixel(
                *self,
                *camera,
                i,
                j,
                scene.index(),
                scene.background(),
                rays,
                colors,
            ));
            assert(mean@ == mean_of(colors, sample_count(self.sampling)));
        }
        mean
    }

    /// Renders the scene as the camera sees it: every pixel of the image is a colour
    /// that the pixel may be rendered with.
    pub fn render<T, H, M, C, S>(&self, scene: &Scene<T, H, M>, camera: &C, sampler: &mut S) -> (image:
        Image<T>)
        where T: Float, H: Hitable<T>, M: Material<T>, C: Camera<T>, S: Sampler<T>
        requires
            3 * self.width * self.height <= usize::MAX,
        ensures
            image.width == self.width,
            image.height == self.height,
            image.data@.len() == 3 * self.width * self.height,
            forall|i: int, j: int|
                0 <= i < self.width && 0 <= j < self.height ==> may_render(
                    *self,
                    *camera,
                    i as usize,
                    j as usize,
                    scene.index(),
                    scene.background(),
                    #[trigger] pixel_at(image.data@, self.width as int, i, j),
                ),
    {
        let mut image = Image::<T>::new(self.width, self.height);
        let mut j: usize = 0;
        while j < self.height
            invariant
                j <= self.height,
                image.width == self.width,
                image.height == self.height,
                image.data@.len() == 3 * self.width * self.height,
                forall|a: int, b: int|
                    0 <= a < self.width && 0 <= b < j ==> may_render(
                        *self,
                        *camera,
                        a as usize,
                        b as usize,
                        scene.index(),
                        scene.background(),
                        #[trigger] pixel_at(image.data@, self.width as int, a, b),
                    ),
            decreases self.height - j,
        {
            let mut i: usize = 0;
            while i < self.width
                invariant
                    i <= self.width,
                    j < self.height,
                    image.width == self.width,
                    image.height == self.height,
                    image.data@.len() == 3 * self.width * self.height,
                    forall|a: int, b: int|
                        0 <= a < self.width && (0 <= b < j || (b == j && a < i)) ==> may_render(
                            *self,
                            *camera,
                            a as usize,
                            b as usize,
                            scene.index(),
                            scene.background(),
                            #[trigger] pixel_at(image.data@, self.width as int, a, b),
                        ),
                decreases self.width - i,
            {
                let color = self.render_pixel(i, j, scene, camera, sampler);
                let ghost before = image.data@;
                image.set_pixel(i, j, &color);
                proof {
                    assert forall|a: int, b: int|
                        0 <= a < self.width && (0 <= b < j || (b == j && a < i + 1)) implies may_render(
                        *self,
                        *camera,
                        a as usize,
                        b as usize,
                        scene.index(),
                        scene.background(),
                        #[trigger] pixel_at(image.data@, self.width as int, a, b),
                    ) by {
                        if a == i && b == j {
                        } else {
                            assert(pixel_at(image.data@, self.width as int, a, b) == pixel_at(
                                before,
                                self.width as int,
                                a,
                                b,
                            ));
                        }
                    }
                }
                i = i + 1;
            }
            j = j + 1;
        }
        image
    }

    /// The ray of a sample of the pixel in column `i` of row `j`. Without
    /// antialiasing the ray always passes the pixel at the same point; with it, at a
    /// random point in the vicinity of the pixel.
    fn get_ray<T, C, S>(&self, i: usize, j: usize, camera: &C, sampler: &mut S) -> (ray: Ray<T>)
        where T: Float, C: Camera<T>, S: Sampler<T>
        ensures
            may_aim(*self, *camera, i, j, ray@),
    {
        let two = T::from_usize(2);
        let mut column = T::from_usize(i);
        let mut row = T::from_usize(j);
        let ghost mut shift = (T::zero_spec(), T::zero_spec());
        if self.antialiasing {
            let right = sampler.unit();
            let down = sampler.unit();
            column = column.add(right);
            row = row.add(down);
            proof {
                shift = (right, down);
            }
        }
        let v = two.mul(row.div(T::from_usize(self.height))).sub(T::one());
        let u = two.mul(column.div(T::from_usize(self.width))).sub(T::one());
        let lens = sampler.lens();
        let ray = camera.get_ray(u, v, &lens);
        assert(ray@ == sample_ray(*self, *camera, i, j, shift, lens@));
        ray
    }
}

} // verus!
