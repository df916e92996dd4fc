//! Primitive surfaces.
pub mod sphere;
pub mod rectangle;
pub mod cube;
pub mod group;

pub use sphere::Sphere;
pub use rectangle::Rectangle;
pub use cube::Cube;
pub use group::Group;
