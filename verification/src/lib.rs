//! A spatial intersection engine for ray tracing: axis-aligned boxes, hit-testable
//! surfaces, three interchangeable spatial indices and the recursive colour estimator
//! that walks them.
pub mod float;
pub mod vector;
pub mod ray;
pub mod hit;
pub mod constants;
pub mod boundingbox;
pub mod nearest;
pub mod hitable;
pub mod texture;
pub mod material;
pub mod actor;
pub mod tree;
pub mod scene;
pub mod camera;
pub mod utils;
pub mod renderer;
