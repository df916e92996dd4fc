//! Decorators that place a surface in space.
pub mod translation;

pub use translation::Translation;
