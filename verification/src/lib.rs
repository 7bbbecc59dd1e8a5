//! A zero-copy overlay that views a linear sample buffer as a
//! three-dimensional (row, column, channel) image with caller-supplied
//! strides.
//!
//! The descriptor in [`flat`] resolves coordinates to linear indices with
//! overflow-checked arithmetic and analyses the layout for aliasing; the
//! validated views in [`view`] grant pixel access only after the geometry
//! has been proven safe for the backing storage; [`pixel`] is the
//! capability the views are generic over: channel arity, construction
//! from samples, and blending.

pub mod flat;
pub mod pixel;
pub mod view;
