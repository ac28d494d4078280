//! A dense, row-major, fixed-shape matrix with reflected (negative) indexing,
//! row and column views, strided iteration and elementwise arithmetic.
pub mod dimension;
pub mod matrices;
