//! Separating-axis queries between convex shapes, over exact integer geometry.
//!
//! Coordinates are integers, so every support point, projection and
//! comparison is computed exactly. A separation along an axis `n` that is not
//! of unit length is kept as the pair `(num, |n|^2)` and stands for the real
//! number `num / |n|`.
//!
//! `sat2` and `sat3` search candidate axes for the one of largest separation;
//! `toi` drives such a search forward in time to find when two moving cuboids
//! first touch.
pub mod math;
pub mod separation;
pub mod shape;
pub mod sat2;
pub mod sat3;
pub mod toi;
