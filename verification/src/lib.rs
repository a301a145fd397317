//! Core of a small OBJ mesh viewer: a verified parser for a Wavefront OBJ
//! subset (positions, normals, triangle faces) and the mouse-drag tracking
//! that drives an orbiting camera. Window handling, GPU upload and the
//! floating-point matrix pipeline live outside this crate.

pub mod obj;
pub mod orbit;
