//! The decision logic of an OpenGL shader-program wrapper, verified with Verus.
//!
//! The GL calls themselves are foreign functions and stay with the caller; this
//! crate decides which call comes next, and what a program link amounts to.
pub mod shaders;
