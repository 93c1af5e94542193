//! Shader-pipeline host: the state and control logic of a full-screen-quad
//! visualization driven by a generated shader program.
//!
//! The library owns everything the render loop decides: the fixed-increment
//! frame clock, the quad geometry, the run state, and how window events
//! (escape, close request, resize) change the session between draws. The
//! windowing and GPU layer around it performs the calls that each decision
//! asks for.

pub mod clock;
pub mod geometry;
pub mod session;
