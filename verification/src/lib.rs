//! Scene description and shader-source tooling for a compute path tracer:
//! a signed-distance-field scene editor whose scene tree compiles to GLSL,
//! a line-oriented GLSL preprocessor, input bookkeeping and small
//! double-buffering utilities.

pub mod utility;
pub mod text;
pub mod sdf_editor;
pub mod packages;
pub mod inbuilt;
pub mod path_tracer;
