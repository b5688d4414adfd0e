//! Scene-level rendering choices.
//!
//! The scene container itself carries floating-point state (camera, lights,
//! meshes) and lives with the driver; the discrete mode switches it is
//! configured with are defined here.

use vstd::prelude::*;

verus! {

/// How a surface sample is shaded once a primary ray hits it.
#[derive(Clone, Copy, Debug, PartialEq, Eq, Structural)]
pub enum ShaderMode {
    _BVH,
    _Solid,
    Lit,
}

/// Which rendering pipeline a frame is produced by.
#[derive(Clone, Copy, Debug, PartialEq, Eq, Structural)]
pub enum Rendermode {
    _RayTrace,
    ThreadedRayTrace,
    _Rasterize,
}

} // verus!
