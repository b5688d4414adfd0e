//! Verified core of a batch, CPU-only spectral renderer.
//!
//! The integer parts of the rendering pipeline live here with machine-checked
//! contracts: the 2D raster primitives, Bresenham line plotting onto an
//! [`image`] canvas, triangle rasterization, the tiled canvas partition and
//! reassembly, and the wavelength-to-bin bookkeeping of the spectral model.
//! The floating-point numerics around them (vector algebra, transforms,
//! intersection arithmetic, radiometry) are left to the driver program.

pub mod canvas;
pub mod geometry_pipeline;
pub mod import_config;
pub mod lighting;
pub mod line_plotting;
pub mod primitives;
pub mod rasterization;
pub mod scene;
