//! An interactively explorable Mandelbrot-set renderer.
//!
//! The engine maps each pixel of a raster to a point of the complex plane,
//! iterates `c := c*c + z0` until the point escapes a fixed radius, and turns
//! the escape speed into a packed RGB color. All plane coordinates are held
//! in a fixed-point encoding (`fixed::FRAC` raw units per 1.0), so every step
//! of the computation is exact integer arithmetic with a proved contract.

pub mod color;
pub mod fixed;
pub mod mapper;
pub mod view;
