//! A verified core for exploring the Mandelbrot set: the settings of the view
//! and their re-render flag, the escape-time iteration and the colour policy,
//! and the parallel frame renderer.
//!
//! Everything here works on integers and bytes. A double is held by its
//! IEEE-754 bit pattern, and the arithmetic on doubles is handed in by the
//! caller as a `Kernel` of four functions; what is proved of a rendering
//! holds for every such kernel.

pub mod binary64;
pub mod io;
pub mod mandelbrot_settings;
pub mod pixel_colour;
pub mod render;
pub mod session;
pub mod size;
