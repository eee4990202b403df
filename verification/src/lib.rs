//! Conway's Game of Life on a pixel surface: the simulation, the framebuffer
//! it is painted on, and the rules that tie them into a frame loop.

pub mod color;
pub mod event_loop;
pub mod fractal;
pub mod framebuffer;
pub mod game;
pub mod life;
pub mod paint;
pub mod raster;
