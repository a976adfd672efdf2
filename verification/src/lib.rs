//! Escape-time fractal rendering, verified.
//!
//! The library renders Mandelbrot and Julia sets into raster frame buffers.
//! All plane arithmetic is done in fixed-point (see [`fixed`]), so that every
//! step of the pipeline — pixel-to-plane mapping, escape-time evaluation,
//! colorization, frame rendering and animation sequencing — carries an exact
//! contract. I/O (prompts, image encoding, video assembly) is left to callers.

pub mod fixed;

pub mod geometry;

pub mod evaluator;

pub mod color;

pub mod render;

pub mod animate;

pub mod parse;
