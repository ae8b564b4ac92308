//! Rendering core for a chained RGB LED matrix sign.
//!
//! A [`panel::Panel`] owns the two canvases of a double buffer and the
//! display they are shown on. The caller draws into the canvas that is off
//! screen ([`canvas::Canvas`], with text set in a bitmap font, [`font::Font`])
//! and swaps it with the one on display. [`render::RenderLoop`] decides what
//! a render loop does at each turn, and [`render::iterate`] runs one
//! iteration of it; the waits between frames are the caller's.
//!
//! Coordinates count pixels from the top-left corner of a canvas, `x` to the
//! right and `y` downwards. Text is placed by its pen: `x` is the left edge
//! of the first character and `y` the baseline.
//!
//! The display is reached through [`backend::Backend`], so that a hardware
//! driver, a simulator and the [`backend::Recorder`] are interchangeable.

pub mod backend;
pub mod bdf;
pub mod canvas;
pub mod color;
pub mod config;
pub mod font;
pub mod grid;
pub mod panel;
pub mod render;
pub mod scan;
pub mod text;
