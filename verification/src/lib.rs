//! An immediate-mode drawing and widget toolkit, modelled in logical pixels.
//!
//! The crate verifies the state machines at the heart of a small GUI stack:
//! the draw-buffer batching layer (`render`), the pure geometry that canvas
//! primitives emit (`canvas`), and the widget collection with its focus
//! arbitration (`ui`).  Everything device-facing (GPU submission, windowing,
//! font rasterisation) lives outside this crate and consumes the plain values
//! produced here.

pub mod canvas;
pub mod geometry;
pub mod input;
pub mod numeric;
pub mod render;
pub mod strings;
pub mod ui;
pub mod widget;
