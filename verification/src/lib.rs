//! Pris: a small language for describing presentation slides.
//!
//! A document is a sequence of statements that is evaluated against a
//! lexically scoped environment, producing frames of placed drawing
//! elements; a rendering driver then paints each frame onto a canvas
//! with strict save/restore transform discipline.

pub mod ast;
pub mod canvas;
pub mod driver;
pub mod elements;
pub mod interpreter;
pub mod parser;
pub mod report;
