//! The scene model the evaluator produces and the renderer consumes:
//! drawable primitives, their placements, and frames.
//!
//! Every coordinate here is an absolute canvas length; unit resolution
//! is complete before a frame reaches the renderer.

use vstd::prelude::*;
use crate::interpreter::Env;

verus! {

/// A color of three channels. The channels are carried through to the
/// paint backend unclamped; their nominal range is the backend's
/// affair.
#[derive(Clone, Copy, Debug, PartialEq, Eq, Structural)]
pub struct Color {
    pub r: i64,
    pub g: i64,
    pub b: i64,
}

/// A point or offset in canvas pixels.
#[derive(Clone, Copy, Debug, PartialEq, Eq, Structural)]
pub struct Vec2 {
    pub x: i64,
    pub y: i64,
}

/// One shaped glyph: its index in the font, and its offset within the
/// run, in canvas pixels.
#[derive(Clone, Copy, Debug, PartialEq, Eq, Structural)]
pub struct Glyph {
    pub index: u64,
    pub x: i64,
    pub y: i64,
}

/// A straight stroked segment from the element's position to the
/// position plus `offset`.
#[derive(Debug)]
pub struct LineElement {
    pub color: Color,
    pub line_width: i64,
    pub offset: Vec2,
}

/// A shaped glyph run with its font settings.
#[derive(Debug)]
pub struct TextRun {
    pub glyphs: Vec<Glyph>,
    pub font_family: String,
    pub font_style: String,
    pub font_size: i64,
    pub color: Color,
}

/// An opaque external drawable, identified by a handle.
#[derive(Clone, Copy, Debug, PartialEq, Eq, Structural)]
pub struct SvgElement {
    pub drawable: u64,
}

/// A drawable primitive or composite.
///
/// A `Scaled` element's children are positioned relative to the
/// element's own local origin; composing positions across nesting
/// levels is the renderer's job.
#[derive(Debug)]
pub enum Element {
    Line(LineElement),
    Text(TextRun),
    Scaled(Vec<PlacedElement>, i64),
    Svg(SvgElement),
}

/// An element anchored at an absolute position in the coordinate
/// space of its immediate container.
#[derive(Debug)]
pub struct PlacedElement {
    pub position: Vec2,
    pub element: Element,
}

/// One output page: the environment that resolves frame-level
/// settings such as the background color, and the ordered top-level
/// placed elements.
#[derive(Debug)]
pub struct Frame {
    pub env: Env,
    pub elements: Vec<PlacedElement>,
}

} // verus!
