//! The paint surface the renderer drives: a fixed-size page sink with
//! a transform and a log of device-space paint operations.
//!
//! Only translation and uniform scaling are ever composed onto the
//! transform, so it is three numbers. Every geometric operation is
//! recorded with the current transform already applied, so the log
//! shows exactly what reaches the device.

use vstd::prelude::*;
use crate::elements::Glyph;
use crate::interpreter::in_i64;

verus! {

/// An affine transform of uniform scale and translation:
/// `device = scale * user + (tx, ty)`.
#[derive(Clone, Copy, Debug, PartialEq, Eq, Structural)]
pub struct Transform {
    pub scale: i64,
    pub tx: i64,
    pub ty: i64,
}

/// The identity transform.
pub open spec fn identity() -> Transform {
    Transform { scale: 1, tx: 0, ty: 0 }
}

/// The device x-coordinate of user coordinate `x` under `t`.
pub open spec fn tf_x(t: Transform, x: i64) -> i64 {
    ((t.scale * x + t.tx)) as i64
}

/// The device y-coordinate of user coordinate `y` under `t`.
pub open spec fn tf_y(t: Transform, y: i64) -> i64 {
    ((t.scale * y + t.ty)) as i64
}

/// Whether applying `t` to `(x, y)` stays within the machine range.
pub open spec fn tf_ok(t: Transform, x: i64, y: i64) -> bool {
    &&& in_i64(t.scale * x)
    &&& in_i64(t.scale * x + t.tx)
    &&& in_i64(t.scale * y)
    &&& in_i64(t.scale * y + t.ty)
}

/// `t` composed with a translation by `(x, y)`.
pub open spec fn translated(t: Transform, x: i64, y: i64) -> Transform {
    Transform { scale: t.scale, tx: tf_x(t, x), ty: tf_y(t, y) }
}

/// `t` composed with a uniform scaling by `k`.
pub open spec fn scaled(t: Transform, k: i64) -> Transform {
    Transform { scale: (t.scale * k) as i64, tx: t.tx, ty: t.ty }
}

/// One paint operation, in device coordinates.
#[derive(Clone, Copy, Debug, PartialEq, Eq, Structural)]
pub enum PaintOp {
    Rect { x: i64, y: i64, w: i64, h: i64 },
    SetColor { r: i64, g: i64, b: i64 },
    Fill,
    MoveTo { x: i64, y: i64 },
    LineTo { x: i64, y: i64 },
    SetLineWidth { w: i64 },
    Stroke,
    SetFontFace { face: u64 },
    SetFontSize { size: i64 },
    Glyph { glyph: u64, x: i64, y: i64 },
    Svg { drawable: u64, x: i64, y: i64 },
    ShowPage,
}

/// The glyph operations of a run under transform `t`.
pub open spec fn glyph_ops(t: Transform, glyphs: Seq<Glyph>) -> Seq<PaintOp> {
    glyphs.map_values(|g: Glyph| PaintOp::Glyph { glyph: g.index, x: tf_x(t, g.x), y: tf_y(t, g.y) })
}

/// The canvas: the current transform and the log of operations.
#[derive(Debug)]
pub struct Canvas {
    transform: Transform,
    ops: Vec<PaintOp>,
}

impl Canvas {
    /// The current transform.
    pub closed spec fn matrix(self) -> Transform {
        self.transform
    }

    /// The operations recorded so far, oldest first.
    pub closed spec fn log(self) -> Seq<PaintOp> {
        self.ops@
    }

    /// A fresh canvas: identity transform, nothing painted.
    pub fn new() -> (c: Canvas)
        ensures
            c.matrix() == identity(),
            c.log() == Seq::<PaintOp>::empty(),
    {
        Canvas { transform: Transform { scale: 1, tx: 0, ty: 0 }, ops: Vec::new() }
    }

    /// The recorded operations, for inspection.
    pub fn recorded(&self) -> (v: &Vec<PaintOp>)
        ensures
            v@ == self.log(),
    {
        &self.ops
    }

    /// The current transform, to be restored later.
    pub fn get_matrix(&self) -> (m: Transform)
        ensures
            m == self.matrix(),
    {
        self.transform
    }

    /// Restores a previously saved transform.
    pub fn set_matrix(&mut self, m: Transform)
        ensures
            final(self).matrix() == m,
            final(self).log() == old(self).log(),
    {
        self.transform = m;
    }

    /// Composes a translation by `(x, y)` onto the transform.
    pub fn translate(&mut self, x: i64, y: i64)
        requires
            tf_ok(old(self).matrix(), x, y),
        ensures
            final(self).matrix() == translated(old(self).matrix(), x, y),
            final(self).log() == old(self).log(),
    {
        let t = self.transform;
        self.transform = Transform { scale: t.scale, tx: t.scale * x + t.tx, ty: t.scale * y + t.ty };
    }

    /// Composes a uniform scaling by `k` onto the transform.
    pub fn scale(&mut self, k: i64)
        requires
            in_i64(old(self).matrix().scale * k),
        ensures
            final(self).matrix() == scaled(old(self).matrix(), k),
            final(self).log() == old(self).log(),
    {
        let t = self.transform;
        self.transform = Transform { scale: t.scale * k, tx: t.tx, ty: t.ty };
    }

    /// Records a rectangle with corner `(x, y)` and size `(w, h)`.
    pub fn rectangle(&mut self, x: i64, y: i64, w: i64, h: i64)
        requires
            tf_ok(old(self).matrix(), x, y),
            in_i64(old(self).matrix().scale * w),
            in_i64(old(self).matrix().scale * h),
        ensures
            final(self).matrix() == old(self).matrix(),
            final(self).log() == old(self).log().push(
                PaintOp::Rect {
                    x: tf_x(old(self).matrix(), x),
                    y: tf_y(old(self).matrix(), y),
                    w: (old(self).matrix().scale * w) as i64,
                    h: (old(self).matrix().scale * h) as i64,
                },
            ),
    {
        let t = self.transform;
        self.ops.push(
            PaintOp::Rect { x: t.scale * x + t.tx, y: t.scale * y + t.ty, w: t.scale * w, h: t.scale * h },
        );
    }

    /// Sets the source color.
    pub fn set_source_rgb(&mut self, r: i64, g: i64, b: i64)
        ensures
            final(self).matrix() == old(self).matrix(),
            final(self).log() == old(self).log().push(PaintOp::SetColor { r, g, b }),
    {
        self.ops.push(PaintOp::SetColor { r, g, b });
    }

    /// Fills the current path.
    pub fn fill(&mut self)
        ensures
            final(self).matrix() == old(self).matrix(),
            final(self).log() == old(self).log().push(PaintOp::Fill),
    {
        self.ops.push(PaintOp::Fill);
    }

    /// Begins a path at `(x, y)`.
    pub fn move_to(&mut self, x: i64, y: i64)
        requires
            tf_ok(old(self).matrix(), x, y),
        ensures
            final(self).matrix() == old(self).matrix(),
            final(self).log() == old(self).log().push(
                PaintOp::MoveTo { x: tf_x(old(self).matrix(), x), y: tf_y(old(self).matrix(), y) },
            ),
    {
        let t = self.transform;
        self.ops.push(PaintOp::MoveTo { x: t.scale * x + t.tx, y: t.scale * y + t.ty });
    }

    /// Extends the current path to `(x, y)`.
    pub fn line_to(&mut self, x: i64, y: i64)
        requires
            tf_ok(old(self).matrix(), x, y),
        ensures
            final(self).matrix() == old(self).matrix(),
            final(self).log() == old(self).log().push(
                PaintOp::LineTo { x: tf_x(old(self).matrix(), x), y: tf_y(old(self).matrix(), y) },
            ),
    {
        let t = self.transform;
        self.ops.push(PaintOp::LineTo { x: t.scale * x + t.tx, y: t.scale * y + t.ty });
    }

    /// Sets the stroke width.
    pub fn set_line_width(&mut self, w: i64)
        requires
            in_i64(old(self).matrix().scale * w),
        ensures
            final(self).matrix() == old(self).matrix(),
            final(self).log() == old(self).log().push(
                PaintOp::SetLineWidth { w: (old(self).matrix().scale * w) as i64 },
            ),
    {
        let t = self.transform;
        self.ops.push(PaintOp::SetLineWidth { w: t.scale * w });
    }

    /// Strokes the current path.
    pub fn stroke(&mut self)
        ensures
            final(self).matrix() == old(self).matrix(),
            final(self).log() == old(self).log().push(PaintOp::Stroke),
    {
        self.ops.push(PaintOp::Stroke);
    }

    /// Selects a font face by its handle.
    pub fn set_font_face(&mut self, face: u64)
        ensures
            final(self).matrix() == old(self).matrix(),
            final(self).log() == old(self).log().push(PaintOp::SetFontFace { face }),
    {
        self.ops.push(PaintOp::SetFontFace { face });
    }

    /// Sets the font size.
    pub fn set_font_size(&mut self, size: i64)
        requires
            in_i64(old(self).matrix().scale * size),
        ensures
            final(self).matrix() == old(self).matrix(),
            final(self).log() == old(self).log().push(
                PaintOp::SetFontSize { size: (old(self).matrix().scale * size) as i64 },
            ),
    {
        let t = self.transform;
        self.ops.push(PaintOp::SetFontSize { size: t.scale * size });
    }

    /// Submits a glyph run; each glyph's offset is already absolute.
    pub fn show_glyphs(&mut self, glyphs: &Vec<Glyph>)
        requires
            forall|i: int|
                0 <= i < glyphs@.len() ==> tf_ok(old(self).matrix(), glyphs@[i].x, glyphs@[i].y),
        ensures
            final(self).matrix() == old(self).matrix(),
            final(self).log() == old(self).log() + glyph_ops(old(self).matrix(), glyphs@),
    {
        let n = glyphs.len();
        let mut i: usize = 0;
        while i < n
            invariant
                i <= n,
                n == glyphs@.len(),
                self.transform == old(self).matrix(),
                forall|j: int|
                    0 <= j < glyphs@.len() ==> tf_ok(old(self).matrix(), glyphs@[j].x, glyphs@[j].y),
                self.ops@ == old(self).log() + glyph_ops(
                    old(self).matrix(),
                    glyphs@.subrange(0, i as int),
                ),
            decreases n - i,
        {
            let g = glyphs[i];
            let t = self.transform;
            self.ops.push(PaintOp::Glyph { glyph: g.index, x: t.scale * g.x + t.tx, y: t.scale * g.y + t.ty });
            proof {
                assert(glyph_ops(old(self).matrix(), glyphs@.subrange(0, i + 1))
                    =~= glyph_ops(old(self).matrix(), glyphs@.subrange(0, i as int)).push(
                    PaintOp::Glyph {
                        glyph: g.index,
                        x: tf_x(old(self).matrix(), g.x),
                        y: tf_y(old(self).matrix(), g.y),
                    },
                ));
                assert(self.ops@ =~= old(self).log() + glyph_ops(
                    old(self).matrix(),
                    glyphs@.subrange(0, i + 1),
                ));
            }
            i = i + 1;
        }
        proof {
            assert(glyphs@.subrange(0, n as int) =~= glyphs@);
        }
    }

    /// Delegates to an opaque external drawable at the current origin.
    pub fn draw_svg(&mut self, drawable: u64)
        ensures
            final(self).matrix() == old(self).matrix(),
            final(self).log() == old(self).log().push(
                PaintOp::Svg {
                    drawable,
                    x: old(self).matrix().tx,
                    y: old(self).matrix().ty,
                },
            ),
    {
        let t = self.transform;
        self.ops.push(PaintOp::Svg { drawable, x: t.tx, y: t.ty });
    }

    /// Commits the page and begins a new one.
    pub fn show_page(&mut self)
        ensures
            final(self).matrix() == old(self).matrix(),
            final(self).log() == old(self).log().push(PaintOp::ShowPage),
    {
        self.ops.push(PaintOp::ShowPage);
    }
}

} // verus!
