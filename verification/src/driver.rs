//! The frame rendering driver: walks a frame's placed elements and
//! paints them onto the canvas, composing the transform for nested
//! composite elements with strict save/restore discipline.
//!
//! The operations each element contributes are stated by spec
//! functions; the driver is proved to emit exactly those, and to leave
//! the canvas transform bit-identical to what it found, on success and
//! on failure alike.

use vstd::prelude::*;
use crate::ast::Idents;
use crate::canvas::{
    glyph_ops, scaled, tf_ok, tf_x, tf_y, translated, Canvas, PaintOp, Transform,
};
use crate::elements::{Color, Element, Frame, Glyph, PlacedElement};
use crate::interpreter::{in_i64, SpecVal, Val, CANVAS_HEIGHT, CANVAS_WIDTH};

verus! {

/// A rendering error: a resource validated during evaluation is
/// unexpectedly absent at paint time. This is an evaluator/renderer
/// consistency failure, not a user-facing condition.
#[derive(Debug, PartialEq, Eq)]
pub enum RenderErrorG<S> {
    /// No font resource for this family and style.
    MissingFont(S, S),
}

/// The executable rendering error.
pub type RenderError = RenderErrorG<String>;

impl View for RenderErrorG<String> {
    type V = RenderErrorG<Seq<char>>;

    open spec fn view(&self) -> RenderErrorG<Seq<char>> {
        match self {
            RenderErrorG::MissingFont(f, s) => RenderErrorG::MissingFont(f@, s@),
        }
    }
}

/// The resolver from (family, style) to a shapeable font resource
/// handle, shared by evaluator and renderer; both lookups of a pair
/// agree on the same handle.
#[derive(Debug)]
pub struct FontMap {
    entries: Vec<(String, String, u64)>,
}

/// The map a font entry list denotes; a later entry wins.
pub closed spec fn font_map_of(s: Seq<(String, String, u64)>) -> Map<(Seq<char>, Seq<char>), u64>
    decreases s,
{
    if s.len() == 0 {
        Map::empty()
    } else {
        font_map_of(s.subrange(0, s.len() - 1)).insert(
            (s[s.len() - 1].0@, s[s.len() - 1].1@),
            s[s.len() - 1].2,
        )
    }
}

impl View for FontMap {
    type V = Map<(Seq<char>, Seq<char>), u64>;

    closed spec fn view(&self) -> Map<(Seq<char>, Seq<char>), u64> {
        font_map_of(self.entries@)
    }
}

proof fn lemma_font_map_take(s: Seq<(String, String, u64)>, i: int, k: (Seq<char>, Seq<char>))
    requires
        0 <= i <= s.len(),
        forall|j: int| i <= j < s.len() ==> (s[j].0@, s[j].1@) != k,
    ensures
        font_map_of(s).contains_key(k) == font_map_of(s.take(i)).contains_key(k),
        font_map_of(s.take(i)).contains_key(k) ==> font_map_of(s)[k] == font_map_of(s.take(i))[k],
    decreases s.len() - i,
{
    if i == s.len() {
        assert(s.take(i) =~= s);
    } else {
        let s1 = s.subrange(0, s.len() - 1);
        assert(s1.take(i) =~= s.take(i));
        lemma_font_map_take(s1, i, k);
    }
}

impl FontMap {
    /// An empty font map.
    pub fn new() -> (fm: FontMap)
        ensures
            fm@ == Map::<(Seq<char>, Seq<char>), u64>::empty(),
    {
        FontMap { entries: Vec::new() }
    }

    /// Registers the resource handle for a family and style.
    pub fn insert(&mut self, family: String, style: String, face: u64)
        ensures
            final(self)@ == old(self)@.insert((family@, style@), face),
    {
        let ghost s0 = self.entries@;
        self.entries.push((family, style, face));
        proof {
            let t = self.entries@;
            assert(t.subrange(0, t.len() - 1) =~= s0);
        }
    }

    /// The resource handle for a family and style, if registered.
    pub fn get(&self, family: &String, style: &String) -> (r: Option<u64>)
        ensures
            match r {
                Some(f) => self@.contains_key((family@, style@)) && f == self@[(family@, style@)],
                None => !self@.contains_key((family@, style@)),
            },
    {
        let n = self.entries.len();
        let mut i: usize = n;
        while i > 0
            invariant
                i <= n,
                n == self.entries.len(),
                forall|j: int|
                    i <= j < n ==> (self.entries@[j].0@, self.entries@[j].1@) != (family@, style@),
            decreases i,
        {
            if self.entries[i - 1].0 == *family && self.entries[i - 1].1 == *style {
                proof {
                    lemma_font_map_take(self.entries@, i as int, (family@, style@));
                    let t = self.entries@.take(i as int);
                    assert(t.subrange(0, t.len() - 1) =~= self.entries@.take(i - 1));
                    assert(t[t.len() - 1] == self.entries@[i - 1]);
                }
                return Some(self.entries[i - 1].2);
            }
            i = i - 1;
        }
        proof {
            lemma_font_map_take(self.entries@, 0, (family@, style@));
            assert(self.entries@.take(0) =~= Seq::<(String, String, u64)>::empty());
        }
        None
    }
}

/// Glyphs of a run translated by the element's absolute position.
pub open spec fn offset_glyphs(p: crate::elements::Vec2, gs: Seq<Glyph>) -> Seq<Glyph> {
    gs.map_values(|g: Glyph| Glyph { index: g.index, x: (p.x + g.x) as i64, y: (p.y + g.y) as i64 })
}

/// The operations that painting `pe` under transform `t` emits, or
/// the missing font that stops it.
pub open spec fn element_ops(
    fm: Map<(Seq<char>, Seq<char>), u64>,
    t: Transform,
    pe: PlacedElement,
) -> Result<Seq<PaintOp>, RenderErrorG<Seq<char>>>
    decreases pe,
{
    match pe.element {
        Element::Line(l) => Ok(
            seq![
                PaintOp::MoveTo { x: tf_x(t, pe.position.x), y: tf_y(t, pe.position.y) },
                PaintOp::SetColor { r: l.color.r, g: l.color.g, b: l.color.b },
                PaintOp::SetLineWidth { w: (t.scale * l.line_width) as i64 },
                PaintOp::LineTo {
                    x: tf_x(t, (pe.position.x + l.offset.x) as i64),
                    y: tf_y(t, (pe.position.y + l.offset.y) as i64),
                },
                PaintOp::Stroke,
            ],
        ),
        Element::Text(tx) => if !fm.contains_key((tx.font_family@, tx.font_style@)) {
            Err(RenderErrorG::MissingFont(tx.font_family@, tx.font_style@))
        } else {
            Ok(
                seq![
                    PaintOp::SetFontFace { face: fm[(tx.font_family@, tx.font_style@)] },
                    PaintOp::SetFontSize { size: (t.scale * tx.font_size) as i64 },
                    PaintOp::SetColor { r: tx.color.r, g: tx.color.g, b: tx.color.b },
                ] + glyph_ops(t, offset_glyphs(pe.position, tx.glyphs@)),
            )
        },
        Element::Scaled(children, k) => elements_ops(
            fm,
            scaled(translated(t, pe.position.x, pe.position.y), k),
            children@,
        ),
        Element::Svg(s) => Ok(
            seq![
                PaintOp::Svg {
                    drawable: s.drawable,
                    x: tf_x(t, pe.position.x),
                    y: tf_y(t, pe.position.y),
                },
            ],
        ),
    }
}

/// The operations of a list of placed elements, painted in order.
pub open spec fn elements_ops(
    fm: Map<(Seq<char>, Seq<char>), u64>,
    t: Transform,
    elems: Seq<PlacedElement>,
) -> Result<Seq<PaintOp>, RenderErrorG<Seq<char>>>
    decreases elems,
{
    if elems.len() == 0 {
        Ok(Seq::empty())
    } else {
        match element_ops(fm, t, elems[0]) {
            Err(e) => Err(e),
            Ok(h) => match elements_ops(fm, t, elems.subrange(1, elems.len() as int)) {
                Err(e) => Err(e),
                Ok(r) => Ok(h + r),
            },
        }
    }
}

/// Whether painting `pe` under `t` stays within the machine range.
pub open spec fn element_paintable(t: Transform, pe: PlacedElement) -> bool
    decreases pe,
{
    match pe.element {
        Element::Line(l) => {
            &&& tf_ok(t, pe.position.x, pe.position.y)
            &&& in_i64(pe.position.x + l.offset.x)
            &&& in_i64(pe.position.y + l.offset.y)
            &&& tf_ok(t, (pe.position.x + l.offset.x) as i64, (pe.position.y + l.offset.y) as i64)
            &&& in_i64(t.scale * l.line_width)
        },
        Element::Text(tx) => {
            &&& in_i64(t.scale * tx.font_size)
            &&& forall|i: int|
                0 <= i < tx.glyphs@.len() ==> {
                    &&& in_i64(pe.position.x + tx.glyphs@[i].x)
                    &&& in_i64(pe.position.y + tx.glyphs@[i].y)
                    &&& tf_ok(
                        t,
                        (pe.position.x + tx.glyphs@[i].x) as i64,
                        (pe.position.y + tx.glyphs@[i].y) as i64,
                    )
                }
        },
        Element::Scaled(children, k) => {
            &&& tf_ok(t, pe.position.x, pe.position.y)
            &&& in_i64(t.scale * k)
            &&& elements_paintable(
                scaled(translated(t, pe.position.x, pe.position.y), k),
                children@,
            )
        },
        Element::Svg(s) => tf_ok(t, pe.position.x, pe.position.y),
    }
}

/// Whether painting each element of the list stays in range.
pub open spec fn elements_paintable(t: Transform, elems: Seq<PlacedElement>) -> bool
    decreases elems,
{
    if elems.len() == 0 {
        true
    } else {
        element_paintable(t, elems[0]) && elements_paintable(
            t,
            elems.subrange(1, elems.len() as int),
        )
    }
}

/// Prepends already-emitted operations to the rest's result.
pub open spec fn prepend_ops(
    p: Seq<PaintOp>,
    r: Result<Seq<PaintOp>, RenderErrorG<Seq<char>>>,
) -> Result<Seq<PaintOp>, RenderErrorG<Seq<char>>> {
    match r {
        Ok(t) => Ok(p + t),
        Err(e) => Err(e),
    }
}

proof fn lemma_prepend_ops(
    a: Seq<PaintOp>,
    b: Seq<PaintOp>,
    r: Result<Seq<PaintOp>, RenderErrorG<Seq<char>>>,
)
    ensures
        prepend_ops(a, prepend_ops(b, r)) == prepend_ops(a + b, r),
{
    match r {
        Ok(t) => {
            assert(a + (b + t) =~= (a + b) + t);
        },
        Err(_) => {},
    }
}

/// The operations that fill the whole canvas with the background
/// color: a full-canvas rectangle, the color, a fill.
pub open spec fn background_ops(t: Transform, c: Color) -> Seq<PaintOp> {
    seq![
        PaintOp::Rect {
            x: tf_x(t, 0),
            y: tf_y(t, 0),
            w: (t.scale * CANVAS_WIDTH) as i64,
            h: (t.scale * CANVAS_HEIGHT) as i64,
        },
        PaintOp::SetColor { r: c.r, g: c.g, b: c.b },
        PaintOp::Fill,
    ]
}

/// The operations that painting one frame emits: the background fill
/// if the frame's environment binds `background_color` to a color
/// (absence or another kind silently skips the fill), then each
/// top-level element in order, then the page advance.
pub open spec fn frame_ops(
    fm: Map<(Seq<char>, Seq<char>), u64>,
    t: Transform,
    f: Frame,
) -> Result<Seq<PaintOp>, RenderErrorG<Seq<char>>> {
    let bg = if f.env@.contains_key("background_color"@) {
        match f.env@["background_color"@] {
            SpecVal::Col(r, g, b) => background_ops(
                t,
                Color { r: r as i64, g: g as i64, b: b as i64 },
            ),
            _ => Seq::empty(),
        }
    } else {
        Seq::empty()
    };
    match elements_ops(fm, t, f.elements@) {
        Err(e) => Err(e),
        Ok(eo) => Ok(bg + eo + seq![PaintOp::ShowPage]),
    }
}

/// Fills the entire canvas with `color`.
fn draw_background(cr: &mut Canvas, color: Color)
    requires
        in_i64(old(cr).matrix().scale * CANVAS_WIDTH),
        in_i64(old(cr).matrix().scale * CANVAS_HEIGHT),
    ensures
        final(cr).matrix() == old(cr).matrix(),
        final(cr).log() == old(cr).log() + background_ops(old(cr).matrix(), color),
{
    cr.rectangle(0, 0, CANVAS_WIDTH, CANVAS_HEIGHT);
    cr.set_source_rgb(color.r, color.g, color.b);
    cr.fill();
    proof {
        assert(cr.log() =~= old(cr).log() + background_ops(old(cr).matrix(), color));
    }
}

/// Paints one placed element under the canvas's current transform.
///
/// The transform after the call is bit-identical to the one before,
/// whether painting succeeded or a descent failed: composite elements
/// save it, paint their children under the composed transform, and
/// restore it on every exit path.
#[verifier::loop_isolation(false)]
pub fn draw_element(fm: &FontMap, cr: &mut Canvas, pe: &PlacedElement) -> (r: Result<
    (),
    RenderError,
>)
    requires
        element_paintable(old(cr).matrix(), *pe),
    ensures
        final(cr).matrix() == old(cr).matrix(),
        match r {
            Ok(u) => element_ops(fm@, old(cr).matrix(), *pe) matches Ok(ops) && final(cr).log()
                == old(cr).log() + ops,
            Err(e) => element_ops(fm@, old(cr).matrix(), *pe) == Err::<Seq<PaintOp>, _>(e@),
        },
    decreases *pe,
{
    let ghost t = cr.matrix();
    match &pe.element {
        Element::Line(l) => {
            cr.move_to(pe.position.x, pe.position.y);
            cr.set_source_rgb(l.color.r, l.color.g, l.color.b);
            cr.set_line_width(l.line_width);
            cr.line_to(pe.position.x + l.offset.x, pe.position.y + l.offset.y);
            cr.stroke();
            proof {
                assert(cr.log() =~= old(cr).log() + element_ops(fm@, t, *pe)->Ok_0);
            }
            Ok(())
        },
        Element::Text(tx) => {
            match fm.get(&tx.font_family, &tx.font_style) {
                None => Err(RenderError::MissingFont(
                    tx.font_family.clone(),
                    tx.font_style.clone(),
                )),
                Some(face) => {
                    cr.set_font_face(face);
                    cr.set_font_size(tx.font_size);
                    cr.set_source_rgb(tx.color.r, tx.color.g, tx.color.b);
                    let n = tx.glyphs.len();
                    let mut gs: Vec<Glyph> = Vec::new();
                    let mut i: usize = 0;
                    while i < n
                        invariant
                            i <= n,
                            gs@ == offset_glyphs(pe.position, tx.glyphs@.subrange(0, i as int)),
                        decreases n - i,
                    {
                        let g = tx.glyphs[i];
                        gs.push(
                            Glyph {
                                index: g.index,
                                x: pe.position.x + g.x,
                                y: pe.position.y + g.y,
                            },
                        );
                        proof {
                            assert(gs@ =~= offset_glyphs(
                                pe.position,
                                tx.glyphs@.subrange(0, i + 1),
                            ));
                        }
                        i = i + 1;
                    }
                    proof {
                        assert(tx.glyphs@.subrange(0, n as int) =~= tx.glyphs@);
                    }
                    cr.show_glyphs(&gs);
                    proof {
                        assert(cr.log() =~= old(cr).log() + element_ops(fm@, t, *pe)->Ok_0);
                    }
                    Ok(())
                },
            }
        },
        Element::Scaled(children, k) => {
            let saved = cr.get_matrix();
            cr.translate(pe.position.x, pe.position.y);
            cr.scale(*k);
            let ghost t2 = scaled(translated(t, pe.position.x, pe.position.y), *k);
            let ghost base = old(cr).log();
            let ghost mut acc: Seq<PaintOp> = Seq::empty();
            let n = children.len();
            let mut i: usize = 0;
            proof {
                assert(children@.subrange(0, n as int) =~= children@);
                assert(base + acc =~= base);
            }
            while i < n
                invariant
                    i <= n,
                    cr.matrix() == t2,
                    cr.log() == base + acc,
                    elements_paintable(t2, children@.subrange(i as int, n as int)),
                    elements_ops(fm@, t2, children@) == prepend_ops(
                        acc,
                        elements_ops(fm@, t2, children@.subrange(i as int, n as int)),
                    ),
                decreases n - i,
            {
                let ghost rest = children@.subrange(i as int, n as int);
                proof {
                    assert(rest[0] == children@[i as int]);
                    assert(rest.subrange(1, rest.len() as int) =~= children@.subrange(
                        i + 1,
                        n as int,
                    ));
                }
                match draw_element(fm, cr, &children[i]) {
                    Err(e) => {
                        cr.set_matrix(saved);
                        return Err(e);
                    },
                    Ok(u) => {},
                }
                proof {
                    let h = element_ops(fm@, t2, children@[i as int])->Ok_0;
                    lemma_prepend_ops(
                        acc,
                        h,
                        elements_ops(fm@, t2, children@.subrange(i + 1, n as int)),
                    );
                    acc = acc + h;
                }
                i = i + 1;
            }
            cr.set_matrix(saved);
            proof {
                assert(children@.subrange(n as int, n as int) =~= Seq::<PlacedElement>::empty());
                assert(acc + Seq::<PaintOp>::empty() =~= acc);
            }
            Ok(())
        },
        Element::Svg(s) => {
            let saved = cr.get_matrix();
            cr.translate(pe.position.x, pe.position.y);
            cr.draw_svg(s.drawable);
            cr.set_matrix(saved);
            proof {
                assert(cr.log() =~= old(cr).log() + element_ops(fm@, t, *pe)->Ok_0);
            }
            Ok(())
        },
    }
}

/// Paints exactly one page: the background fill if the frame's
/// environment resolves `background_color` to a color, then each
/// top-level element in list order, then the page advance.
#[verifier::loop_isolation(false)]
pub fn render_frame(fm: &FontMap, cr: &mut Canvas, frame: &Frame) -> (r: Result<(), RenderError>)
    requires
        in_i64(old(cr).matrix().scale * CANVAS_WIDTH),
        in_i64(old(cr).matrix().scale * CANVAS_HEIGHT),
        elements_paintable(old(cr).matrix(), frame.elements@),
    ensures
        final(cr).matrix() == old(cr).matrix(),
        match r {
            Ok(u) => frame_ops(fm@, old(cr).matrix(), *frame) matches Ok(ops) && final(cr).log()
                == old(cr).log() + ops,
            Err(e) => frame_ops(fm@, old(cr).matrix(), *frame) == Err::<Seq<PaintOp>, _>(e@),
        },
{
    let ghost t = cr.matrix();
    let mut path: Vec<String> = Vec::new();
    path.push(String::from_str("background_color"));
    let var_bgcolor = Idents(path);
    proof {
        assert(var_bgcolor.0@.len() == 1);
        assert(var_bgcolor.0@[0]@ == "background_color"@);
    }
    match frame.env.lookup(&var_bgcolor) {
        Ok(v) => {
            proof {
                crate::interpreter::lemma_col_view(v);
            }
            match v {
                Val::Col(r, g, b) => draw_background(cr, Color { r, g, b }),
                _ => {},
            }
        },
        Err(e) => {},
    }
    let ghost bg = cr.log().subrange(old(cr).log().len() as int, cr.log().len() as int);
    proof {
        assert(cr.log() =~= old(cr).log() + bg);
    }
    let ghost base = cr.log();
    let ghost mut acc: Seq<PaintOp> = Seq::empty();
    let n = frame.elements.len();
    let mut i: usize = 0;
    proof {
        assert(frame.elements@.subrange(0, n as int) =~= frame.elements@);
        assert(base + acc =~= base);
    }
    while i < n
        invariant
            i <= n,
            cr.matrix() == t,
            cr.log() == base + acc,
            elements_paintable(t, frame.elements@.subrange(i as int, n as int)),
            elements_ops(fm@, t, frame.elements@) == prepend_ops(
                acc,
                elements_ops(fm@, t, frame.elements@.subrange(i as int, n as int)),
            ),
        decreases n - i,
    {
        let ghost rest = frame.elements@.subrange(i as int, n as int);
        proof {
            assert(rest[0] == frame.elements@[i as int]);
            assert(rest.subrange(1, rest.len() as int) =~= frame.elements@.subrange(
                i + 1,
                n as int,
            ));
        }
        match draw_element(fm, cr, &frame.elements[i]) {
            Err(e) => {
                return Err(e);
            },
            Ok(u) => {},
        }
        proof {
            let h = element_ops(fm@, t, frame.elements@[i as int])->Ok_0;
            lemma_prepend_ops(
                acc,
                h,
                elements_ops(fm@, t, frame.elements@.subrange(i + 1, n as int)),
            );
            acc = acc + h;
        }
        i = i + 1;
    }
    cr.show_page();
    proof {
        assert(frame.elements@.subrange(n as int, n as int) =~= Seq::<PlacedElement>::empty());
        assert(acc + Seq::<PaintOp>::empty() =~= acc);
        assert(cr.log() =~= old(cr).log() + (bg + acc + seq![PaintOp::ShowPage]));
    }
    Ok(())
}

/// Whether `pe` is a chain of `depth` single-child `Scaled` wrappers
/// around `inner`.
pub open spec fn scaled_chain(pe: PlacedElement, inner: PlacedElement, depth: nat) -> bool
    decreases depth,
{
    if depth == 0 {
        pe == inner
    } else {
        pe.element matches Element::Scaled(ch, k) && ch@.len() == 1 && scaled_chain(
            ch@[0],
            inner,
            (depth - 1) as nat,
        )
    }
}

/// The outer-to-inner composition of each ancestor's translate-then-
/// scale along a chain of `Scaled` wrappers.
pub open spec fn chain_transform(t: Transform, pe: PlacedElement, depth: nat) -> Transform
    decreases depth,
{
    if depth == 0 {
        t
    } else {
        match pe.element {
            Element::Scaled(ch, k) => chain_transform(
                scaled(translated(t, pe.position.x, pe.position.y), k),
                ch@[0],
                (depth - 1) as nat,
            ),
            _ => t,
        }
    }
}

/// Transform-stack law: an element nested at depth `n` inside `n`
/// composite ancestors is painted under exactly the outer-to-inner
/// composition of each ancestor's translate-then-scale. (That a
/// sibling painted after a composite subtree observes a transform
/// bit-identical to the one before it is the `ensures` of
/// `draw_element`: the canvas matrix after the call equals the one
/// before, on success and on failure alike.)
pub proof fn lemma_nested_transform(
    fm: Map<(Seq<char>, Seq<char>), u64>,
    t: Transform,
    pe: PlacedElement,
    inner: PlacedElement,
    depth: nat,
)
    requires
        scaled_chain(pe, inner, depth),
    ensures
        element_ops(fm, t, pe) == element_ops(fm, chain_transform(t, pe, depth), inner),
    decreases depth,
{
    if depth > 0 {
        match pe.element {
            Element::Scaled(ch, k) => {
                let t2 = scaled(translated(t, pe.position.x, pe.position.y), k);
                assert(ch@.subrange(1, 1) =~= Seq::<PlacedElement>::empty());
                assert(elements_ops(fm, t2, Seq::<PlacedElement>::empty()) == Ok::<
                    _,
                    RenderErrorG<Seq<char>>,
                >(Seq::<PaintOp>::empty()));
                match element_ops(fm, t2, ch@[0]) {
                    Ok(h) => {
                        assert(h + Seq::<PaintOp>::empty() =~= h);
                        assert(elements_ops(fm, t2, ch@) == Ok::<_, RenderErrorG<Seq<char>>>(h));
                    },
                    Err(e) => {
                        assert(elements_ops(fm, t2, ch@) == Err::<Seq<PaintOp>, _>(e));
                    },
                }
                assert(element_ops(fm, t, pe) == elements_ops(fm, t2, ch@));
                assert(chain_transform(t, pe, depth) == chain_transform(
                    t2,
                    ch@[0],
                    (depth - 1) as nat,
                ));
                lemma_nested_transform(fm, t2, ch@[0], inner, (depth - 1) as nat);
            },
            _ => {},
        }
    }
}

} // verus!
