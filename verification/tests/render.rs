use pris::ast::{Num, Stmt, Term, Unit};
use pris::canvas::{Canvas, PaintOp};
use pris::driver::{render_frame, FontMap, RenderError};
use pris::elements::{
    Color, Element, Frame, Glyph, LineElement, PlacedElement, SvgElement, TextRun, Vec2,
};
use pris::interpreter::{eval_document, eval_statement, Env};

const FUEL: u32 = 100;

fn line_at(x: i64, y: i64, dx: i64, dy: i64, width: i64, color: Color) -> PlacedElement {
    PlacedElement {
        position: Vec2 { x, y },
        element: Element::Line(LineElement { color, line_width: width, offset: Vec2 { x: dx, y: dy } }),
    }
}

#[test]
fn background_and_line_render_one_page() {
    // A document binding the background color, and one frame holding
    // a single horizontal line placed at the origin.
    let doc = pris::ast::Document(vec![Stmt::Assign(
        "background_color".to_string(),
        Term::Color(1000, 500, 0),
    )]);
    let env = eval_document(&doc, FUEL).expect("document must evaluate");
    let red = Color { r: 200, g: 0, b: 0 };
    let frame = Frame { env, elements: vec![line_at(0, 0, 300, 0, 6, red)] };

    let fm = FontMap::new();
    let mut cr = Canvas::new();
    render_frame(&fm, &mut cr, &frame).expect("rendering must succeed");

    let expected = vec![
        PaintOp::Rect { x: 0, y: 0, w: 1920, h: 1080 },
        PaintOp::SetColor { r: 1000, g: 500, b: 0 },
        PaintOp::Fill,
        PaintOp::MoveTo { x: 0, y: 0 },
        PaintOp::SetColor { r: 200, g: 0, b: 0 },
        PaintOp::SetLineWidth { w: 6 },
        PaintOp::LineTo { x: 300, y: 0 },
        PaintOp::Stroke,
        PaintOp::ShowPage,
    ];
    assert_eq!(cr.recorded(), &expected);
}

#[test]
fn missing_background_skips_fill() {
    let frame = Frame { env: Env::new(), elements: vec![] };
    let fm = FontMap::new();
    let mut cr = Canvas::new();
    render_frame(&fm, &mut cr, &frame).expect("rendering must succeed");
    assert_eq!(cr.recorded(), &vec![PaintOp::ShowPage]);
}

#[test]
fn non_color_background_skips_fill() {
    let mut env = Env::new();
    let assign = Stmt::Assign(
        "background_color".to_string(),
        Term::Number(Num(3, Some(Unit::Pt))),
    );
    assert!(eval_statement(&mut env, &assign, FUEL).is_ok());
    let frame = Frame { env, elements: vec![] };
    let fm = FontMap::new();
    let mut cr = Canvas::new();
    render_frame(&fm, &mut cr, &frame).expect("rendering must succeed");
    assert_eq!(cr.recorded(), &vec![PaintOp::ShowPage]);
}

#[test]
fn nested_scaled_composes_transforms() {
    // A line nested in two scaled groups: the device coordinates are
    // the outer-to-inner composition of each translate-then-scale.
    let inner = line_at(1, 1, 2, 0, 1, Color { r: 0, g: 0, b: 0 });
    let mid = PlacedElement {
        position: Vec2 { x: 5, y: 5 },
        element: Element::Scaled(vec![inner], 3),
    };
    let outer = PlacedElement {
        position: Vec2 { x: 10, y: 10 },
        element: Element::Scaled(vec![mid], 2),
    };
    let sibling = PlacedElement {
        position: Vec2 { x: 7, y: 8 },
        element: Element::Svg(SvgElement { drawable: 4 }),
    };
    let frame = Frame { env: Env::new(), elements: vec![outer, sibling] };

    let fm = FontMap::new();
    let mut cr = Canvas::new();
    render_frame(&fm, &mut cr, &frame).expect("rendering must succeed");

    // Outer: translate (10,10), scale 2; inner: translate to
    // (2*5+10, 2*5+10) = (20,20), scale 6.
    let expected = vec![
        PaintOp::MoveTo { x: 6 * 1 + 20, y: 6 * 1 + 20 },
        PaintOp::SetColor { r: 0, g: 0, b: 0 },
        PaintOp::SetLineWidth { w: 6 },
        PaintOp::LineTo { x: 6 * 3 + 20, y: 6 * 1 + 20 },
        PaintOp::Stroke,
        // The sibling after the subtree sees the untouched transform.
        PaintOp::Svg { drawable: 4, x: 7, y: 8 },
        PaintOp::ShowPage,
    ];
    assert_eq!(cr.recorded(), &expected);
}

#[test]
fn text_uses_registered_font() {
    let mut fm = FontMap::new();
    fm.insert("Sans".to_string(), "Regular".to_string(), 11);
    let text = PlacedElement {
        position: Vec2 { x: 100, y: 200 },
        element: Element::Text(TextRun {
            glyphs: vec![Glyph { index: 7, x: 0, y: 0 }, Glyph { index: 8, x: 12, y: 0 }],
            font_family: "Sans".to_string(),
            font_style: "Regular".to_string(),
            font_size: 24,
            color: Color { r: 1, g: 2, b: 3 },
        }),
    };
    let frame = Frame { env: Env::new(), elements: vec![text] };
    let mut cr = Canvas::new();
    render_frame(&fm, &mut cr, &frame).expect("rendering must succeed");
    let expected = vec![
        PaintOp::SetFontFace { face: 11 },
        PaintOp::SetFontSize { size: 24 },
        PaintOp::SetColor { r: 1, g: 2, b: 3 },
        PaintOp::Glyph { glyph: 7, x: 100, y: 200 },
        PaintOp::Glyph { glyph: 8, x: 112, y: 200 },
        PaintOp::ShowPage,
    ];
    assert_eq!(cr.recorded(), &expected);
}

#[test]
fn missing_font_is_a_consistency_error_and_restores_transform() {
    let fm = FontMap::new();
    let text = PlacedElement {
        position: Vec2 { x: 0, y: 0 },
        element: Element::Text(TextRun {
            glyphs: vec![],
            font_family: "Sans".to_string(),
            font_style: "Regular".to_string(),
            font_size: 24,
            color: Color { r: 0, g: 0, b: 0 },
        }),
    };
    let wrapped = PlacedElement {
        position: Vec2 { x: 50, y: 50 },
        element: Element::Scaled(vec![text], 2),
    };
    let frame = Frame { env: Env::new(), elements: vec![wrapped] };
    let mut cr = Canvas::new();
    let before = cr.get_matrix();
    match render_frame(&fm, &mut cr, &frame) {
        Err(RenderError::MissingFont(family, style)) => {
            assert_eq!(family, "Sans");
            assert_eq!(style, "Regular");
        },
        _ => panic!("expected a missing-font error"),
    }
    assert_eq!(before, cr.get_matrix());
}

#[test]
fn font_map_later_entry_wins() {
    let mut fm = FontMap::new();
    fm.insert("Sans".to_string(), "Regular".to_string(), 1);
    fm.insert("Sans".to_string(), "Regular".to_string(), 2);
    assert_eq!(fm.get(&"Sans".to_string(), &"Regular".to_string()), Some(2));
    assert_eq!(fm.get(&"Sans".to_string(), &"Bold".to_string()), None);
}
