use snipview::geometry::{physical_coord, to_physical, PhysPoint, Point, Scale};
use snipview::magnifier::{place_viewport, render_magnifier, MagnifierConfig, ScreenRect, Viewport};
use snipview::overlay::{LogicalRect, Overlay};
use snipview::raster::{extract, Extraction, Raster, Rgba};
use snipview::selection::{crop_rect, Action, CropRect, FrameInput, Selection};

const ONE: Scale = Scale { num: 1, den: 1 };
const SCREEN: ScreenRect = ScreenRect { min_x: 0, min_y: 0, max_x: 1920, max_y: 1080 };

fn pt(x: i32, y: i32) -> Point {
    Point { x, y }
}

fn input(cancel: bool, down: bool, x: i32, y: i32) -> FrameInput {
    FrameInput { cancel, primary_down: down, pointer: Some(pt(x, y)), scale: ONE }
}

/// A raster whose pixel (x, y) is (x, y, x + y, 255).
fn gradient(w: u32, h: u32) -> Raster {
    let mut bytes = Vec::new();
    for y in 0..h {
        for x in 0..w {
            bytes.extend_from_slice(&[x as u8, y as u8, (x + y) as u8, 255]);
        }
    }
    Raster::from_rgba(w, h, bytes).unwrap()
}

#[test]
fn physical_coord_rounds_down() {
    let s = Scale { num: 3, den: 2 };
    assert_eq!(physical_coord(3, s), 4);
    assert_eq!(physical_coord(-3, s), -5);
    assert_eq!(physical_coord(0, s), 0);
    assert_eq!(to_physical(pt(10, 7), Scale { num: 2, den: 1 }), PhysPoint { x: 20, y: 14 });
}

#[test]
fn physical_coord_is_linear_within_a_pixel() {
    let s = Scale { num: 5, den: 4 };
    for a in -20..20 {
        for b in -20..20 {
            let d = physical_coord(a + b, s) - physical_coord(a, s) - physical_coord(b, s);
            assert!(d == 0 || d == 1);
        }
        let p = physical_coord(a, s);
        let back = (p * 4).div_euclid(5);
        assert!(back == a as i64 || back == a as i64 - 1);
    }
}

#[test]
fn drag_at_unit_scale_gives_200_by_150() {
    let mut sel = Selection::new();
    assert_eq!(sel.step(input(false, true, 100, 100)), Action::Continue);
    assert_eq!(sel.step(input(false, true, 200, 180)), Action::Continue);
    let rect = CropRect { x0: 100, y0: 100, x1: 300, y1: 250 };
    assert_eq!(sel.step(input(false, false, 300, 250)), Action::Extract(rect));
    let screen = gradient(1920, 1080);
    match extract(Some(&screen), rect) {
        Extraction::Cropped(img) => {
            assert_eq!((img.width(), img.height()), (200, 150));
            assert_eq!(img.pixel(0, 0), screen.pixel(100, 100));
            assert_eq!(img.pixel(199, 149), screen.pixel(299, 249));
        },
        Extraction::Capture(_) => panic!("a frame was buffered"),
    }
}

#[test]
fn crop_rect_ignores_drag_direction() {
    let s = Scale { num: 3, den: 2 };
    let a = pt(300, -5);
    let b = pt(101, 3);
    assert_eq!(crop_rect(a, b, s), crop_rect(b, a, s));
    assert_eq!(crop_rect(a, b, s), CropRect { x0: 151, y0: -8, x1: 450, y1: 4 });
}

#[test]
fn extract_clamps_out_of_range_rectangles() {
    let img = gradient(10, 8);
    let r = CropRect { x0: -5, y0: 6, x1: 30, y1: 20 };
    match extract(Some(&img), r) {
        Extraction::Cropped(c) => {
            assert_eq!((c.width(), c.height()), (10, 2));
            assert_eq!(c.pixel(3, 1), Rgba { r: 3, g: 7, b: 10, a: 255 });
        },
        Extraction::Capture(_) => panic!("a frame was buffered"),
    }
}

#[test]
fn extract_degenerate_rectangle_is_empty() {
    let img = gradient(10, 8);
    for r in [
        CropRect { x0: 4, y0: 4, x1: 4, y1: 7 },
        CropRect { x0: 20, y0: 20, x1: 40, y1: 40 },
        CropRect { x0: -9, y0: -9, x1: -1, y1: -1 },
        CropRect { x0: 8, y0: 2, x1: 3, y1: 6 },
        CropRect { x0: 2, y0: 7, x1: 6, y1: 1 },
    ] {
        match extract(Some(&img), r) {
            Extraction::Cropped(c) => {
                assert_eq!(c.width() as u64 * c.height() as u64, 0);
                assert!(c.as_bytes().is_empty());
            },
            Extraction::Capture(_) => panic!("a frame was buffered"),
        }
    }
}

#[test]
fn extract_without_frame_asks_for_capture() {
    let mut sel = Selection::new();
    sel.step(input(false, true, 100, 100));
    let action = sel.step(input(false, false, 300, 250));
    let rect = match action {
        Action::Extract(r) => r,
        _ => panic!("release must commit"),
    };
    match extract(None, rect) {
        Extraction::Capture(r) => {
            assert_eq!(r, CropRect { x0: 100, y0: 100, x1: 300, y1: 250 });
            assert_eq!((r.x1 - r.x0, r.y1 - r.y0), (200, 150));
        },
        Extraction::Cropped(_) => panic!("no frame was buffered"),
    }
}

#[test]
fn cancel_while_idle_or_dragging_closes_without_extracting() {
    let mut idle = Selection::new();
    assert_eq!(idle.step(input(true, false, 5, 5)), Action::Close);
    assert_eq!(idle, Selection::Cancelled);
    assert_eq!(idle.step(input(false, true, 5, 5)), Action::Continue);
    assert_eq!(idle.step(input(false, false, 9, 9)), Action::Continue);

    let mut drag = Selection::new();
    drag.step(input(false, true, 5, 5));
    assert_eq!(drag.step(input(true, true, 8, 8)), Action::Close);
    assert_eq!(drag.step(input(false, false, 9, 9)), Action::Continue);
    assert_eq!(drag, Selection::Cancelled);
}

#[test]
fn at_most_one_extraction_per_session() {
    let mut sel = Selection::new();
    let frames = [
        input(false, false, 1, 1),
        input(false, true, 2, 2),
        input(false, true, 3, 4),
        input(false, false, 5, 6),
        input(false, true, 7, 7),
        input(false, false, 8, 8),
        input(true, false, 8, 8),
    ];
    let n = frames.iter().filter(|f| matches!(sel.step(**f), Action::Extract(_))).count();
    assert_eq!(n, 1);
    assert_eq!(sel, Selection::Committed { anchor: pt(2, 2), release: pt(5, 6) });
}

#[test]
fn press_without_pointer_stays_idle() {
    let mut sel = Selection::new();
    let f = FrameInput { cancel: false, primary_down: true, pointer: None, scale: ONE };
    assert_eq!(sel.step(f), Action::Continue);
    assert_eq!(sel, Selection::Idle);
}

#[test]
fn magnifier_flips_below_and_right_near_top_left() {
    let v = place_viewport(pt(5, 5), 80, SCREEN);
    assert_eq!(v, Viewport { cx: 101, cy: 101, radius: 80 });
    assert!(v.cx - 80 >= 0 && v.cy - 80 >= 0);
}

#[test]
fn magnifier_stays_on_screen_near_every_edge() {
    for &(x, y) in &[(0, 0), (1920, 0), (0, 1080), (1920, 1080), (960, 0), (0, 540), (1919, 540), (960, 1079)] {
        let v = place_viewport(pt(x, y), 80, SCREEN);
        assert!(v.cx - 80 >= 0 && v.cx + 80 <= 1920, "x at ({x}, {y})");
        assert!(v.cy - 80 >= 0 && v.cy + 80 <= 1080, "y at ({x}, {y})");
    }
    assert_eq!(place_viewport(pt(1900, 500), 80, SCREEN), Viewport { cx: 1804, cy: 404, radius: 80 });
}

#[test]
fn magnifier_samples_and_projects_pixels() {
    let img = gradient(40, 30);
    let c = MagnifierConfig { radius: 8, zoom: 4, offset_x: 0, offset_y: 0 };
    let mv = render_magnifier(c, SCREEN, pt(20, 15), ONE, Some(&img)).unwrap();
    assert_eq!(mv.viewport, Viewport { cx: 29, cy: 24, radius: 8 });
    assert_eq!(mv.pointer_px, PhysPoint { x: 20, y: 15 });
    // reach 2: columns and rows -2..2 around the pointer, all inside the square
    assert_eq!(mv.cells.len(), 16);
    let centre = mv.cells.iter().find(|c| c.x == 29 && c.y == 24).unwrap();
    assert_eq!(centre.color, img.pixel(20, 15));
    assert_eq!(centre.size, 4);
    let first = mv.cells[0];
    assert_eq!((first.x, first.y, first.color), (21, 16, img.pixel(18, 13)));
}

#[test]
fn magnifier_clips_to_square_and_image() {
    let img = gradient(40, 30);
    let c = MagnifierConfig { radius: 8, zoom: 4, offset_x: 5, offset_y: 0 };
    let mv = render_magnifier(c, SCREEN, pt(0, 0), ONE, Some(&img)).unwrap();
    // window 0..2 on both axes; x offset pushes column 1 out of the square
    assert_eq!(mv.cells.len(), 2);
    assert!(mv.cells.iter().all(|cell| cell.x <= mv.viewport.cx + 8));
}

#[test]
fn magnifier_off_image_draws_no_cells() {
    let img = gradient(40, 30);
    let c = MagnifierConfig { radius: 8, zoom: 4, offset_x: 0, offset_y: 0 };
    let mv = render_magnifier(c, SCREEN, pt(100, 10), ONE, Some(&img)).unwrap();
    assert!(mv.cells.is_empty());
    assert!(render_magnifier(c, SCREEN, pt(10, 10), ONE, None).is_none());
}

#[test]
fn overlay_update_reports_highlight_and_magnifier() {
    let mut o = Overlay::new();
    let img = gradient(400, 300);
    let out = o.update(input(false, true, 50, 40), SCREEN, Some(&img));
    assert_eq!(out.action, Action::Continue);
    let out = o.update(input(false, true, 20, 90), SCREEN, Some(&img));
    assert_eq!(out.highlight, Some(LogicalRect { min: pt(20, 40), max: pt(50, 90) }));
    assert_eq!(out.magnifier.unwrap().viewport, Viewport { cx: 116, cy: 186, radius: 80 });
    let out = o.update(input(false, false, 20, 90), SCREEN, None);
    assert_eq!(out.action, Action::Extract(CropRect { x0: 20, y0: 40, x1: 50, y1: 90 }));
    assert!(out.magnifier.is_none());
}

#[test]
fn raster_rejects_wrong_byte_count() {
    assert!(Raster::from_rgba(2, 2, vec![0; 15]).is_none());
    assert!(Raster::from_rgba(2, 2, vec![0; 16]).is_some());
    assert!(Raster::from_rgba(0, 5, Vec::new()).is_some());
}
