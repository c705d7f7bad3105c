use vstd::prelude::*;
use vstd::arithmetic::div_mod::{lemma_fundamental_div_mod, lemma_mod_bound};
use crate::geometry::{Point, PhysPoint, Scale, physical_of, to_physical};
use crate::raster::{Raster, RasterView, Rgba};

verus! {

/// Fixed parameters of the magnifier for a session.
#[derive(Clone, Copy, Debug, PartialEq, Eq, Structural)]
pub struct MagnifierConfig {
    /// Half the side of the square viewport, in logical units.
    pub radius: u32,
    /// How many viewport units one source pixel covers.
    pub zoom: u32,
    /// Shift of the magnified image inside the viewport.
    pub offset_x: i32,
    pub offset_y: i32,
}

impl MagnifierConfig {
    pub open spec fn wf(self) -> bool {
        self.zoom > 0
    }
}

/// The screen's bounds in logical units.
#[derive(Clone, Copy, Debug, PartialEq, Eq, Structural)]
pub struct ScreenRect {
    pub min_x: i32,
    pub min_y: i32,
    pub max_x: i32,
    pub max_y: i32,
}

/// The magnifier's square: its center and half side, in logical units.
#[derive(Clone, Copy, Debug, PartialEq, Eq, Structural)]
pub struct Viewport {
    pub cx: i64,
    pub cy: i64,
    pub radius: u32,
}

/// How far the viewport's center sits from the pointer on each axis: 1.2 radii.
pub open spec fn gap(radius: int) -> int {
    radius * 6 / 5
}

/// The viewport's center on the x axis: right of the pointer, else left of it
/// when the right edge would leave the screen, else right again when the left
/// edge would leave it too.
pub open spec fn place_x(px: int, r: int, lo: int, hi: int) -> int {
    let right = px + gap(r);
    let x = if right + r > hi { px - gap(r) } else { right };
    if x - r < lo { right } else { x }
}

/// The viewport's center on the y axis: above the pointer, else below it when
/// the top edge would leave the screen, then pushed above by a further radius
/// when the bottom edge would leave it.
pub open spec fn place_y(py: int, r: int, lo: int, hi: int) -> int {
    let above = py - gap(r);
    let y = if above - r < lo { py + gap(r) } else { above };
    if y + r > hi { above - r } else { y }
}

pub open spec fn placement_of(p: Point, radius: u32, s: ScreenRect) -> Viewport {
    Viewport {
        cx: place_x(p.x as int, radius as int, s.min_x as int, s.max_x as int) as i64,
        cy: place_y(p.y as int, radius as int, s.min_y as int, s.max_y as int) as i64,
        radius,
    }
}

proof fn lemma_gap_bounds(r: int)
    requires
        0 <= r,
    ensures
        r <= gap(r) <= 2 * r,
{
    lemma_fundamental_div_mod(r * 6, 5);
    lemma_mod_bound(r * 6, 5);
}

/// Where the magnifier's viewport goes for a pointer at `p`.
pub fn place_viewport(p: Point, radius: u32, screen: ScreenRect) -> (r: Viewport)
    ensures
        r == placement_of(p, radius, screen),
{
    proof {
        lemma_gap_bounds(radius as int);
    }
    let rad: i64 = radius as i64;
    let g: i64 = rad * 6 / 5;
    let px: i64 = p.x as i64;
    let py: i64 = p.y as i64;
    let right = px + g;
    let mut x = if right + rad > screen.max_x as i64 { px - g } else { right };
    if x - rad < screen.min_x as i64 {
        x = right;
    }
    let above = py - g;
    let mut y = if above - rad < screen.min_y as i64 { py + g } else { above };
    if y + rad > screen.max_y as i64 {
        y = above - rad;
    }
    Viewport { cx: x, cy: y, radius }
}

/// For a pointer on a screen with room for the viewport on both sides of it,
/// the viewport lies wholly on the screen, on all four edges.
pub proof fn lemma_placement_on_screen(p: Point, radius: u32, s: ScreenRect)
    requires
        s.min_x <= p.x <= s.max_x,
        s.min_y <= p.y <= s.max_y,
        s.max_x - s.min_x >= 2 * (gap(radius as int) + radius),
        s.max_y - s.min_y >= 2 * (gap(radius as int) + radius),
    ensures
        ({
            let v = placement_of(p, radius, s);
            &&& s.min_x <= v.cx - radius
            &&& v.cx + radius <= s.max_x
            &&& s.min_y <= v.cy - radius
            &&& v.cy + radius <= s.max_y
        }),
{
    lemma_gap_bounds(radius as int);
}

/// One magnified source pixel: a filled square of side `size` centred at
/// `(x, y)` in logical units.
#[derive(Clone, Copy, Debug, PartialEq, Eq, Structural)]
pub struct Cell {
    pub x: i64,
    pub y: i64,
    pub size: u32,
    pub color: Rgba,
}

/// The source pixels sampled around the pointer: columns `x0..x1`, rows `y0..y1`.
#[derive(Clone, Copy, Debug, PartialEq, Eq, Structural)]
pub struct SampleWindow {
    pub x0: u32,
    pub x1: u32,
    pub y0: u32,
    pub y1: u32,
}

/// `reach` pixels before the pointer's physical position `m` and up to `reach`
/// after it on each axis, cut to the image.
pub open spec fn window_of(m: PhysPoint, reach: int, width: int, height: int) -> SampleWindow {
    SampleWindow {
        x0: (if m.x >= reach { m.x - reach } else { 0 }) as u32,
        x1: (if m.x + reach <= width { m.x + reach } else { width }) as u32,
        y0: (if m.y >= reach { m.y - reach } else { 0 }) as u32,
        y1: (if m.y + reach <= height { m.y + reach } else { height }) as u32,
    }
}

/// Where source pixel `(x, y)` lands in the viewport.
pub open spec fn projected(c: MagnifierConfig, v: Viewport, m: PhysPoint, x: int, y: int) -> (int, int) {
    (v.cx + (x - m.x) * c.zoom + c.offset_x, v.cy + (y - m.y) * c.zoom + c.offset_y)
}

pub open spec fn in_square(v: Viewport, q: (int, int)) -> bool {
    &&& v.cx - v.radius <= q.0 <= v.cx + v.radius
    &&& v.cy - v.radius <= q.1 <= v.cy + v.radius
}

pub open spec fn cell_of(f: RasterView, c: MagnifierConfig, v: Viewport, m: PhysPoint, x: int, y: int) -> Cell {
    let q = projected(c, v, m, x, y);
    Cell { x: q.0 as i64, y: q.1 as i64, size: c.zoom, color: f.pixel(x, y) }
}

/// The cells of row `y`, columns `x0..x`, that land inside the square.
pub open spec fn row_cells(
    f: RasterView,
    c: MagnifierConfig,
    v: Viewport,
    m: PhysPoint,
    x0: int,
    x: int,
    y: int,
) -> Seq<Cell>
    decreases x - x0,
{
    if x <= x0 {
        seq![]
    } else {
        let prev = row_cells(f, c, v, m, x0, x - 1, y);
        if in_square(v, projected(c, v, m, x - 1, y)) {
            prev.push(cell_of(f, c, v, m, x - 1, y))
        } else {
            prev
        }
    }
}

/// The cells of rows `w.y0..y` of the window, row by row.
pub open spec fn window_cells(
    f: RasterView,
    c: MagnifierConfig,
    v: Viewport,
    m: PhysPoint,
    w: SampleWindow,
    y: int,
) -> Seq<Cell>
    decreases y - w.y0,
{
    if y <= w.y0 {
        seq![]
    } else {
        window_cells(f, c, v, m, w, y - 1) + row_cells(f, c, v, m, w.x0 as int, w.x1 as int, y - 1)
    }
}

pub open spec fn pointer_in_image(m: PhysPoint, f: RasterView) -> bool {
    0 <= m.x < f.width && 0 <= m.y < f.height
}

/// What the host draws for the magnifier: the viewport square with its border
/// and crosshair at the center, the magnified cells, and the pointer's
/// physical coordinates below it.
pub struct MagnifierView {
    pub viewport: Viewport,
    pub pointer_px: PhysPoint,
    pub cells: Vec<Cell>,
}

proof fn lemma_reach_times_zoom(d: int, reach: int, c: MagnifierConfig)
    requires
        c.wf(),
        reach == c.radius as int / c.zoom as int,
        -reach <= d <= reach,
    ensures
        -(c.radius as int) <= d * c.zoom <= c.radius,
{
    let z = c.zoom as int;
    lemma_fundamental_div_mod(c.radius as int, z);
    lemma_mod_bound(c.radius as int, z);
    assert(reach * z == z * (c.radius as int / z)) by (nonlinear_arith)
        requires
            reach == c.radius as int / z,
    ;
    assert(-(reach * z) <= d * z <= reach * z) by (nonlinear_arith)
        requires
            -reach <= d <= reach,
            z > 0,
    ;
}

/// The magnifier for a pointer at `pointer`: `None` while no frame is
/// buffered; otherwise the placed viewport and, when the pointer lies on the
/// frame, every sampled pixel that lands inside the square.
pub fn render_magnifier(
    c: MagnifierConfig,
    screen: ScreenRect,
    pointer: Point,
    scale: Scale,
    frame: Option<&Raster>,
) -> (r: Option<MagnifierView>)
    requires
        c.wf(),
        scale.wf(),
    ensures
        frame is None <==> r is None,
        frame matches Some(f) ==> r matches Some(mv) && {
            let m = physical_of(pointer, scale);
            let v = placement_of(pointer, c.radius, screen);
            let w = window_of(m, c.radius as int / c.zoom as int, f@.width as int, f@.height as int);
            &&& mv.viewport == v
            &&& mv.pointer_px == m
            &&& mv.cells@ == if pointer_in_image(m, f@) {
                window_cells(f@, c, v, m, w, w.y1 as int)
            } else {
                Seq::<Cell>::empty()
            }
        },
{
    let f = match frame {
        None => {
            return None;
        },
        Some(f) => f,
    };
    let v = place_viewport(pointer, c.radius, screen);
    let m = to_physical(pointer, scale);
    let mut cells: Vec<Cell> = Vec::new();
    let width = f.width();
    let height = f.height();
    if m.x < 0 || m.x >= width as i64 || m.y < 0 || m.y >= height as i64 {
        return Some(MagnifierView { viewport: v, pointer_px: m, cells });
    }
    let reach: u32 = c.radius / c.zoom;
    let w = SampleWindow {
        x0: if m.x >= reach as i64 { (m.x - reach as i64) as u32 } else { 0 },
        x1: if m.x + reach as i64 <= width as i64 { (m.x + reach as i64) as u32 } else { width },
        y0: if m.y >= reach as i64 { (m.y - reach as i64) as u32 } else { 0 },
        y1: if m.y + reach as i64 <= height as i64 { (m.y + reach as i64) as u32 } else { height },
    };
    let ghost fv = f@;
    proof {
        lemma_gap_bounds(c.radius as int);
    }
    let lo_x: i64 = v.cx - c.radius as i64;
    let hi_x: i64 = v.cx + c.radius as i64;
    let lo_y: i64 = v.cy - c.radius as i64;
    let hi_y: i64 = v.cy + c.radius as i64;
    let mut y: u32 = w.y0;
    while y < w.y1
        invariant
            w == window_of(m, reach as int, width as int, height as int),
            reach == c.radius as int / c.zoom as int,
            c.wf(),
            fv == f@,
            width == fv.width,
            height == fv.height,
            0 <= m.x < width,
            0 <= m.y < height,
            w.y0 <= y <= w.y1,
            v == placement_of(pointer, c.radius, screen),
            lo_x == v.cx - c.radius,
            hi_x == v.cx + c.radius,
            lo_y == v.cy - c.radius,
            hi_y == v.cy + c.radius,
            -0x4_0000_0000 <= v.cx <= 0x4_0000_0000,
            -0x4_0000_0000 <= v.cy <= 0x4_0000_0000,
            cells@ == window_cells(fv, c, v, m, w, y as int),
        decreases w.y1 - y,
    {
        let dy: i64 = y as i64 - m.y;
        proof {
            lemma_reach_times_zoom(dy as int, reach as int, c);
        }
        let qy: i64 = v.cy + dy * c.zoom as i64 + c.offset_y as i64;
        let mut x: u32 = w.x0;
        while x < w.x1
            invariant
                w == window_of(m, reach as int, width as int, height as int),
                reach == c.radius as int / c.zoom as int,
                c.wf(),
                fv == f@,
                width == fv.width,
                height == fv.height,
                0 <= m.x < width,
                0 <= m.y < height,
                w.y0 <= y < w.y1,
                w.x0 <= x <= w.x1,
                v == placement_of(pointer, c.radius, screen),
                lo_x == v.cx - c.radius,
                hi_x == v.cx + c.radius,
                lo_y == v.cy - c.radius,
                hi_y == v.cy + c.radius,
                -0x4_0000_0000 <= v.cx <= 0x4_0000_0000,
                -0x4_0000_0000 <= v.cy <= 0x4_0000_0000,
                qy == projected(c, v, m, x as int, y as int).1,
                cells@ == window_cells(fv, c, v, m, w, y as int) + row_cells(
                    fv,
                    c,
                    v,
                    m,
                    w.x0 as int,
                    x as int,
                    y as int,
                ),
            decreases w.x1 - x,
        {
            let dx: i64 = x as i64 - m.x;
            proof {
                lemma_reach_times_zoom(dx as int, reach as int, c);
            }
            let qx: i64 = v.cx + dx * c.zoom as i64 + c.offset_x as i64;
            if lo_x <= qx && qx <= hi_x && lo_y <= qy && qy <= hi_y {
                let color = f.pixel(x, y);
                cells.push(Cell { x: qx, y: qy, size: c.zoom, color });
            }
            x = x + 1;
        }
        y = y + 1;
    }
    Some(MagnifierView { viewport: v, pointer_px: m, cells })
}

} // verus!
