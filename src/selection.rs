use vstd::prelude::*;
use vstd::arithmetic::div_mod::lemma_div_is_ordered;
use vstd::arithmetic::mul::lemma_mul_inequality;
use crate::geometry::{Point, Scale, scale_coord, physical_coord};

verus! {

/// The physical-pixel box between two corners, `x0 <= x1` and `y0 <= y1`.
#[derive(Clone, Copy, Debug, PartialEq, Eq, Structural)]
pub struct CropRect {
    pub x0: i64,
    pub y0: i64,
    pub x1: i64,
    pub y1: i64,
}

impl CropRect {
    pub open spec fn wf(self) -> bool {
        self.x0 <= self.x1 && self.y0 <= self.y1
    }

    pub open spec fn width_spec(self) -> int {
        self.x1 - self.x0
    }

    pub open spec fn height_spec(self) -> int {
        self.y1 - self.y0
    }
}

pub open spec fn min_i(a: int, b: int) -> int {
    if a <= b { a } else { b }
}

pub open spec fn max_i(a: int, b: int) -> int {
    if a <= b { b } else { a }
}

/// The crop rectangle of a drag between two logical points: from the smaller
/// to the larger coordinate on each axis, scaled to physical pixels.
pub open spec fn crop_rect_of(a: Point, b: Point, s: Scale) -> CropRect {
    CropRect {
        x0: scale_coord(min_i(a.x as int, b.x as int), s) as i64,
        y0: scale_coord(min_i(a.y as int, b.y as int), s) as i64,
        x1: scale_coord(max_i(a.x as int, b.x as int), s) as i64,
        y1: scale_coord(max_i(a.y as int, b.y as int), s) as i64,
    }
}

proof fn lemma_scale_coord_monotone(u: int, v: int, s: Scale)
    requires
        s.wf(),
        u <= v,
    ensures
        scale_coord(u, s) <= scale_coord(v, s),
{
    lemma_mul_inequality(u, v, s.num as int);
    lemma_div_is_ordered(u * s.num, v * s.num, s.den as int);
}

/// The crop rectangle of a drag from `a` to `b`, normalised.
pub fn crop_rect(a: Point, b: Point, s: Scale) -> (r: CropRect)
    requires
        s.wf(),
    ensures
        r == crop_rect_of(a, b, s),
        r.wf(),
{
    let (lx, hx) = if a.x <= b.x { (a.x, b.x) } else { (b.x, a.x) };
    let (ly, hy) = if a.y <= b.y { (a.y, b.y) } else { (b.y, a.y) };
    proof {
        lemma_scale_coord_monotone(lx as int, hx as int, s);
        lemma_scale_coord_monotone(ly as int, hy as int, s);
    }
    CropRect {
        x0: physical_coord(lx, s),
        y0: physical_coord(ly, s),
        x1: physical_coord(hx, s),
        y1: physical_coord(hy, s),
    }
}

/// Swapping the anchor and the release of a drag gives the same rectangle.
pub proof fn lemma_crop_rect_order_independent(a: Point, b: Point, s: Scale)
    ensures
        crop_rect_of(a, b, s) == crop_rect_of(b, a, s),
{
}

/// What the host reports for one frame.
#[derive(Clone, Copy, Debug, PartialEq, Eq, Structural)]
pub struct FrameInput {
    /// Escape was pressed or the secondary button clicked.
    pub cancel: bool,
    /// The primary button is held.
    pub primary_down: bool,
    /// The pointer position, when the pointer is over the overlay.
    pub pointer: Option<Point>,
    /// Pixels per logical point.
    pub scale: Scale,
}

/// Where a drag gesture stands.
#[derive(Clone, Copy, Debug, PartialEq, Eq, Structural)]
pub enum Selection {
    Idle,
    Dragging { anchor: Point, current: Point },
    Committed { anchor: Point, release: Point },
    Cancelled,
}

/// What the host does after a frame.
#[derive(Clone, Copy, Debug, PartialEq, Eq, Structural)]
pub enum Action {
    /// Keep the overlay open.
    Continue,
    /// Close the overlay with no output.
    Close,
    /// Extract this rectangle, hand it to the output, and close.
    Extract(CropRect),
}

impl Selection {
    /// The session has ended, by a commit or a cancel.
    pub open spec fn is_terminal(self) -> bool {
        self is Committed || self is Cancelled
    }
}

pub open spec fn pointer_or(p: Option<Point>, fallback: Point) -> Point {
    match p {
        Some(q) => q,
        None => fallback,
    }
}

/// One frame of the selection state machine: the next state and the action.
pub open spec fn next(s: Selection, i: FrameInput) -> (Selection, Action) {
    match s {
        Selection::Committed { .. } | Selection::Cancelled => (s, Action::Continue),
        Selection::Idle => if i.cancel {
            (Selection::Cancelled, Action::Close)
        } else if i.primary_down && i.pointer is Some {
            let p = i.pointer->0;
            (Selection::Dragging { anchor: p, current: p }, Action::Continue)
        } else {
            (s, Action::Continue)
        },
        Selection::Dragging { anchor, current } => if i.cancel {
            (Selection::Cancelled, Action::Close)
        } else if i.primary_down {
            (Selection::Dragging { anchor, current: pointer_or(i.pointer, current) }, Action::Continue)
        } else {
            let release = pointer_or(i.pointer, current);
            (
                Selection::Committed { anchor, release },
                Action::Extract(crop_rect_of(anchor, release, i.scale)),
            )
        },
    }
}

/// The state after a run of frames.
pub open spec fn run(s: Selection, inputs: Seq<FrameInput>) -> Selection
    decreases inputs.len(),
{
    if inputs.len() == 0 {
        s
    } else {
        run(next(s, inputs[0]).0, inputs.subrange(1, inputs.len() as int))
    }
}

/// How many frames of a run ask for an extraction.
pub open spec fn extractions(s: Selection, inputs: Seq<FrameInput>) -> nat
    decreases inputs.len(),
{
    if inputs.len() == 0 {
        0
    } else {
        let (t, a) = next(s, inputs[0]);
        (if a is Extract { 1nat } else { 0nat }) + extractions(t, inputs.subrange(1, inputs.len() as int))
    }
}

proof fn lemma_terminal_stays(s: Selection, inputs: Seq<FrameInput>)
    requires
        s.is_terminal(),
    ensures
        run(s, inputs) == s,
        extractions(s, inputs) == 0,
    decreases inputs.len(),
{
    if inputs.len() > 0 {
        lemma_terminal_stays(s, inputs.subrange(1, inputs.len() as int));
    }
}

/// From any state, a run of frames asks for at most one extraction, and for
/// one exactly when it ends in `Committed` having started before it.
pub proof fn lemma_at_most_one_extraction(s: Selection, inputs: Seq<FrameInput>)
    ensures
        extractions(s, inputs) <= 1,
        !s.is_terminal() ==> (extractions(s, inputs) == 1 <==> run(s, inputs) is Committed),
        s.is_terminal() ==> extractions(s, inputs) == 0,
    decreases inputs.len(),
{
    if s.is_terminal() {
        lemma_terminal_stays(s, inputs);
    } else if inputs.len() > 0 {
        let rest = inputs.subrange(1, inputs.len() as int);
        let (t, a) = next(s, inputs[0]);
        lemma_at_most_one_extraction(t, rest);
        if t.is_terminal() {
            lemma_terminal_stays(t, rest);
        }
    }
}

/// A session starts idle: over any run of frames it extracts at most once, and
/// once exactly when the selection reaches `Committed`.
pub proof fn lemma_session_extracts_once_iff_committed(inputs: Seq<FrameInput>)
    ensures
        extractions(Selection::Idle, inputs) <= 1,
        extractions(Selection::Idle, inputs) == 1 <==> run(Selection::Idle, inputs) is Committed,
{
    lemma_at_most_one_extraction(Selection::Idle, inputs);
}

/// A cancel while idle or dragging closes the overlay, and no later frame of
/// the session extracts anything.
pub proof fn lemma_cancel_never_extracts(s: Selection, i: FrameInput, later: Seq<FrameInput>)
    requires
        s is Idle || s is Dragging,
        i.cancel,
    ensures
        next(s, i) == (Selection::Cancelled, Action::Close),
        extractions(s, seq![i] + later) == 0,
        run(s, seq![i] + later) is Cancelled,
{
    let all = seq![i] + later;
    assert(all[0] == i);
    assert(all.subrange(1, all.len() as int) =~= later);
    lemma_terminal_stays(Selection::Cancelled, later);
}

impl Selection {
    /// A fresh session, before any press.
    pub fn new() -> (r: Selection)
        ensures
            r is Idle,
    {
        Selection::Idle
    }

    /// Advance by one frame and report what the host must do.
    pub fn step(&mut self, input: FrameInput) -> (r: Action)
        requires
            input.scale.wf(),
        ensures
            (*final(self), r) == next(*old(self), input),
    {
        match *self {
            Selection::Committed { .. } | Selection::Cancelled => Action::Continue,
            Selection::Idle => {
                if input.cancel {
                    *self = Selection::Cancelled;
                    Action::Close
                } else if input.primary_down {
                    match input.pointer {
                        Some(p) => {
                            *self = Selection::Dragging { anchor: p, current: p };
                        },
                        None => {},
                    }
                    Action::Continue
                } else {
                    Action::Continue
                }
            },
            Selection::Dragging { anchor, current } => {
                let here = match input.pointer {
                    Some(p) => p,
                    None => current,
                };
                if input.cancel {
                    *self = Selection::Cancelled;
                    Action::Close
                } else if input.primary_down {
                    *self = Selection::Dragging { anchor, current: here };
                    Action::Continue
                } else {
                    *self = Selection::Committed { anchor, release: here };
                    Action::Extract(crop_rect(anchor, here, input.scale))
                }
            },
        }
    }
}

} // verus!
