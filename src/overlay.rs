use vstd::prelude::*;
use crate::geometry::{Point, physical_of};
use crate::magnifier::{MagnifierConfig, MagnifierView, ScreenRect, placement_of, render_magnifier};
use crate::raster::Raster;
use crate::selection::{Action, FrameInput, Selection, next, pointer_or};

verus! {

/// Default half side of the magnifier, in logical units.
pub const MAGNIFIER_RADIUS: u32 = 80;

/// Default magnification.
pub const MAGNIFIER_ZOOM: u32 = 4;

/// A logical rectangle given by its smaller and larger corners.
#[derive(Clone, Copy, Debug, PartialEq, Eq, Structural)]
pub struct LogicalRect {
    pub min: Point,
    pub max: Point,
}

pub open spec fn span_of(a: Point, b: Point) -> LogicalRect {
    LogicalRect {
        min: Point {
            x: if a.x <= b.x { a.x } else { b.x },
            y: if a.y <= b.y { a.y } else { b.y },
        },
        max: Point {
            x: if a.x <= b.x { b.x } else { a.x },
            y: if a.y <= b.y { b.y } else { a.y },
        },
    }
}

/// The region to leave undimmed: the drag so far, or the committed one.
pub open spec fn highlight_of(s: Selection) -> Option<LogicalRect> {
    match s {
        Selection::Dragging { anchor, current } => Some(span_of(anchor, current)),
        Selection::Committed { anchor, release } => Some(span_of(anchor, release)),
        _ => None,
    }
}

fn span(a: Point, b: Point) -> (r: LogicalRect)
    ensures
        r == span_of(a, b),
{
    LogicalRect {
        min: Point {
            x: if a.x <= b.x { a.x } else { b.x },
            y: if a.y <= b.y { a.y } else { b.y },
        },
        max: Point {
            x: if a.x <= b.x { b.x } else { a.x },
            y: if a.y <= b.y { b.y } else { a.y },
        },
    }
}

impl Selection {
    /// The selected region in logical units, while there is one.
    pub fn highlight(&self) -> (r: Option<LogicalRect>)
        ensures
            r == highlight_of(*self),
    {
        match *self {
            Selection::Dragging { anchor, current } => Some(span(anchor, current)),
            Selection::Committed { anchor, release } => Some(span(anchor, release)),
            _ => None,
        }
    }
}

/// The overlay's state for one session: the magnifier's settings and the drag.
pub struct Overlay {
    pub config: MagnifierConfig,
    pub selection: Selection,
}

/// What one frame asks of the host.
pub struct FrameOutput {
    pub action: Action,
    pub highlight: Option<LogicalRect>,
    pub magnifier: Option<MagnifierView>,
}

impl Overlay {
    /// An idle overlay with the default magnifier.
    pub fn new() -> (r: Overlay)
        ensures
            r.selection is Idle,
            r.config == (MagnifierConfig {
                radius: MAGNIFIER_RADIUS,
                zoom: MAGNIFIER_ZOOM,
                offset_x: 0,
                offset_y: 0,
            }),
    {
        Overlay {
            config: MagnifierConfig {
                radius: MAGNIFIER_RADIUS,
                zoom: MAGNIFIER_ZOOM,
                offset_x: 0,
                offset_y: 0,
            },
            selection: Selection::Idle,
        }
    }

    /// One frame: advance the selection, then lay out the magnifier around the
    /// pointer (at the origin when the host reports none), whatever the
    /// selection's state.
    pub fn update(&mut self, input: FrameInput, screen: ScreenRect, frame: Option<&Raster>) -> (r:
        FrameOutput)
        requires
            old(self).config.wf(),
            input.scale.wf(),
        ensures
            final(self).config == old(self).config,
            (final(self).selection, r.action) == next(old(self).selection, input),
            r.highlight == highlight_of(final(self).selection),
            r.magnifier is Some <==> frame is Some,
            r.magnifier matches Some(mv) ==> {
                let p = pointer_or(input.pointer, Point { x: 0, y: 0 });
                &&& mv.viewport == placement_of(p, old(self).config.radius, screen)
                &&& mv.pointer_px == physical_of(p, input.scale)
            },
    {
        let action = self.selection.step(input);
        let pointer = match input.pointer {
            Some(p) => p,
            None => Point { x: 0, y: 0 },
        };
        let magnifier = render_magnifier(self.config, screen, pointer, input.scale, frame);
        FrameOutput { action, highlight: self.selection.highlight(), magnifier }
    }
}

} // verus!
