//! The camera controller: pan, zoom and drag state driven by a queue
//! of discrete input events, and the world-to-screen transform they
//! determine.
//!
//! Coordinates in events are fixed-point sub-units, like simulation
//! space.  The zoom response is linear in the accumulated scroll (the
//! scale-response curve is a policy of this module, applied in exactly
//! one place: [`world_to_screen_spec`]); the scale saturates at the
//! `i64` maximum and is clamped below at one, so zooming out never
//! passes 1:1.

use vstd::prelude::*;

verus! {

use crate::geom::Vec2;
use crate::num::{FIXED_ONE, COORD_LIMIT, clip_spec, sdiv_spec, sdiv_i128, clip_i128, mul_i128};

/// Bound on a screen coordinate produced by the transform.
pub const SCREEN_LIMIT: i64 = 0x4000_0000_0000_0000;

/// A discrete interaction event, as delivered by the windowing layer.
#[derive(Clone, Copy, Debug, PartialEq, Eq, Structural)]
pub enum CameraEvent {
    /// The pointer moved to `(x, y)`, in sub-units of viewport space.
    PointerMoved { x: i64, y: i64 },
    /// The primary button went down.
    ButtonPressed,
    /// The primary button came up.
    ButtonReleased,
    /// The wheel scrolled; `delta` is the vertical amount in sub-units.
    Scrolled { delta: i64 },
    /// The viewport was resized, dimensions in sub-units.
    Resized { width: i64, height: i64 },
}

/// Pan/zoom/drag state.  Mutated only by [`CameraState::apply_event`]
/// and the per-frame [`CameraState::settle`].
#[derive(Clone, Copy, Debug, PartialEq, Eq, Structural)]
pub struct CameraState {
    /// Accumulated pan, applied after scaling.
    pub translation: Vec2,
    /// Zoom factor in sub-units; `FIXED_ONE` means 1:1.
    pub scale: i64,
    /// Whether a drag (grab-the-canvas) is in progress.
    pub drag_active: bool,
    /// The last observed cursor position.
    pub last_cursor: Vec2,
    /// Drag motion accumulated since the last frame; consumed by `settle`.
    pub pending_delta: Vec2,
    /// Projection rectangle width, in sub-units.
    pub viewport_width: i64,
    /// Projection rectangle height, in sub-units.
    pub viewport_height: i64,
}

/// A viewport dimension, clamped into `[1, COORD_LIMIT]`.
pub open spec fn view_dim_spec(d: int) -> int {
    let c = clip_spec(d, COORD_LIMIT as int);
    if c < 1 {
        1
    } else {
        c
    }
}

/// How one event changes the camera.
pub open spec fn event_spec(c: CameraState, e: CameraEvent) -> CameraState {
    match e {
        CameraEvent::PointerMoved { x, y } => {
            let cx = clip_spec(x as int, COORD_LIMIT as int) as i64;
            let cy = clip_spec(y as int, COORD_LIMIT as int) as i64;
            let pending = if c.drag_active {
                Vec2 {
                    x: clip_spec(
                        c.pending_delta.x + (c.last_cursor.x - cx),
                        COORD_LIMIT as int,
                    ) as i64,
                    y: clip_spec(
                        c.pending_delta.y + (c.last_cursor.y - cy),
                        COORD_LIMIT as int,
                    ) as i64,
                }
            } else {
                c.pending_delta
            };
            CameraState { last_cursor: Vec2 { x: cx, y: cy }, pending_delta: pending, ..c }
        },
        CameraEvent::ButtonPressed => {
            let within = c.last_cursor.x >= 0 && c.last_cursor.y >= 0;
            CameraState { drag_active: within || c.drag_active, ..c }
        },
        CameraEvent::ButtonReleased => CameraState { drag_active: false, ..c },
        CameraEvent::Scrolled { delta } => {
            let s = c.scale + sdiv_spec(delta as int, 100);
            let clamped = if s < FIXED_ONE {
                FIXED_ONE as int
            } else if s > i64::MAX {
                i64::MAX as int
            } else {
                s
            };
            CameraState { scale: clamped as i64, ..c }
        },
        CameraEvent::Resized { width, height } => CameraState {
            viewport_width: view_dim_spec(width as int) as i64,
            viewport_height: view_dim_spec(height as int) as i64,
            drag_active: false,
            ..c
        },
    }
}

/// The per-frame settle: fold the pending drag into the translation.
pub open spec fn settle_spec(c: CameraState) -> CameraState {
    CameraState {
        translation: Vec2 {
            x: clip_spec(c.translation.x + c.pending_delta.x, COORD_LIMIT as int) as i64,
            y: clip_spec(c.translation.y + c.pending_delta.y, COORD_LIMIT as int) as i64,
        },
        pending_delta: Vec2 { x: 0, y: 0 },
        ..c
    }
}

/// A whole queue of events, applied front to back.
pub open spec fn events_fold(c: CameraState, events: Seq<CameraEvent>) -> CameraState
    decreases events.len(),
{
    if events.len() == 0 {
        c
    } else {
        events_fold(event_spec(c, events[0]), events.drop_first())
    }
}

/// The world-to-screen map the camera exports: scale about the origin,
/// then translate.  Screen coordinates stay in sub-units, origin at
/// the viewport center; the renderer's projection divides by half the
/// viewport dimensions.
pub open spec fn world_to_screen_spec(c: CameraState, p: Vec2) -> Vec2 {
    Vec2 {
        x: clip_spec(
            sdiv_spec(p.x * c.scale, FIXED_ONE as int) + c.translation.x,
            SCREEN_LIMIT as int,
        ) as i64,
        y: clip_spec(
            sdiv_spec(p.y * c.scale, FIXED_ONE as int) + c.translation.y,
            SCREEN_LIMIT as int,
        ) as i64,
    }
}

impl CameraState {
    /// The controller's invariant; in particular the zoom clamp:
    /// `scale` never drops below 1:1.
    pub open spec fn wf(self) -> bool {
        &&& FIXED_ONE <= self.scale
        &&& self.translation.bounded(COORD_LIMIT as int)
        &&& self.last_cursor.bounded(COORD_LIMIT as int)
        &&& self.pending_delta.bounded(COORD_LIMIT as int)
        &&& 1 <= self.viewport_width <= COORD_LIMIT
        &&& 1 <= self.viewport_height <= COORD_LIMIT
    }

    /// A fresh camera over a viewport given in world units: no pan, no
    /// drag, 1:1 zoom.
    pub fn new(width: u32, height: u32) -> (c: CameraState)
        ensures
            c.wf(),
            c.translation == Vec2::spec_zero(),
            c.scale == FIXED_ONE,
            !c.drag_active,
            c.last_cursor == Vec2::spec_zero(),
            c.pending_delta == Vec2::spec_zero(),
            c.viewport_width == view_dim_spec(width * FIXED_ONE),
            c.viewport_height == view_dim_spec(height * FIXED_ONE),
    {
        let vw = clip_i128(
            mul_i128(width as i128, FIXED_ONE as i128, Ghost(0x1_0000_0000), Ghost(1000)),
            COORD_LIMIT,
        );
        let vh = clip_i128(
            mul_i128(height as i128, FIXED_ONE as i128, Ghost(0x1_0000_0000), Ghost(1000)),
            COORD_LIMIT,
        );
        CameraState {
            translation: Vec2::zero(),
            scale: FIXED_ONE,
            drag_active: false,
            last_cursor: Vec2::zero(),
            pending_delta: Vec2::zero(),
            viewport_width: if vw < 1 {
                1
            } else {
                vw
            },
            viewport_height: if vh < 1 {
                1
            } else {
                vh
            },
        }
    }

    /// Apply one input event.
    pub fn apply_event(&mut self, e: CameraEvent)
        requires
            old(self).wf(),
        ensures
            *final(self) == event_spec(*old(self), e),
            final(self).wf(),
    {
        proof {
            lemma_event_preserves_wf(*self, e);
        }
        match e {
            CameraEvent::PointerMoved { x, y } => {
                let cx = clip_i128(x as i128, COORD_LIMIT);
                let cy = clip_i128(y as i128, COORD_LIMIT);
                if self.drag_active {
                    self.pending_delta = Vec2 {
                        x: clip_i128(
                            (self.pending_delta.x as i128) + ((self.last_cursor.x as i128) - (
                            cx as i128)),
                            COORD_LIMIT,
                        ),
                        y: clip_i128(
                            (self.pending_delta.y as i128) + ((self.last_cursor.y as i128) - (
                            cy as i128)),
                            COORD_LIMIT,
                        ),
                    };
                }
                self.last_cursor = Vec2 { x: cx, y: cy };
            },
            CameraEvent::ButtonPressed => {
                if self.last_cursor.x >= 0 && self.last_cursor.y >= 0 {
                    self.drag_active = true;
                }
            },
            CameraEvent::ButtonReleased => {
                self.drag_active = false;
            },
            CameraEvent::Scrolled { delta } => {
                let adj = sdiv_i128(delta as i128, 100);
                let s = (self.scale as i128) + adj;
                self.scale = if s < FIXED_ONE as i128 {
                    FIXED_ONE
                } else if s > i64::MAX as i128 {
                    i64::MAX
                } else {
                    s as i64
                };
            },
            CameraEvent::Resized { width, height } => {
                let vw = clip_i128(width as i128, COORD_LIMIT);
                let vh = clip_i128(height as i128, COORD_LIMIT);
                self.viewport_width = if vw < 1 {
                    1
                } else {
                    vw
                };
                self.viewport_height = if vh < 1 {
                    1
                } else {
                    vh
                };
                self.drag_active = false;
            },
        }
    }

    /// Drain a frame's worth of events, front to back.
    pub fn apply_events(&mut self, events: &Vec<CameraEvent>)
        requires
            old(self).wf(),
        ensures
            *final(self) == events_fold(*old(self), events@),
            final(self).wf(),
    {
        let ghost ocam = *self;
        proof {
            assert(events@.skip(0) =~= events@);
        }
        let n = events.len();
        let mut i: usize = 0;
        while i < n
            invariant
                self.wf(),
                i <= n,
                n == events@.len(),
                events_fold(ocam, events@) == events_fold(*self, events@.skip(i as int)),
            decreases n - i,
        {
            proof {
                assert(events@.skip(i as int)[0] == events@[i as int]);
                assert(events@.skip(i as int).drop_first() =~= events@.skip(i as int + 1));
            }
            self.apply_event(events[i]);
            i += 1;
        }
        proof {
            assert(events@.skip(n as int) =~= Seq::<CameraEvent>::empty());
        }
    }

    /// Fold the pending drag delta into the translation and clear it.
    pub fn settle(&mut self)
        requires
            old(self).wf(),
        ensures
            *final(self) == settle_spec(*old(self)),
            final(self).wf(),
    {
        self.translation = Vec2 {
            x: clip_i128((self.translation.x as i128) + (self.pending_delta.x as i128), COORD_LIMIT),
            y: clip_i128((self.translation.y as i128) + (self.pending_delta.y as i128), COORD_LIMIT),
        };
        self.pending_delta = Vec2 { x: 0, y: 0 };
    }

    /// Map a simulation-space position to screen space.
    pub fn world_to_screen(&self, p: Vec2) -> (s: Vec2)
        requires
            self.wf(),
            p.bounded(COORD_LIMIT as int),
        ensures
            s == world_to_screen_spec(*self, p),
    {
        let sx = sdiv_i128(
            mul_i128(p.x as i128, self.scale as i128, Ghost(COORD_LIMIT as int), Ghost(i64::MAX as int)),
            FIXED_ONE as i128,
        );
        let sy = sdiv_i128(
            mul_i128(p.y as i128, self.scale as i128, Ghost(COORD_LIMIT as int), Ghost(i64::MAX as int)),
            FIXED_ONE as i128,
        );
        Vec2 {
            x: clip_i128(sx + (self.translation.x as i128), SCREEN_LIMIT),
            y: clip_i128(sy + (self.translation.y as i128), SCREEN_LIMIT),
        }
    }
}

/// A single event keeps the camera invariant — in particular the scale
/// never leaves `[FIXED_ONE, i64::MAX]`.
pub proof fn lemma_event_preserves_wf(c: CameraState, e: CameraEvent)
    requires
        c.wf(),
    ensures
        event_spec(c, e).wf(),
{
}

/// Zoom clamp: after any sequence of events — scrolls included —
/// `scale >= FIXED_ONE` still holds, along with the rest of the
/// camera invariant.
pub proof fn lemma_zoom_clamped(c: CameraState, events: Seq<CameraEvent>)
    requires
        c.wf(),
    ensures
        events_fold(c, events).wf(),
        events_fold(c, events).scale >= FIXED_ONE,
    decreases events.len(),
{
    if events.len() > 0 {
        lemma_event_preserves_wf(c, events[0]);
        lemma_zoom_clamped(event_spec(c, events[0]), events.drop_first());
    }
}

} // verus!
