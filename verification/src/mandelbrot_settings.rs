//! The settings of the view: the rectangle of the plane that is shown, the
//! iteration cap, and the flag that tells whether a drawn frame still shows
//! them.
//!
//! The edges of the rectangle are doubles, held by their bit patterns. The
//! arithmetic that moves an axis is the caller's: a pan takes a function that
//! shifts a span by a share of its length, a zoom one that scales a span
//! about its middle. Which axis moves, which way and by which factor is
//! decided here, and so is whether the result is taken: the rectangle stays a
//! rectangle.

use vstd::prelude::*;
use crate::binary64::below;
use crate::binary64::is_below;

verus! {

/// The iteration cap a session starts with.
pub const DEFAULT_MAX_ITERATIONS: i32 = 50;

/// The least real part a session starts with: -2.2.
pub const DEFAULT_MIN_X: u64 = 0xC001_9999_9999_999A;

/// The greatest real part a session starts with: 0.75.
pub const DEFAULT_MAX_X: u64 = 0x3FE8_0000_0000_0000;

/// The least imaginary part a session starts with: -1.2.
pub const DEFAULT_MIN_Y: u64 = 0xBFF3_3333_3333_3333;

/// The greatest imaginary part a session starts with: 1.2.
pub const DEFAULT_MAX_Y: u64 = 0x3FF3_3333_3333_3333;

/// The factor of one zoom step: 1.01.
pub const ZOOM_FACTOR: u64 = 0x3FF0_28F5_C28F_5C29;

/// The share of the visible span that one pan step moves by: 0.05.
pub const PAN_FACTOR: u64 = 0x3FA9_9999_9999_999A;

/// One axis of the rectangle: its least and its greatest value, doubles given
/// by their bit patterns.
#[derive(Clone, Copy, Debug, PartialEq, Eq, Structural)]
pub struct Span {
    pub min: u64,
    pub max: u64,
}

/// What a `MandelbrotSettings` holds. The four edges and the two factors are
/// doubles, given by their bit patterns.
pub struct SettingsView {
    pub max_iterations: i32,
    pub min_x: u64,
    pub max_x: u64,
    pub min_y: u64,
    pub max_y: u64,
    pub zoom_factor: u64,
    pub pan_factor: u64,
    pub modified: bool,
}

impl SettingsView {
    /// The settings of a new session.
    pub open spec fn initial() -> SettingsView {
        SettingsView {
            max_iterations: DEFAULT_MAX_ITERATIONS,
            min_x: DEFAULT_MIN_X,
            max_x: DEFAULT_MAX_X,
            min_y: DEFAULT_MIN_Y,
            max_y: DEFAULT_MAX_Y,
            zoom_factor: ZOOM_FACTOR,
            pan_factor: PAN_FACTOR,
            modified: false,
        }
    }

    /// Whether four edges make a rectangle: all finite, `min_x` below `max_x`
    /// and `min_y` below `max_y`.
    pub open spec fn is_rectangle(min_x: u64, max_x: u64, min_y: u64, max_y: u64) -> bool {
        below(min_x, max_x) && below(min_y, max_y)
    }

    /// What every `MandelbrotSettings` keeps: a rectangle that is not
    /// degenerate, an iteration cap of at least 1, and the two factors as
    /// they were at the start.
    pub open spec fn wf(self) -> bool {
        &&& Self::is_rectangle(self.min_x, self.max_x, self.min_y, self.max_y)
        &&& self.max_iterations >= 1
        &&& self.zoom_factor == ZOOM_FACTOR
        &&& self.pan_factor == PAN_FACTOR
    }

    /// After a frame was drawn.
    pub open spec fn rendered(self) -> SettingsView {
        SettingsView { modified: false, ..self }
    }

    /// After something changed that a drawn frame does not show.
    pub open spec fn touched(self) -> SettingsView {
        SettingsView { modified: true, ..self }
    }

    /// After the iteration cap was moved by `delta`, never below 1.
    pub open spec fn with_iterations_added(self, delta: int) -> SettingsView {
        SettingsView {
            max_iterations: if self.max_iterations + delta >= 1 {
                (self.max_iterations + delta) as i32
            } else {
                1
            },
            modified: true,
            ..self
        }
    }

    /// After the iteration cap went back to where it started.
    pub open spec fn with_iterations_reset(self) -> SettingsView {
        SettingsView { max_iterations: DEFAULT_MAX_ITERATIONS, modified: true, ..self }
    }

    /// After the rectangle went back to where it started.
    pub open spec fn with_pan_and_zoom_reset(self) -> SettingsView {
        SettingsView {
            min_x: DEFAULT_MIN_X,
            max_x: DEFAULT_MAX_X,
            min_y: DEFAULT_MIN_Y,
            max_y: DEFAULT_MAX_Y,
            modified: true,
            ..self
        }
    }

    /// The real axis of the rectangle.
    pub open spec fn span_x(self) -> Span {
        Span { min: self.min_x, max: self.max_x }
    }

    /// The imaginary axis of the rectangle.
    pub open spec fn span_y(self) -> Span {
        Span { min: self.min_y, max: self.max_y }
    }

    /// Whether `after` is what a pan along the real axis leaves: `shift` moved
    /// that axis, forward or backward, by the pan factor's share of its
    /// length; the imaginary axis stayed.
    pub open spec fn is_panned_x<F: Fn(Span, u64, bool) -> Span>(
        self,
        after: SettingsView,
        forward: bool,
        shift: &F,
    ) -> bool {
        exists|moved: Span| #[trigger]
            shift.ensures((self.span_x(), self.pan_factor, forward), moved) && after
                == self.with_bounds(moved.min, moved.max, self.min_y, self.max_y)
    }

    /// Whether `after` is what a pan along the imaginary axis leaves: `shift`
    /// moved that axis, forward or backward, by the pan factor's share of its
    /// length; the real axis stayed.
    pub open spec fn is_panned_y<F: Fn(Span, u64, bool) -> Span>(
        self,
        after: SettingsView,
        forward: bool,
        shift: &F,
    ) -> bool {
        exists|moved: Span| #[trigger]
            shift.ensures((self.span_y(), self.pan_factor, forward), moved) && after
                == self.with_bounds(self.min_x, self.max_x, moved.min, moved.max)
    }

    /// Whether `after` is what a zoom leaves: `scale` shrank both axes (a zoom
    /// in) or stretched both (a zoom out) by the zoom factor, each about its
    /// middle.
    pub open spec fn is_zoomed<F: Fn(Span, u64, bool) -> Span>(
        self,
        after: SettingsView,
        inward: bool,
        scale: &F,
    ) -> bool {
        exists|x: Span, y: Span|
            {
                &&& #[trigger] scale.ensures((self.span_x(), self.zoom_factor, inward), x)
                &&& #[trigger] scale.ensures((self.span_y(), self.zoom_factor, inward), y)
                &&& after == self.with_bounds(x.min, x.max, y.min, y.max)
            }
    }

    /// After a move to four new edges was asked for. Edges that make no
    /// rectangle are refused, and the old ones stay.
    pub open spec fn with_bounds(self, min_x: u64, max_x: u64, min_y: u64, max_y: u64)
        -> SettingsView {
        if Self::is_rectangle(min_x, max_x, min_y, max_y) {
            SettingsView { min_x, max_x, min_y, max_y, modified: true, ..self }
        } else {
            self.touched()
        }
    }
}

/// The rectangle never degenerates and the iteration cap never falls below 1:
/// what holds of the settings at the start holds after every call, whatever
/// edges a pan or a zoom asks for.
pub proof fn lemma_settings_stay_well_formed(
    v: SettingsView,
    min_x: u64,
    max_x: u64,
    min_y: u64,
    max_y: u64,
)
    requires
        v.wf(),
    ensures
        SettingsView::initial().wf(),
        v.rendered().wf(),
        v.touched().wf(),
        v.with_iterations_reset().wf(),
        v.with_pan_and_zoom_reset().wf(),
        v.with_bounds(min_x, max_x, min_y, max_y).wf(),
{
}

/// A pan or a zoom, whatever the arithmetic gave, leaves a rectangle and the
/// flag raised, and does not touch the iteration cap. A pan along one axis
/// leaves the other axis as it was.
pub proof fn lemma_pan_and_zoom_keep_the_rectangle<F: Fn(Span, u64, bool) -> Span>(
    v: SettingsView,
    after: SettingsView,
    direction: bool,
    arithmetic: &F,
)
    requires
        v.wf(),
        v.is_panned_x(after, direction, arithmetic) || v.is_panned_y(after, direction, arithmetic)
            || v.is_zoomed(after, direction, arithmetic),
    ensures
        after.wf(),
        after.modified,
        after.max_iterations == v.max_iterations,
        v.is_panned_x(after, direction, arithmetic) ==> after.span_y() == v.span_y(),
        v.is_panned_y(after, direction, arithmetic) ==> after.span_x() == v.span_x(),
{
}

/// The iteration cap stays at 1 or above, whatever it is moved by, as long
/// as the sum fits the machine's integers.
pub proof fn lemma_cap_stays_positive(v: SettingsView, delta: int)
    requires
        v.wf(),
        v.max_iterations + delta <= i32::MAX,
    ensures
        v.with_iterations_added(delta).wf(),
        v.with_iterations_added(delta).max_iterations >= 1,
        v.max_iterations + delta >= 1 ==> v.with_iterations_added(delta).max_iterations
            == v.max_iterations + delta,
        v.max_iterations + delta < 1 ==> v.with_iterations_added(delta).max_iterations == 1,
{
}

/// The flag is down at the start and after a frame was drawn, and there
/// only: every call that changes the settings raises it. Recording a drawn
/// frame twice is the same as recording it once.
pub proof fn lemma_flag_follows_changes(
    v: SettingsView,
    delta: int,
    min_x: u64,
    max_x: u64,
    min_y: u64,
    max_y: u64,
)
    ensures
        !SettingsView::initial().modified,
        !v.rendered().modified,
        v.rendered().rendered() == v.rendered(),
        v.touched().modified,
        v.with_iterations_added(delta).modified,
        v.with_iterations_reset().modified,
        v.with_pan_and_zoom_reset().modified,
        v.with_bounds(min_x, max_x, min_y, max_y).modified,
{
}

/// A reset of the rectangle leaves the iteration cap alone, and a reset of
/// the cap leaves the rectangle alone; both together give the settings of
/// the start, but for the raised flag.
pub proof fn lemma_resets(v: SettingsView)
    requires
        v.wf(),
    ensures
        v.with_pan_and_zoom_reset().max_iterations == v.max_iterations,
        v.with_iterations_reset().min_x == v.min_x,
        v.with_iterations_reset().max_x == v.max_x,
        v.with_iterations_reset().min_y == v.min_y,
        v.with_iterations_reset().max_y == v.max_y,
        v.with_pan_and_zoom_reset().with_iterations_reset() == SettingsView::initial().touched(),
{
}

/// The window onto the complex plane, the iteration cap, and the flag that
/// says whether the last drawn frame still shows them.
#[derive(Clone, Copy, Debug)]
pub struct MandelbrotSettings {
    max_iterations: i32,
    min_x: u64,
    max_x: u64,
    min_y: u64,
    max_y: u64,
    zoom_factor: u64,
    pan_factor: u64,
    modified: bool,
}

impl View for MandelbrotSettings {
    type V = SettingsView;

    closed spec fn view(&self) -> SettingsView {
        SettingsView {
            max_iterations: self.max_iterations,
            min_x: self.min_x,
            max_x: self.max_x,
            min_y: self.min_y,
            max_y: self.max_y,
            zoom_factor: self.zoom_factor,
            pan_factor: self.pan_factor,
            modified: self.modified,
        }
    }
}

impl Default for MandelbrotSettings {
    /// The settings of a new session: the whole set in view, 50 iterations,
    /// nothing to redraw.
    fn default() -> (settings: MandelbrotSettings)
        ensures
            settings@ == SettingsView::initial(),
            settings@.wf(),
    {
        MandelbrotSettings {
            max_iterations: DEFAULT_MAX_ITERATIONS,
            min_x: DEFAULT_MIN_X,
            max_x: DEFAULT_MAX_X,
            min_y: DEFAULT_MIN_Y,
            max_y: DEFAULT_MAX_Y,
            zoom_factor: ZOOM_FACTOR,
            pan_factor: PAN_FACTOR,
            modified: false,
        }
    }
}

impl MandelbrotSettings {
    /// Holds of every `MandelbrotSettings` there is.
    #[verifier::type_invariant]
    pub open spec fn inv(self) -> bool {
        self@.wf()
    }

    /// Records that a frame was drawn from these settings.
    pub fn notify_rendered(&mut self)
        ensures
            final(self)@ == old(self)@.rendered(),
            final(self)@.wf(),
    {
        proof {
            use_type_invariant(&*self);
        }
        self.modified = false;
    }

    /// Records that the last drawn frame no longer shows these settings.
    pub fn notify_needs_re_render(&mut self)
        ensures
            final(self)@ == old(self)@.touched(),
            final(self)@.wf(),
    {
        proof {
            use_type_invariant(&*self);
        }
        self.modified = true;
    }

    /// Whether anything changed since the last drawn frame.
    pub fn needs_re_render(&self) -> (dirty: bool)
        ensures
            dirty == self@.modified,
    {
        self.modified
    }

    /// Moves the iteration cap by `delta`, down to 1 at the lowest.
    pub fn add_iterations(&mut self, delta: i32)
        requires
            old(self)@.max_iterations + delta <= i32::MAX,
        ensures
            final(self)@ == old(self)@.with_iterations_added(delta as int),
            final(self)@.wf(),
    {
        proof {
            use_type_invariant(&*self);
        }
        let moved: i32 = self.max_iterations + delta;
        self.max_iterations = if moved >= 1 { moved } else { 1 };
        self.modified = true;
    }

    /// Puts the iteration cap back to 50.
    pub fn iterations_reset(&mut self)
        ensures
            final(self)@ == old(self)@.with_iterations_reset(),
            final(self)@.wf(),
    {
        proof {
            use_type_invariant(&*self);
        }
        self.max_iterations = DEFAULT_MAX_ITERATIONS;
        self.modified = true;
    }

    /// Puts the rectangle back to where a session starts. The iteration cap
    /// stays.
    pub fn pan_and_zoom_reset(&mut self)
        ensures
            final(self)@ == old(self)@.with_pan_and_zoom_reset(),
            final(self)@.wf(),
    {
        proof {
            use_type_invariant(&*self);
        }
        *self = MandelbrotSettings {
            max_iterations: self.max_iterations,
            min_x: DEFAULT_MIN_X,
            max_x: DEFAULT_MAX_X,
            min_y: DEFAULT_MIN_Y,
            max_y: DEFAULT_MAX_Y,
            zoom_factor: self.zoom_factor,
            pan_factor: self.pan_factor,
            modified: true,
        };
    }

    /// Moves the rectangle to four new edges, as a pan or a zoom computed
    /// them, and says whether it did. Edges that make no rectangle (one is
    /// not finite, or a lower bound is not below its upper bound) are
    /// refused: the rectangle stays as it was. The flag is raised either way.
    pub fn set_bounds(&mut self, min_x: u64, max_x: u64, min_y: u64, max_y: u64) -> (moved: bool)
        ensures
            moved == SettingsView::is_rectangle(min_x, max_x, min_y, max_y),
            final(self)@ == old(self)@.with_bounds(min_x, max_x, min_y, max_y),
            final(self)@.wf(),
    {
        proof {
            use_type_invariant(&*self);
        }
        let moved = is_below(min_x, max_x) && is_below(min_y, max_y);
        if moved {
            *self = MandelbrotSettings {
                max_iterations: self.max_iterations,
                min_x,
                max_x,
                min_y,
                max_y,
                zoom_factor: self.zoom_factor,
                pan_factor: self.pan_factor,
                modified: true,
            };
        } else {
            self.modified = true;
        }
        moved
    }

    /// Pans along the real axis: forward, to greater values, or backward.
    fn pan_x<F: Fn(Span, u64, bool) -> Span>(&mut self, forward: bool, shift: &F)
        requires
            shift.requires((old(self)@.span_x(), PAN_FACTOR, forward)),
        ensures
            old(self)@.is_panned_x(final(self)@, forward, shift),
            final(self)@.wf(),
            final(self)@.modified,
    {
        proof {
            use_type_invariant(&*self);
        }
        let span = Span { min: self.min_x, max: self.max_x };
        let moved = shift(span, self.pan_factor, forward);
        let min_y = self.min_y;
        let max_y = self.max_y;
        self.set_bounds(moved.min, moved.max, min_y, max_y);
    }

    /// Pans along the imaginary axis: forward, to greater values, or
    /// backward.
    fn pan_y<F: Fn(Span, u64, bool) -> Span>(&mut self, forward: bool, shift: &F)
        requires
            shift.requires((old(self)@.span_y(), PAN_FACTOR, forward)),
        ensures
            old(self)@.is_panned_y(final(self)@, forward, shift),
            final(self)@.wf(),
            final(self)@.modified,
    {
        proof {
            use_type_invariant(&*self);
        }
        let span = Span { min: self.min_y, max: self.max_y };
        let moved = shift(span, self.pan_factor, forward);
        let min_x = self.min_x;
        let max_x = self.max_x;
        self.set_bounds(min_x, max_x, moved.min, moved.max);
    }

    /// Zooms about the middle of the rectangle: inward, so that less of the
    /// plane is shown, or outward.
    fn zoom<F: Fn(Span, u64, bool) -> Span>(&mut self, inward: bool, scale: &F)
        requires
            scale.requires((old(self)@.span_x(), ZOOM_FACTOR, inward)),
            scale.requires((old(self)@.span_y(), ZOOM_FACTOR, inward)),
        ensures
            old(self)@.is_zoomed(final(self)@, inward, scale),
            final(self)@.wf(),
            final(self)@.modified,
    {
        proof {
            use_type_invariant(&*self);
        }
        let x = scale(Span { min: self.min_x, max: self.max_x }, self.zoom_factor, inward);
        let y = scale(Span { min: self.min_y, max: self.max_y }, self.zoom_factor, inward);
        self.set_bounds(x.min, x.max, y.min, y.max);
    }

    /// Zooms in by one step: both axes shrink by the zoom factor about the
    /// middle of the rectangle. A result that is no rectangle is refused, and
    /// the rectangle stays; the flag is raised either way.
    pub fn zoom_in<F: Fn(Span, u64, bool) -> Span>(&mut self, scale: &F)
        requires
            scale.requires((old(self)@.span_x(), ZOOM_FACTOR, true)),
            scale.requires((old(self)@.span_y(), ZOOM_FACTOR, true)),
        ensures
            old(self)@.is_zoomed(final(self)@, true, scale),
            final(self)@.wf(),
            final(self)@.modified,
    {
        self.zoom(true, scale);
    }

    /// Zooms out by one step: both axes stretch by the zoom factor about the
    /// middle of the rectangle. A result that is no rectangle is refused, and
    /// the rectangle stays; the flag is raised either way.
    pub fn zoom_out<F: Fn(Span, u64, bool) -> Span>(&mut self, scale: &F)
        requires
            scale.requires((old(self)@.span_x(), ZOOM_FACTOR, false)),
            scale.requires((old(self)@.span_y(), ZOOM_FACTOR, false)),
        ensures
            old(self)@.is_zoomed(final(self)@, false, scale),
            final(self)@.wf(),
            final(self)@.modified,
    {
        self.zoom(false, scale);
    }

    /// Pans to the left by one step: the real axis moves to lesser values.
    /// A result that is no rectangle is refused, and the rectangle stays; the
    /// flag is raised either way.
    pub fn pan_left<F: Fn(Span, u64, bool) -> Span>(&mut self, shift: &F)
        requires
            shift.requires((old(self)@.span_x(), PAN_FACTOR, false)),
        ensures
            old(self)@.is_panned_x(final(self)@, false, shift),
            final(self)@.wf(),
            final(self)@.modified,
    {
        self.pan_x(false, shift);
    }

    /// Pans to the right by one step: the real axis moves to greater values.
    /// A result that is no rectangle is refused, and the rectangle stays; the
    /// flag is raised either way.
    pub fn pan_right<F: Fn(Span, u64, bool) -> Span>(&mut self, shift: &F)
        requires
            shift.requires((old(self)@.span_x(), PAN_FACTOR, true)),
        ensures
            old(self)@.is_panned_x(final(self)@, true, shift),
            final(self)@.wf(),
            final(self)@.modified,
    {
        self.pan_x(true, shift);
    }

    /// Pans up by one step: the imaginary axis moves to lesser values. A
    /// result that is no rectangle is refused, and the rectangle stays; the
    /// flag is raised either way.
    pub fn pan_up<F: Fn(Span, u64, bool) -> Span>(&mut self, shift: &F)
        requires
            shift.requires((old(self)@.span_y(), PAN_FACTOR, false)),
        ensures
            old(self)@.is_panned_y(final(self)@, false, shift),
            final(self)@.wf(),
            final(self)@.modified,
    {
        self.pan_y(false, shift);
    }

    /// Pans down by one step: the imaginary axis moves to greater values. A
    /// result that is no rectangle is refused, and the rectangle stays; the
    /// flag is raised either way.
    pub fn pan_down<F: Fn(Span, u64, bool) -> Span>(&mut self, shift: &F)
        requires
            shift.requires((old(self)@.span_y(), PAN_FACTOR, true)),
        ensures
            old(self)@.is_panned_y(final(self)@, true, shift),
            final(self)@.wf(),
            final(self)@.modified,
    {
        self.pan_y(true, shift);
    }

    /// The iteration cap.
    pub fn max_iterations(&self) -> (cap: i32)
        ensures
            cap == self@.max_iterations,
            cap >= 1,
    {
        proof {
            use_type_invariant(self);
        }
        self.max_iterations
    }

    /// The least real part in view.
    pub fn min_x(&self) -> (edge: u64)
        ensures
            edge == self@.min_x,
    {
        self.min_x
    }

    /// The greatest real part in view.
    pub fn max_x(&self) -> (edge: u64)
        ensures
            edge == self@.max_x,
    {
        self.max_x
    }

    /// The least imaginary part in view.
    pub fn min_y(&self) -> (edge: u64)
        ensures
            edge == self@.min_y,
    {
        self.min_y
    }

    /// The greatest imaginary part in view.
    pub fn max_y(&self) -> (edge: u64)
        ensures
            edge == self@.max_y,
    {
        self.max_y
    }

    /// The factor of one zoom step.
    pub fn zoom_factor(&self) -> (factor: u64)
        ensures
            factor == self@.zoom_factor,
            factor == ZOOM_FACTOR,
    {
        proof {
            use_type_invariant(self);
        }
        self.zoom_factor
    }

    /// The share of the visible span that one pan step moves by.
    pub fn pan_factor(&self) -> (factor: u64)
        ensures
            factor == self@.pan_factor,
            factor == PAN_FACTOR,
    {
        proof {
            use_type_invariant(self);
        }
        self.pan_factor
    }
}

} // verus!
