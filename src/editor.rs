//! The editor's reaction to pointer and keyboard events: which output a
//! click grabs, enables or disables, how a drag follows the pointer, and
//! what is committed when it is let go.
use vstd::prelude::*;
use crate::registry::{
    ActiveOutput,
    InactiveOutput,
    check_touched,
    check_inactive_touched,
    first_hit,
    first_cell_hit,
};
use crate::drag::{MouseTracker, handle_overlap, resolved, fits_i32};
use crate::layout::{update_output_position, normalized_fits, is_normalized};

verus! {

/// How a position on the window surface maps to layout coordinates: it is
/// multiplied by `scale`, and for active outputs the centring offset is
/// taken off. Inactive outputs sit in a row of squares of side
/// `inactive_size` from the top left corner.
#[derive(Clone, Copy, Debug, PartialEq, Eq, Structural)]
pub struct Viewport {
    pub scale: u32,
    pub center_x: i32,
    pub center_y: i32,
    pub inactive_size: u32,
}

/// A pointer or keyboard event, with surface coordinates.
#[derive(Clone, Copy, Debug, PartialEq, Eq, Structural)]
pub enum Event {
    PointerDown(i32, i32),
    PointerMove(i32, i32),
    PointerUp,
    ModifierDown,
    ModifierUp,
    Quit,
}

/// What the editor asks of the compositor after an event.
#[derive(Clone, Debug)]
pub enum Effect {
    Nothing,
    /// Enable the inactive output of this name, then reload.
    Enable(String),
    /// Disable the active output of this name, then reload.
    Disable(String),
    /// Set every output to the position given here, then reload.
    Commit(Vec<ActiveOutput>),
    /// The released layout cannot be expressed; reload what the compositor has.
    Reload,
    Quit,
}

/// The editor's own state: the drag in progress, if any, and whether the
/// toggle modifier is held.
#[derive(Clone, Copy, Debug, PartialEq, Eq)]
pub struct Editor {
    pub selected: Option<MouseTracker>,
    pub ctrl_down: bool,
}

pub open spec fn scaled(v: Viewport, x: i32, y: i32) -> (int, int) {
    (x * v.scale, y * v.scale)
}

pub open spec fn logical(v: Viewport, x: i32, y: i32) -> (int, int) {
    (x * v.scale - v.center_x, y * v.scale - v.center_y)
}

/// A point in `i32` coordinates, where it has one.
pub open spec fn as_point(q: (int, int)) -> Option<(i32, i32)> {
    if fits_i32(q) {
        Some((q.0 as i32, q.1 as i32))
    } else {
        None
    }
}

/// The active output under surface position `(x, y)`.
pub open spec fn hit_active(v: Viewport, x: i32, y: i32, s: Seq<ActiveOutput>) -> Option<int> {
    match as_point(logical(v, x, y)) {
        Some(q) => first_hit(q, s),
        None => None,
    }
}

/// The inactive output, of `n`, under surface position `(x, y)`.
pub open spec fn hit_inactive(v: Viewport, x: i32, y: i32, n: int) -> Option<int> {
    match as_point(scaled(v, x, y)) {
        Some(q) => first_cell_hit(q, n, v.inactive_size),
        None => None,
    }
}

/// What a click with the toggle modifier held does: enable the inactive
/// output under it; failing that, disable the active output under it, but
/// only while more than one output is active.
pub open spec fn toggle_outcome(
    v: Viewport,
    x: i32,
    y: i32,
    active: Seq<ActiveOutput>,
    inactive: Seq<InactiveOutput>,
) -> Effect {
    match hit_inactive(v, x, y, inactive.len() as int) {
        Some(k) => Effect::Enable(inactive[k].name),
        None => if active.len() > 1 {
            match hit_active(v, x, y, active) {
                Some(k) => Effect::Disable(active[k].name),
                None => Effect::Nothing,
            }
        } else {
            Effect::Nothing
        },
    }
}

/// The drag that starts when output `o` is grabbed at `q`: the offset from
/// the pointer to the output's origin is kept for the whole drag. No drag
/// starts where that offset does not fit in an `i32`.
pub open spec fn grab_of(o: ActiveOutput, q: (i32, i32)) -> Option<MouseTracker> {
    if fits_i32((o.rect.x - q.0, o.rect.y - q.1)) {
        Some(
            MouseTracker {
                id: o.id,
                pos: q,
                offset: ((o.rect.x - q.0) as i32, (o.rect.y - q.1) as i32),
                size: (o.rect.width, o.rect.height),
            },
        )
    } else {
        None
    }
}

/// The drag that a plain click at surface position `(x, y)` starts.
pub open spec fn grab_outcome(v: Viewport, x: i32, y: i32, active: Seq<ActiveOutput>) -> Option<
    MouseTracker,
> {
    match as_point(logical(v, x, y)) {
        Some(q) => match first_hit(q, active) {
            Some(k) => grab_of(active[k], q),
            None => None,
        },
        None => None,
    }
}

/// The drag after the pointer moves to surface position `(x, y)`.
pub open spec fn moved_outcome(v: Viewport, x: i32, y: i32, active: Seq<ActiveOutput>, m: MouseTracker) -> MouseTracker {
    match as_point(logical(v, x, y)) {
        Some(q) => resolved(active, m.with_pos(q)),
        None => m,
    }
}

/// How many outputs are active once an effect has been carried out.
pub open spec fn active_count_after(n: int, e: Effect) -> int {
    match e {
        Effect::Enable(_) => n + 1,
        Effect::Disable(_) => n - 1,
        _ => n,
    }
}

/// A click with the toggle modifier never leaves the layout without an
/// active output: where one output is active, it cannot be disabled.
pub proof fn toggling_keeps_an_active_output(
    v: Viewport,
    x: i32,
    y: i32,
    active: Seq<ActiveOutput>,
    inactive: Seq<InactiveOutput>,
)
    requires
        active.len() >= 1,
    ensures
        active_count_after(active.len() as int, toggle_outcome(v, x, y, active, inactive)) >= 1,
        active.len() == 1 ==> !(toggle_outcome(v, x, y, active, inactive) is Disable),
{
}

/// Along any run of toggle clicks, each made against the outputs that the
/// previous one left (as many active as its effect implies), some output
/// stays active at every step, given one was active at the start.
pub proof fn toggle_runs_keep_an_active_output(
    v: Viewport,
    clicks: Seq<(i32, i32)>,
    actives: Seq<Seq<ActiveOutput>>,
    inactives: Seq<Seq<InactiveOutput>>,
)
    requires
        actives.len() == clicks.len() + 1,
        inactives.len() == clicks.len() + 1,
        actives[0].len() >= 1,
        forall|i: int|
            0 <= i < clicks.len() ==> (#[trigger] actives[i + 1]).len() == active_count_after(
                actives[i].len() as int,
                toggle_outcome(v, clicks[i].0, clicks[i].1, actives[i], inactives[i]),
            ),
    ensures
        forall|i: int| 0 <= i < actives.len() ==> (#[trigger] actives[i]).len() >= 1,
{
    assert forall|i: int| 0 <= i < actives.len() implies (#[trigger] actives[i]).len() >= 1 by {
        lemma_toggle_prefix(v, clicks, actives, inactives, i);
    }
}

proof fn lemma_toggle_prefix(
    v: Viewport,
    clicks: Seq<(i32, i32)>,
    actives: Seq<Seq<ActiveOutput>>,
    inactives: Seq<Seq<InactiveOutput>>,
    n: int,
)
    requires
        actives.len() == clicks.len() + 1,
        inactives.len() == clicks.len() + 1,
        actives[0].len() >= 1,
        forall|i: int|
            0 <= i < clicks.len() ==> (#[trigger] actives[i + 1]).len() == active_count_after(
                actives[i].len() as int,
                toggle_outcome(v, clicks[i].0, clicks[i].1, actives[i], inactives[i]),
            ),
        0 <= n < actives.len(),
    ensures
        actives[n].len() >= 1,
    decreases n,
{
    if n > 0 {
        lemma_toggle_prefix(v, clicks, actives, inactives, n - 1);
        let k = n - 1;
        assert(actives[k + 1].len() == active_count_after(
            actives[k].len() as int,
            toggle_outcome(v, clicks[k].0, clicks[k].1, actives[k], inactives[k]),
        ));
        toggling_keeps_an_active_output(v, clicks[k].0, clicks[k].1, actives[k], inactives[k]);
    }
}

/// Surface position `(x, y)` scaled, and with the centring offset taken off
/// where `centered`; `None` where that leaves the range of `i32`.
fn surface_to_layout(v: &Viewport, x: i32, y: i32, centered: bool) -> (r: Option<(i32, i32)>)
    ensures
        r == as_point(if centered { logical(*v, x, y) } else { scaled(*v, x, y) }),
{
    let xs = x as i128;
    let ys = y as i128;
    let k = v.scale as i128;
    assert(-0x1_0000_0000_0000_0000 <= xs * k <= 0x1_0000_0000_0000_0000) by (nonlinear_arith)
        requires
            -0x8000_0000 <= xs <= 0x8000_0000,
            0 <= k <= 0x1_0000_0000,
    ;
    assert(-0x1_0000_0000_0000_0000 <= ys * k <= 0x1_0000_0000_0000_0000) by (nonlinear_arith)
        requires
            -0x8000_0000 <= ys <= 0x8000_0000,
            0 <= k <= 0x1_0000_0000,
    ;
    let sx = xs * k;
    let sy = ys * k;
    let (lx, ly) = if centered {
        (sx - v.center_x as i128, sy - v.center_y as i128)
    } else {
        (sx, sy)
    };
    if i32::MIN as i128 <= lx && lx <= i32::MAX as i128 && i32::MIN as i128 <= ly && ly
        <= i32::MAX as i128 {
        Some((lx as i32, ly as i32))
    } else {
        None
    }
}

/// What a click with the toggle modifier held at surface position `(x, y)`
/// asks for.
pub fn toggle_target(
    v: &Viewport,
    x: i32,
    y: i32,
    active: &[ActiveOutput],
    inactive: &[InactiveOutput],
) -> (r: Effect)
    ensures
        r == toggle_outcome(*v, x, y, active@, inactive@),
{
    let hit = match surface_to_layout(v, x, y, false) {
        Some(q) => check_inactive_touched(q, v.inactive_size, inactive),
        None => None,
    };
    match hit {
        Some(k) => Effect::Enable(inactive[k].name.clone()),
        None => {
            if active.len() > 1 {
                let hit = match surface_to_layout(v, x, y, true) {
                    Some(q) => check_touched(q, active),
                    None => None,
                };
                match hit {
                    Some(k) => Effect::Disable(active[k].name.clone()),
                    None => Effect::Nothing,
                }
            } else {
                Effect::Nothing
            }
        },
    }
}

/// The drag that a plain click at surface position `(x, y)` starts, if it
/// lands on an active output.
pub fn grab(v: &Viewport, x: i32, y: i32, active: &[ActiveOutput]) -> (r: Option<MouseTracker>)
    ensures
        r == grab_outcome(*v, x, y, active@),
{
    match surface_to_layout(v, x, y, true) {
        None => None,
        Some(q) => match check_touched(q, active) {
            None => None,
            Some(k) => {
                let rect = &active[k].rect;
                let dx = rect.x as i64 - q.0 as i64;
                let dy = rect.y as i64 - q.1 as i64;
                if i32::MIN as i64 <= dx && dx <= i32::MAX as i64 && i32::MIN as i64 <= dy && dy
                    <= i32::MAX as i64 {
                    Some(
                        MouseTracker {
                            id: active[k].id,
                            pos: q,
                            offset: (dx as i32, dy as i32),
                            size: (rect.width, rect.height),
                        },
                    )
                } else {
                    None
                }
            },
        },
    }
}

impl Editor {
    /// No drag in progress, modifier released.
    pub fn new() -> (r: Editor)
        ensures
            r.selected is None,
            !r.ctrl_down,
    {
        Editor { selected: None, ctrl_down: false }
    }

    /// Reacts to one event against the current outputs.
    pub fn handle_event(
        &mut self,
        event: Event,
        v: &Viewport,
        active: &[ActiveOutput],
        inactive: &[InactiveOutput],
    ) -> (r: Effect)
        ensures
            match event {
                Event::Quit => r is Quit && *final(self) == *old(self),
                Event::ModifierDown => r is Nothing && final(self).ctrl_down && final(self).selected == old(self).selected,
                Event::ModifierUp => r is Nothing && !final(self).ctrl_down && final(self).selected == old(self).selected,
                Event::PointerDown(x, y) => if old(self).selected is Some {
                    r is Nothing && *final(self) == *old(self)
                } else if old(self).ctrl_down {
                    r == toggle_outcome(*v, x, y, active@, inactive@) && *final(self) == *old(self)
                } else {
                    &&& r is Nothing
                    &&& final(self).ctrl_down == old(self).ctrl_down
                    &&& final(self).selected == grab_outcome(*v, x, y, active@)
                },
                Event::PointerMove(x, y) => {
                    &&& r is Nothing
                    &&& final(self).ctrl_down == old(self).ctrl_down
                    &&& final(self).selected == match old(self).selected {
                        Some(m) => Some(moved_outcome(*v, x, y, active@, m)),
                        None => None,
                    }
                },
                Event::PointerUp => {
                    &&& final(self).ctrl_down == old(self).ctrl_down
                    &&& final(self).selected is None
                    &&& match old(self).selected {
                        None => r is Nothing,
                        Some(m) => if normalized_fits(active@, m) {
                            r matches Effect::Commit(l) && is_normalized(active@, m, l@)
                        } else {
                            r is Reload
                        },
                    }
                },
            },
    {
        match event {
            Event::Quit => Effect::Quit,
            Event::ModifierDown => {
                self.ctrl_down = true;
                Effect::Nothing
            },
            Event::ModifierUp => {
                self.ctrl_down = false;
                Effect::Nothing
            },
            Event::PointerDown(x, y) => {
                if self.selected.is_some() {
                    Effect::Nothing
                } else if self.ctrl_down {
                    toggle_target(v, x, y, active, inactive)
                } else {
                    self.selected = grab(v, x, y, active);
                    Effect::Nothing
                }
            },
            Event::PointerMove(x, y) => {
                match self.selected {
                    Some(m) => {
                        let next = match surface_to_layout(v, x, y, true) {
                            Some(q) => handle_overlap(MouseTracker { pos: q, ..m }, active),
                            None => m,
                        };
                        self.selected = Some(next);
                    },
                    None => {},
                }
                Effect::Nothing
            },
            Event::PointerUp => {
                match self.selected.take() {
                    None => Effect::Nothing,
                    Some(m) => match update_output_position(m, active) {
                        Some(layout) => Effect::Commit(layout),
                        None => Effect::Reload,
                    },
                }
            },
        }
    }
}

} // verus!
