//! The state of an output being dragged, and the overlap resolver that
//! snaps it against its nearest neighbour on every pointer move.
use vstd::prelude::*;
use vstd::math::{max, min};
use crate::geometry::Bounds;
use crate::registry::ActiveOutput;

verus! {

/// An output held under the pointer: its id, the pointer position, the
/// offset from the pointer to the output's origin fixed when it was grabbed,
/// and the output's size.
#[derive(Clone, Copy, Debug, PartialEq, Eq)]
pub struct MouseTracker {
    pub id: u16,
    pub pos: (i32, i32),
    pub offset: (i32, i32),
    pub size: (u32, u32),
}

impl MouseTracker {
    /// Where the dragged output's origin is.
    pub open spec fn origin(self) -> (int, int) {
        (self.pos.0 + self.offset.0, self.pos.1 + self.offset.1)
    }

    /// The centre of the dragged output.
    pub open spec fn center(self) -> (int, int) {
        (self.origin().0 + self.size.0 / 2, self.origin().1 + self.size.1 / 2)
    }

    pub open spec fn with_pos(self, p: (i32, i32)) -> MouseTracker {
        MouseTracker { pos: p, ..self }
    }
}

pub open spec fn rect_center(b: Bounds) -> (int, int) {
    (b.x + b.width / 2, b.y + b.height / 2)
}

pub open spec fn dist_sq(a: (int, int), b: (int, int)) -> int {
    (a.0 - b.0) * (a.0 - b.0) + (a.1 - b.1) * (a.1 - b.1)
}

/// Squared distance between the dragged output's centre and output `j`'s.
pub open spec fn dist_to(outputs: Seq<ActiveOutput>, m: MouseTracker, j: int) -> int {
    dist_sq(rect_center(outputs[j].rect), m.center())
}

/// Output `j` is another output than the dragged one.
pub open spec fn is_other(outputs: Seq<ActiveOutput>, m: MouseTracker, j: int) -> bool {
    0 <= j < outputs.len() && outputs[j].id != m.id
}

/// Output `k` is the nearest other output; among equally near ones it is the
/// last in order.
pub open spec fn is_nearest(outputs: Seq<ActiveOutput>, m: MouseTracker, k: int) -> bool {
    &&& is_other(outputs, m, k)
    &&& forall|j: int| #[trigger] is_other(outputs, m, j) ==> dist_to(outputs, m, k) <= dist_to(outputs, m, j)
    &&& forall|j: int| k < j && #[trigger] is_other(outputs, m, j) ==> dist_to(outputs, m, k) < dist_to(outputs, m, j)
}

/// The nearest other output, if there is another output at all.
pub open spec fn nearest(outputs: Seq<ActiveOutput>, m: MouseTracker) -> Option<int> {
    if exists|k: int| is_nearest(outputs, m, k) {
        Some(choose|k: int| is_nearest(outputs, m, k))
    } else {
        None
    }
}

/// Overlap of the dragged output and `n` along x: positive where they
/// overlap by that much, negative where a gap of that width separates them.
pub open spec fn overlap_x(m: MouseTracker, n: Bounds) -> int {
    m.size.0 + n.width - (max(m.origin().0 + m.size.0, n.right()) - min(m.origin().0, n.x as int))
}

/// Overlap of the dragged output and `n` along y, as `overlap_x`.
pub open spec fn overlap_y(m: MouseTracker, n: Bounds) -> int {
    m.size.1 + n.height - (max(m.origin().1 + m.size.1, n.bottom()) - min(m.origin().1, n.y as int))
}

/// The pointer position after snapping against the neighbour `n`: nothing
/// moves where the two are separated on both axes; otherwise the position
/// moves along the axis of smaller overlap, by that overlap, away from the
/// neighbour's centre.
pub open spec fn snapped_pos(m: MouseTracker, n: Bounds) -> (int, int) {
    let ox = overlap_x(m, n);
    let oy = overlap_y(m, n);
    if ox < 0 && oy < 0 {
        (m.pos.0 as int, m.pos.1 as int)
    } else if ox < oy {
        (if m.center().0 < rect_center(n).0 { m.pos.0 - ox } else { m.pos.0 + ox }, m.pos.1 as int)
    } else {
        (m.pos.0 as int, if m.center().1 < rect_center(n).1 { m.pos.1 - oy } else { m.pos.1 + oy })
    }
}

/// The pointer position the overlap resolver moves the drag to.
pub open spec fn resolved_pos(outputs: Seq<ActiveOutput>, m: MouseTracker) -> (int, int) {
    match nearest(outputs, m) {
        Some(k) => snapped_pos(m, outputs[k].rect),
        None => (m.pos.0 as int, m.pos.1 as int),
    }
}

pub open spec fn fits_i32(p: (int, int)) -> bool {
    i32::MIN <= p.0 <= i32::MAX && i32::MIN <= p.1 <= i32::MAX
}

/// What the resolver leaves of a drag: the resolved position where it can be
/// represented, else the drag unchanged.
pub open spec fn resolved(outputs: Seq<ActiveOutput>, m: MouseTracker) -> MouseTracker {
    let p = resolved_pos(outputs, m);
    if fits_i32(p) {
        m.with_pos((p.0 as i32, p.1 as i32))
    } else {
        m
    }
}

proof fn lemma_nearest_unique(outputs: Seq<ActiveOutput>, m: MouseTracker, k1: int, k2: int)
    requires
        is_nearest(outputs, m, k1),
        is_nearest(outputs, m, k2),
    ensures
        k1 == k2,
{
    if k1 < k2 {
        assert(is_other(outputs, m, k2));
    } else if k2 < k1 {
        assert(is_other(outputs, m, k1));
    }
}

/// Where `k` is the nearest other output, `nearest` names it.
pub proof fn lemma_nearest_is(outputs: Seq<ActiveOutput>, m: MouseTracker, k: int)
    requires
        is_nearest(outputs, m, k),
    ensures
        nearest(outputs, m) == Some(k),
{
    let c = choose|k: int| is_nearest(outputs, m, k);
    lemma_nearest_unique(outputs, m, c, k);
}

/// A drag that is separated from its nearest neighbour on both axes, a
/// diagonal placement, is left where it is.
pub proof fn diagonal_separation_is_kept(outputs: Seq<ActiveOutput>, m: MouseTracker)
    requires
        nearest(outputs, m) matches Some(k) && overlap_x(m, outputs[k].rect) < 0 && overlap_y(
            m,
            outputs[k].rect,
        ) < 0,
    ensures
        resolved(outputs, m) == m,
{
}

/// Two outputs of one size, level with each other: a drag of the first that
/// ends short of the second or slightly into it, by less than the size, is
/// snapped so that its right edge is exactly the second's left edge, and
/// resolving again leaves it there.
pub proof fn side_by_side_snap_settles(outputs: Seq<ActiveOutput>, m: MouseTracker)
    requires
        outputs.len() == 2,
        outputs[0].id == m.id,
        outputs[1].id != m.id,
        outputs[1].rect.wf(),
        m.size == (outputs[1].rect.width, outputs[1].rect.height),
        m.origin().1 == outputs[1].rect.y,
        m.origin().0 + m.size.0 - outputs[1].rect.x < m.size.0,
        m.origin().0 + m.size.0 - outputs[1].rect.x < m.size.1,
        fits_i32((m.pos.0 - (m.origin().0 + m.size.0 - outputs[1].rect.x), m.pos.1 as int)),
    ensures
        resolved(outputs, m).origin().0 + m.size.0 == outputs[1].rect.x,
        resolved(outputs, m).origin().1 == outputs[1].rect.y,
        resolved(outputs, resolved(outputs, m)) == resolved(outputs, m),
{
    let b = outputs[1].rect;
    assert(is_nearest(outputs, m, 1)) by {
        assert forall|j: int| #[trigger] is_other(outputs, m, j) implies j == 1 by {}
    }
    lemma_nearest_is(outputs, m, 1);
    let e = m.origin().0 + m.size.0 - b.x;
    assert(overlap_x(m, b) == e);
    assert(overlap_y(m, b) == m.size.1);
    let r = resolved(outputs, m);
    assert(r.pos.0 == m.pos.0 - e);
    assert(is_nearest(outputs, r, 1)) by {
        assert forall|j: int| #[trigger] is_other(outputs, r, j) implies j == 1 by {}
    }
    lemma_nearest_is(outputs, r, 1);
    assert(overlap_x(r, b) == 0);
    assert(overlap_y(r, b) == m.size.1);
}

/// Squared distance from the centre of `b` to `c`.
fn center_dist_sq(b: &Bounds, c: (i64, i64)) -> (r: i128)
    requires
        -0x2_0000_0000 <= c.0 <= 0x2_0000_0000,
        -0x2_0000_0000 <= c.1 <= 0x2_0000_0000,
    ensures
        r == dist_sq(rect_center(*b), (c.0 as int, c.1 as int)),
{
    let dx = (b.x as i64 + b.width as i64 / 2 - c.0) as i128;
    let dy = (b.y as i64 + b.height as i64 / 2 - c.1) as i128;
    assert(0 <= dx * dx <= 0x10_0000_0000_0000_0000) by (nonlinear_arith)
        requires
            -0x4_0000_0000 <= dx <= 0x4_0000_0000,
    ;
    assert(0 <= dy * dy <= 0x10_0000_0000_0000_0000) by (nonlinear_arith)
        requires
            -0x4_0000_0000 <= dy <= 0x4_0000_0000,
    ;
    dx * dx + dy * dy
}

/// Index of the output nearest to the dragged one, by squared distance
/// between centres, leaving out the dragged output itself; where several are
/// equally near, the last of them.
pub fn nearest_neighbor(moved: &MouseTracker, outputs: &[ActiveOutput]) -> (r: Option<usize>)
    ensures
        match r {
            Some(k) => {
                &&& nearest(outputs@, *moved) == Some(k as int)
                &&& is_nearest(outputs@, *moved, k as int)
            },
            None => {
                &&& nearest(outputs@, *moved) is None
                &&& forall|j: int| !is_other(outputs@, *moved, j)
            },
        },
{
    let cx = moved.pos.0 as i64 + moved.offset.0 as i64 + moved.size.0 as i64 / 2;
    let cy = moved.pos.1 as i64 + moved.offset.1 as i64 + moved.size.1 as i64 / 2;
    let mut best: Option<(i128, usize)> = None;
    let mut i: usize = 0;
    while i < outputs.len()
        invariant
            i <= outputs.len(),
            cx == moved.center().0,
            cy == moved.center().1,
            match best {
                None => forall|j: int| j < i ==> !is_other(outputs@, *moved, j),
                Some((d, k)) => {
                    &&& k < i
                    &&& is_other(outputs@, *moved, k as int)
                    &&& d == dist_to(outputs@, *moved, k as int)
                    &&& forall|j: int| j < i && #[trigger] is_other(outputs@, *moved, j)
                        ==> d <= dist_to(outputs@, *moved, j)
                    &&& forall|j: int| k < j < i && #[trigger] is_other(outputs@, *moved, j)
                        ==> d < dist_to(outputs@, *moved, j)
                },
            },
        decreases outputs.len() - i,
    {
        if outputs[i].id != moved.id {
            let d = center_dist_sq(&outputs[i].rect, (cx, cy));
            match best {
                Some((bd, _)) => {
                    if d <= bd {
                        best = Some((d, i));
                    }
                },
                None => {
                    best = Some((d, i));
                },
            }
        }
        i = i + 1;
    }
    match best {
        Some((_, k)) => {
            proof {
                lemma_nearest_is(outputs@, *moved, k as int);
            }
            Some(k)
        },
        None => None,
    }
}

/// Signed overlap of the intervals `[p, p + len)` and `[q, q + qlen)`.
fn overlap_1d(p: i64, len: i64, q: i64, qlen: i64) -> (r: i64)
    requires
        -0x2_0000_0000 <= p <= 0x2_0000_0000,
        -0x2_0000_0000 <= q <= 0x2_0000_0000,
        0 <= len <= 0x1_0000_0000,
        0 <= qlen <= 0x1_0000_0000,
    ensures
        r == len + qlen - (max(p + len, q + qlen) - min(p as int, q as int)),
{
    let far = if p + len >= q + qlen { p + len } else { q + qlen };
    let near = if p <= q { p } else { q };
    len + qlen - (far - near)
}

/// The pointer position after snapping against `n`; see `snapped_pos`.
fn snap(moved: &MouseTracker, n: &Bounds) -> (r: (i64, i64))
    ensures
        (r.0 as int, r.1 as int) == snapped_pos(*moved, *n),
{
    let px = moved.pos.0 as i64 + moved.offset.0 as i64;
    let py = moved.pos.1 as i64 + moved.offset.1 as i64;
    let w = moved.size.0 as i64;
    let h = moved.size.1 as i64;
    let ox = overlap_1d(px, w, n.x as i64, n.width as i64);
    let oy = overlap_1d(py, h, n.y as i64, n.height as i64);
    let x = moved.pos.0 as i64;
    let y = moved.pos.1 as i64;
    if ox < 0 && oy < 0 {
        (x, y)
    } else if ox < oy {
        if px + w / 2 < n.x as i64 + n.width as i64 / 2 {
            (x - ox, y)
        } else {
            (x + ox, y)
        }
    } else {
        if py + h / 2 < n.y as i64 + n.height as i64 / 2 {
            (x, y - oy)
        } else {
            (x, y + oy)
        }
    }
}

/// Moves a drag so that it does not float loose from, nor sink into, its
/// nearest neighbour: see `snapped_pos`. A position that would leave the
/// range of `i32` is not taken.
pub fn handle_overlap(moved: MouseTracker, outputs: &[ActiveOutput]) -> (r: MouseTracker)
    ensures
        r == resolved(outputs@, moved),
        r.id == moved.id,
        r.offset == moved.offset,
        r.size == moved.size,
{
    match nearest_neighbor(&moved, outputs) {
        None => moved,
        Some(k) => {
            let (x, y) = snap(&moved, &outputs[k].rect);
            if i32::MIN as i64 <= x && x <= i32::MAX as i64 && i32::MIN as i64 <= y && y
                <= i32::MAX as i64 {
                MouseTracker { pos: (x as i32, y as i32), ..moved }
            } else {
                moved
            }
        },
    }
}

} // verus!
