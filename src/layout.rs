//! What happens when a drag is released: the drag's position is written to
//! the output it holds, and the whole layout is translated so that its
//! smallest x and smallest y are both zero.
use vstd::prelude::*;
use vstd::math::min;
use crate::geometry::Bounds;
use crate::registry::ActiveOutput;
use crate::drag::MouseTracker;

verus! {

/// Where output `o` stands once the drag `m` is released: at the drag's
/// origin if `m` holds it, else where it was.
pub open spec fn placed(o: ActiveOutput, m: MouseTracker) -> (int, int) {
    if o.id == m.id {
        m.origin()
    } else {
        (o.rect.x as int, o.rect.y as int)
    }
}

/// The smallest x among the first `n` placed outputs.
pub open spec fn min_x_upto(s: Seq<ActiveOutput>, m: MouseTracker, n: int) -> int
    decreases n,
{
    if n <= 1 {
        placed(s[0], m).0
    } else {
        min(min_x_upto(s, m, n - 1), placed(s[n - 1], m).0)
    }
}

/// The smallest y among the first `n` placed outputs.
pub open spec fn min_y_upto(s: Seq<ActiveOutput>, m: MouseTracker, n: int) -> int
    decreases n,
{
    if n <= 1 {
        placed(s[0], m).1
    } else {
        min(min_y_upto(s, m, n - 1), placed(s[n - 1], m).1)
    }
}

/// Output `i` of the layout after release and normalization.
pub open spec fn normalized_at(s: Seq<ActiveOutput>, m: MouseTracker, i: int) -> (int, int) {
    (placed(s[i], m).0 - min_x_upto(s, m, s.len() as int), placed(s[i], m).1 - min_y_upto(
        s,
        m,
        s.len() as int,
    ))
}

/// Both normalized coordinates of output `i` can be held in an `i32`.
pub open spec fn normalized_fits_at(s: Seq<ActiveOutput>, m: MouseTracker, i: int) -> bool {
    normalized_at(s, m, i).0 <= i32::MAX && normalized_at(s, m, i).1 <= i32::MAX
}

/// Every normalized coordinate can be held in an `i32`.
pub open spec fn normalized_fits(s: Seq<ActiveOutput>, m: MouseTracker) -> bool {
    forall|i: int| 0 <= i < s.len() ==> #[trigger] normalized_fits_at(s, m, i)
}

/// `r` is `s` with output `i` moved to `normalized_at(s, m, i)`, all else kept.
pub open spec fn is_normalized(s: Seq<ActiveOutput>, m: MouseTracker, r: Seq<ActiveOutput>) -> bool {
    &&& r.len() == s.len()
    &&& forall|i: int|
        0 <= i < s.len() ==> {
            &&& (#[trigger] r[i]).id == s[i].id
            &&& r[i].name == s[i].name
            &&& r[i].rect.width == s[i].rect.width
            &&& r[i].rect.height == s[i].rect.height
            &&& r[i].rect.x == normalized_at(s, m, i).0
            &&& r[i].rect.y == normalized_at(s, m, i).1
        }
}

proof fn lemma_min_bounds(s: Seq<ActiveOutput>, m: MouseTracker, n: int)
    requires
        1 <= n <= s.len(),
    ensures
        forall|i: int| 0 <= i < n ==> min_x_upto(s, m, n) <= #[trigger] placed(s[i], m).0,
        forall|i: int| 0 <= i < n ==> min_y_upto(s, m, n) <= #[trigger] placed(s[i], m).1,
        exists|i: int| 0 <= i < n && min_x_upto(s, m, n) == #[trigger] placed(s[i], m).0,
        exists|i: int| 0 <= i < n && min_y_upto(s, m, n) == #[trigger] placed(s[i], m).1,
    decreases n,
{
    if n > 1 {
        lemma_min_bounds(s, m, n - 1);
        if min_x_upto(s, m, n) == placed(s[n - 1], m).0 {
            assert(placed(s[n - 1], m).0 == min_x_upto(s, m, n));
        }
        if min_y_upto(s, m, n) == placed(s[n - 1], m).1 {
            assert(placed(s[n - 1], m).1 == min_y_upto(s, m, n));
        }
    } else {
        assert(placed(s[0], m).0 == min_x_upto(s, m, n));
        assert(placed(s[0], m).1 == min_y_upto(s, m, n));
    }
}

/// After a drag is released the layout is anchored at the origin: no output
/// lies left of x = 0 or above y = 0, some output touches each of those
/// lines, and every two outputs keep the offset between them that they had
/// with the drag applied, so one translation was made.
pub proof fn normalized_layout_is_anchored(s: Seq<ActiveOutput>, m: MouseTracker)
    requires
        s.len() > 0,
    ensures
        forall|i: int|
            0 <= i < s.len() ==> #[trigger] normalized_at(s, m, i).0 >= 0 && normalized_at(
                s,
                m,
                i,
            ).1 >= 0,
        exists|i: int| 0 <= i < s.len() && #[trigger] normalized_at(s, m, i).0 == 0,
        exists|i: int| 0 <= i < s.len() && #[trigger] normalized_at(s, m, i).1 == 0,
        forall|i: int, j: int|
            0 <= i < s.len() && 0 <= j < s.len() ==> #[trigger] normalized_at(s, m, i).0
                - #[trigger] normalized_at(s, m, j).0 == placed(s[i], m).0 - placed(s[j], m).0
                && normalized_at(s, m, i).1 - normalized_at(s, m, j).1 == placed(s[i], m).1
                - placed(s[j], m).1,
{
    let n = s.len() as int;
    lemma_min_bounds(s, m, n);
    assert forall|i: int| 0 <= i < n implies #[trigger] normalized_at(s, m, i).0 >= 0
        && normalized_at(s, m, i).1 >= 0 by {
        assert(min_x_upto(s, m, n) <= placed(s[i], m).0);
        assert(min_y_upto(s, m, n) <= placed(s[i], m).1);
    }
    let ix = choose|i: int| 0 <= i < n && min_x_upto(s, m, n) == #[trigger] placed(s[i], m).0;
    assert(normalized_at(s, m, ix).0 == 0);
    let iy = choose|i: int| 0 <= i < n && min_y_upto(s, m, n) == #[trigger] placed(s[i], m).1;
    assert(normalized_at(s, m, iy).1 == 0);
}

/// The layout after the drag `moved` is released: the output it holds takes
/// the drag's origin, then every output is shifted by the smallest x and the
/// smallest y so that both become zero. `None` where a shifted coordinate
/// would not fit in an `i32`.
pub fn update_output_position(moved: MouseTracker, outputs: &[ActiveOutput]) -> (r: Option<
    Vec<ActiveOutput>,
>)
    ensures
        r is Some <==> normalized_fits(outputs@, moved),
        r matches Some(v) ==> is_normalized(outputs@, moved, v@),
{
    let n = outputs.len();
    if n == 0 {
        return Some(Vec::new());
    }
    let ox = moved.pos.0 as i64 + moved.offset.0 as i64;
    let oy = moved.pos.1 as i64 + moved.offset.1 as i64;
    let mut min_x: i64 = 0;
    let mut min_y: i64 = 0;
    let mut i: usize = 0;
    while i < n
        invariant
            n == outputs.len(),
            n > 0,
            i <= n,
            ox == moved.origin().0,
            oy == moved.origin().1,
            i > 0 ==> min_x == min_x_upto(outputs@, moved, i as int),
            i > 0 ==> min_y == min_y_upto(outputs@, moved, i as int),
            -0x1_0000_0000 <= min_x <= 0x1_0000_0000,
            -0x1_0000_0000 <= min_y <= 0x1_0000_0000,
        decreases n - i,
    {
        let (px, py) = if outputs[i].id == moved.id {
            (ox, oy)
        } else {
            (outputs[i].rect.x as i64, outputs[i].rect.y as i64)
        };
        if i == 0 || px < min_x {
            min_x = px;
        }
        if i == 0 || py < min_y {
            min_y = py;
        }
        i = i + 1;
    }
    let mut result: Vec<ActiveOutput> = Vec::new();
    let mut i: usize = 0;
    while i < n
        invariant
            n == outputs.len(),
            n > 0,
            i <= n,
            ox == moved.origin().0,
            oy == moved.origin().1,
            min_x == min_x_upto(outputs@, moved, n as int),
            min_y == min_y_upto(outputs@, moved, n as int),
            -0x1_0000_0000 <= min_x <= 0x1_0000_0000,
            -0x1_0000_0000 <= min_y <= 0x1_0000_0000,
            result@.len() == i,
            forall|j: int| 0 <= j < i ==> #[trigger] normalized_fits_at(outputs@, moved, j),
            forall|j: int|
                0 <= j < i ==> {
                    &&& (#[trigger] result@[j]).id == outputs@[j].id
                    &&& result@[j].name == outputs@[j].name
                    &&& result@[j].rect.width == outputs@[j].rect.width
                    &&& result@[j].rect.height == outputs@[j].rect.height
                    &&& result@[j].rect.x == normalized_at(outputs@, moved, j).0
                    &&& result@[j].rect.y == normalized_at(outputs@, moved, j).1
                },
        decreases n - i,
    {
        let (px, py) = if outputs[i].id == moved.id {
            (ox, oy)
        } else {
            (outputs[i].rect.x as i64, outputs[i].rect.y as i64)
        };
        proof {
            lemma_min_bounds(outputs@, moved, n as int);
            assert(px == placed(outputs@[i as int], moved).0);
            assert(py == placed(outputs@[i as int], moved).1);
        }
        let nx = px - min_x;
        let ny = py - min_y;
        assert(nx == normalized_at(outputs@, moved, i as int).0 && ny == normalized_at(
            outputs@,
            moved,
            i as int,
        ).1);
        if nx > i32::MAX as i64 || ny > i32::MAX as i64 {
            assert(!normalized_fits_at(outputs@, moved, i as int));
            return None;
        }
        let o = ActiveOutput {
            id: outputs[i].id,
            name: outputs[i].name.clone(),
            rect: Bounds {
                x: nx as i32,
                y: ny as i32,
                width: outputs[i].rect.width,
                height: outputs[i].rect.height,
            },
        };
        result.push(o);
        i = i + 1;
    }
    Some(result)
}

} // verus!
