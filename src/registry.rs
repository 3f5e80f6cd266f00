//! The outputs known to the compositor, how a listing of them is split into
//! active and inactive ones, and hit-testing over both sets.
use vstd::prelude::*;
use crate::geometry::{Bounds, point_in_bounds, check_inside};

verus! {

/// An output the compositor has enabled: it has an identifier and geometry.
#[derive(Clone, Debug)]
pub struct ActiveOutput {
    pub id: u16,
    pub name: String,
    pub rect: Bounds,
}

/// An output the compositor knows of but has disabled; it has no geometry.
#[derive(Clone, Debug)]
pub struct InactiveOutput {
    pub name: String,
}

/// One output as the compositor lists it. An output without an identifier
/// is disabled.
#[derive(Clone, Debug)]
pub struct OutputRecord {
    pub id: Option<u16>,
    pub name: String,
    pub rect: Bounds,
}

/// The records that carry an identifier, as active outputs, in order.
pub open spec fn active_of(s: Seq<OutputRecord>) -> Seq<ActiveOutput>
    decreases s.len(),
{
    if s.len() == 0 {
        Seq::empty()
    } else {
        let rest = active_of(s.drop_last());
        match s.last().id {
            Some(id) => rest.push(ActiveOutput { id, name: s.last().name, rect: s.last().rect }),
            None => rest,
        }
    }
}

/// The records without an identifier, as inactive outputs, in order.
pub open spec fn inactive_of(s: Seq<OutputRecord>) -> Seq<InactiveOutput>
    decreases s.len(),
{
    if s.len() == 0 {
        Seq::empty()
    } else {
        let rest = inactive_of(s.drop_last());
        match s.last().id {
            Some(_) => rest,
            None => rest.push(InactiveOutput { name: s.last().name }),
        }
    }
}

/// Splits the compositor's listing into active and inactive outputs, each
/// in the order of the listing.
pub fn split_outputs(records: &[OutputRecord]) -> (r: (Vec<ActiveOutput>, Vec<InactiveOutput>))
    ensures
        r.0@ == active_of(records@),
        r.1@ == inactive_of(records@),
{
    let mut active: Vec<ActiveOutput> = Vec::new();
    let mut inactive: Vec<InactiveOutput> = Vec::new();
    let mut i: usize = 0;
    while i < records.len()
        invariant
            i <= records.len(),
            active@ == active_of(records@.subrange(0, i as int)),
            inactive@ == inactive_of(records@.subrange(0, i as int)),
        decreases records.len() - i,
    {
        let rec = &records[i];
        proof {
            assert(records@.subrange(0, i + 1).drop_last() =~= records@.subrange(0, i as int));
        }
        match rec.id {
            Some(id) => {
                active.push(ActiveOutput { id, name: rec.name.clone(), rect: rec.rect });
            },
            None => {
                inactive.push(InactiveOutput { name: rec.name.clone() });
            },
        }
        i = i + 1;
    }
    proof {
        assert(records@.subrange(0, records.len() as int) =~= records@);
    }
    (active, inactive)
}

/// Whether the point hits the `i`-th inactive output, which is drawn as a
/// square of side `cell` at `(i * cell, 0)`.
pub open spec fn in_inactive_cell(p: (i32, i32), i: int, cell: u32) -> bool {
    &&& i * cell <= p.0 <= i * cell + cell
    &&& 0 <= p.1 <= cell
}

/// Output `k` is the first whose bounds contain `p`.
pub open spec fn is_first_hit(p: (i32, i32), s: Seq<ActiveOutput>, k: int) -> bool {
    &&& 0 <= k < s.len()
    &&& point_in_bounds(p, s[k].rect)
    &&& forall|j: int| 0 <= j < k ==> !point_in_bounds(p, #[trigger] s[j].rect)
}

/// The first output whose bounds contain `p`, in order; order is the only
/// tie-break between outputs that both contain it.
pub open spec fn first_hit(p: (i32, i32), s: Seq<ActiveOutput>) -> Option<int> {
    if exists|k: int| is_first_hit(p, s, k) {
        Some(choose|k: int| is_first_hit(p, s, k))
    } else {
        None
    }
}

/// Cell `k` of `n` inactive outputs is the first that contains `p`.
pub open spec fn is_first_cell_hit(p: (i32, i32), n: int, cell: u32, k: int) -> bool {
    &&& 0 <= k < n
    &&& in_inactive_cell(p, k, cell)
    &&& forall|j: int| 0 <= j < k ==> !in_inactive_cell(p, j, cell)
}

/// The first of `n` inactive cells that contains `p`.
pub open spec fn first_cell_hit(p: (i32, i32), n: int, cell: u32) -> Option<int> {
    if exists|k: int| is_first_cell_hit(p, n, cell, k) {
        Some(choose|k: int| is_first_cell_hit(p, n, cell, k))
    } else {
        None
    }
}

pub open spec fn index_opt(r: Option<usize>) -> Option<int> {
    match r {
        Some(k) => Some(k as int),
        None => None,
    }
}

/// Index of the first active output whose bounds contain `point`.
pub fn check_touched(point: (i32, i32), outputs: &[ActiveOutput]) -> (r: Option<usize>)
    ensures
        index_opt(r) == first_hit(point, outputs@),
        match r {
            Some(k) => {
                &&& k < outputs.len()
                &&& point_in_bounds(point, outputs@[k as int].rect)
                &&& forall|j: int| 0 <= j < k ==> !point_in_bounds(point, #[trigger] outputs@[j].rect)
            },
            None => forall|j: int|
                0 <= j < outputs.len() ==> !point_in_bounds(point, #[trigger] outputs@[j].rect),
        },
{
    let mut i: usize = 0;
    while i < outputs.len()
        invariant
            i <= outputs.len(),
            forall|j: int| 0 <= j < i ==> !point_in_bounds(point, #[trigger] outputs@[j].rect),
        decreases outputs.len() - i,
    {
        if check_inside(point, &outputs[i].rect) {
            proof {
                let c = choose|k: int| is_first_hit(point, outputs@, k);
                assert(is_first_hit(point, outputs@, i as int));
                if c < i {
                    assert(!point_in_bounds(point, outputs@[c].rect));
                } else if c > i {
                    assert(!point_in_bounds(point, outputs@[i as int].rect));
                }
            }
            return Some(i);
        }
        i = i + 1;
    }
    None
}

proof fn lemma_cells_move_right(i: int, j: int, cell: int)
    requires
        0 <= i <= j,
        0 <= cell,
    ensures
        i * cell <= j * cell,
{
    assert(i * cell <= j * cell) by (nonlinear_arith)
        requires
            0 <= i <= j,
            0 <= cell,
    ;
}

/// Index of the first inactive output whose cell contains `point`.
pub fn check_inactive_touched(point: (i32, i32), inactive_size: u32, outputs: &[InactiveOutput]) -> (r:
    Option<usize>)
    ensures
        index_opt(r) == first_cell_hit(point, outputs.len() as int, inactive_size),
        match r {
            Some(k) => {
                &&& k < outputs.len()
                &&& in_inactive_cell(point, k as int, inactive_size)
                &&& forall|j: int| 0 <= j < k ==> !in_inactive_cell(point, j, inactive_size)
            },
            None => forall|j: int|
                0 <= j < outputs.len() ==> !in_inactive_cell(point, j, inactive_size),
        },
{
    let px = point.0 as i64;
    let py = point.1 as i64;
    let size = inactive_size as i64;
    let mut cell_x: i64 = 0;
    let mut i: usize = 0;
    while i < outputs.len()
        invariant
            i <= outputs.len(),
            px == point.0,
            py == point.1,
            size == inactive_size,
            cell_x == i * inactive_size,
            cell_x <= i32::MAX,
            forall|j: int| 0 <= j < i ==> !in_inactive_cell(point, j, inactive_size),
        decreases outputs.len() - i,
    {
        if cell_x <= px && px <= cell_x + size && 0 <= py && py <= size {
            proof {
                let n = outputs.len() as int;
                let c = choose|k: int| is_first_cell_hit(point, n, inactive_size, k);
                assert(is_first_cell_hit(point, n, inactive_size, i as int));
                if c < i {
                    assert(!in_inactive_cell(point, c, inactive_size));
                } else if c > i {
                    assert(!in_inactive_cell(point, i as int, inactive_size));
                }
            }
            return Some(i);
        }
        let next_x = cell_x + size;
        if next_x > i32::MAX as i64 {
            // every later cell starts to the right of any representable point
            assert forall|j: int| i < j < outputs.len() implies !in_inactive_cell(
                point,
                j,
                inactive_size,
            ) by {
                lemma_cells_move_right(i + 1, j, inactive_size as int);
                assert((i + 1) * inactive_size == i * inactive_size + inactive_size) by (nonlinear_arith);
            }
            return None;
        }
        proof {
            assert((i + 1) * inactive_size == i * inactive_size + inactive_size) by (nonlinear_arith);
        }
        cell_x = next_x;
        i = i + 1;
    }
    None
}

} // verus!
