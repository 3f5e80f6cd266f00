//! What the rendering surface is asked to draw each frame, and where the
//! layout sits on it.
use vstd::prelude::*;
use vstd::math::{max, min};
use crate::geometry::Bounds;
use crate::registry::{ActiveOutput, InactiveOutput};
use crate::drag::MouseTracker;
use crate::editor::{Editor, Viewport};

verus! {

/// A colour as red, green and blue.
#[derive(Clone, Copy, Debug, PartialEq, Eq, Structural)]
pub struct Rgb {
    pub r: u8,
    pub g: u8,
    pub b: u8,
}

/// A filled rectangle in surface coordinates.
#[derive(Clone, Copy, Debug, PartialEq, Eq, Structural)]
pub struct DrawRect {
    pub bounds: Bounds,
    pub color: Rgb,
}

/// `v`, or the nearest end of the `i32` range.
pub open spec fn sat(v: int) -> i32 {
    if v < i32::MIN {
        i32::MIN
    } else if v > i32::MAX {
        i32::MAX
    } else {
        v as i32
    }
}

/// Half of `v`, rounded toward zero.
pub open spec fn half(v: int) -> int {
    if v >= 0 {
        v / 2
    } else {
        -((-v) / 2)
    }
}

/// The smallest left and top and the largest right and bottom edges among
/// the first `n` outputs, the origin included.
pub open spec fn extent_upto(s: Seq<ActiveOutput>, n: int) -> (int, int, int, int)
    decreases n,
{
    if n <= 0 {
        (0, 0, 0, 0)
    } else {
        let e = extent_upto(s, n - 1);
        let b = s[n - 1].rect;
        (min(e.0, b.x as int), min(e.1, b.y as int), max(e.2, b.right()), max(e.3, b.bottom()))
    }
}

/// The offset that puts the middle of the layout's extent at the middle of
/// a window of `window` pixels, at `scale` layout units per pixel.
pub open spec fn centering(window: (u32, u32), scale: u32, s: Seq<ActiveOutput>) -> (i32, i32) {
    let e = extent_upto(s, s.len() as int);
    (
        sat(window.0 * scale / 2 - half(e.0 + e.2)),
        sat(window.1 * scale / 2 - half(e.1 + e.3)),
    )
}

pub open spec fn palette(i: int) -> Rgb {
    if i % 3 == 0 {
        Rgb { r: 255, g: 0, b: 0 }
    } else if i % 3 == 1 {
        Rgb { r: 0, g: 255, b: 0 }
    } else {
        Rgb { r: 0, g: 0, b: 255 }
    }
}

pub open spec fn selected_color() -> Rgb {
    Rgb { r: 200, g: 200, b: 200 }
}

pub open spec fn ghost_color() -> Rgb {
    Rgb { r: 100, g: 100, b: 100 }
}

pub open spec fn inactive_color() -> Rgb {
    Rgb { r: 200, g: 200, b: 200 }
}

/// The drag drawn where it stands now.
pub open spec fn ghost_rect(v: Viewport, m: MouseTracker) -> DrawRect {
    DrawRect {
        bounds: Bounds {
            x: sat(m.origin().0 + v.center_x),
            y: sat(m.origin().1 + v.center_y),
            width: m.size.0,
            height: m.size.1,
        },
        color: ghost_color(),
    }
}

/// Active output `i`, shifted by the centring offset; the one being dragged
/// is drawn in the selection colour.
pub open spec fn active_rect(v: Viewport, s: Seq<ActiveOutput>, i: int, sel: Option<MouseTracker>) -> DrawRect {
    DrawRect {
        bounds: Bounds {
            x: sat(s[i].rect.x + v.center_x),
            y: sat(s[i].rect.y + v.center_y),
            width: s[i].rect.width,
            height: s[i].rect.height,
        },
        color: if sel matches Some(m) && m.id == s[i].id {
            selected_color()
        } else {
            palette(i)
        },
    }
}

/// Inactive output `i`, a square in the row along the top edge.
pub open spec fn inactive_rect(v: Viewport, i: int) -> DrawRect {
    DrawRect {
        bounds: Bounds {
            x: sat(i * v.inactive_size),
            y: 0,
            width: v.inactive_size,
            height: v.inactive_size,
        },
        color: inactive_color(),
    }
}

fn saturate(v: i64) -> (r: i32)
    ensures
        r == sat(v as int),
{
    if v < i32::MIN as i64 {
        i32::MIN
    } else if v > i32::MAX as i64 {
        i32::MAX
    } else {
        v as i32
    }
}

/// The offset that centres the layout in the window; see `centering`.
pub fn center_offset(window: (u32, u32), scale: u32, outputs: &[ActiveOutput]) -> (r: (i32, i32))
    ensures
        r == centering(window, scale, outputs@),
{
    let mut left: i64 = 0;
    let mut top: i64 = 0;
    let mut right: i64 = 0;
    let mut bottom: i64 = 0;
    let mut i: usize = 0;
    while i < outputs.len()
        invariant
            i <= outputs.len(),
            (left as int, top as int, right as int, bottom as int) == extent_upto(outputs@, i as int),
            i32::MIN <= left <= 0,
            i32::MIN <= top <= 0,
            0 <= right <= i32::MAX + u32::MAX,
            0 <= bottom <= i32::MAX + u32::MAX,
        decreases outputs.len() - i,
    {
        let b = &outputs[i].rect;
        if (b.x as i64) < left {
            left = b.x as i64;
        }
        if (b.y as i64) < top {
            top = b.y as i64;
        }
        if b.x as i64 + b.width as i64 > right {
            right = b.x as i64 + b.width as i64;
        }
        if b.y as i64 + b.height as i64 > bottom {
            bottom = b.y as i64 + b.height as i64;
        }
        i = i + 1;
    }
    let w = window.0 as i128;
    let h = window.1 as i128;
    let k = scale as i128;
    assert(0 <= w * k <= 0x1_0000_0000_0000_0000) by (nonlinear_arith)
        requires
            0 <= w <= 0x1_0000_0000,
            0 <= k <= 0x1_0000_0000,
    ;
    assert(0 <= h * k <= 0x1_0000_0000_0000_0000) by (nonlinear_arith)
        requires
            0 <= h <= 0x1_0000_0000,
            0 <= k <= 0x1_0000_0000,
    ;
    let sx = left as i128 + right as i128;
    let sy = top as i128 + bottom as i128;
    let hx = if sx >= 0 { sx / 2 } else { -((-sx) / 2) };
    let hy = if sy >= 0 { sy / 2 } else { -((-sy) / 2) };
    let cx = w * k / 2 - hx;
    let cy = h * k / 2 - hy;
    let rx = if cx < i32::MIN as i128 { i32::MIN } else if cx > i32::MAX as i128 { i32::MAX } else { cx as i32 };
    let ry = if cy < i32::MIN as i128 { i32::MIN } else if cy > i32::MAX as i128 { i32::MAX } else { cy as i32 };
    (rx, ry)
}

/// The rectangles of one frame, in drawing order: the drag in progress, if
/// any, then each active output, then each inactive output.
pub fn draw_list(v: &Viewport, editor: &Editor, active: &[ActiveOutput], inactive: &[InactiveOutput]) -> (r:
    Vec<DrawRect>)
    ensures
        ({
            let g: int = if editor.selected is Some { 1 } else { 0 };
            &&& r@.len() == g + active.len() + inactive.len()
            &&& editor.selected matches Some(m) ==> r@[0] == ghost_rect(*v, m)
            &&& forall|i: int|
                0 <= i < active.len() ==> r@[g + i] == active_rect(*v, active@, i, editor.selected)
            &&& forall|i: int|
                0 <= i < inactive.len() ==> r@[g + active.len() + i] == inactive_rect(*v, i)
        }),
{
    let mut out: Vec<DrawRect> = Vec::new();
    let g: usize = match editor.selected {
        Some(m) => {
            let x = saturate(m.pos.0 as i64 + m.offset.0 as i64 + v.center_x as i64);
            let y = saturate(m.pos.1 as i64 + m.offset.1 as i64 + v.center_y as i64);
            out.push(
                DrawRect {
                    bounds: Bounds { x, y, width: m.size.0, height: m.size.1 },
                    color: Rgb { r: 100, g: 100, b: 100 },
                },
            );
            1
        },
        None => 0,
    };
    let mut i: usize = 0;
    while i < active.len()
        invariant
            i <= active.len(),
            g == (if editor.selected is Some { 1int } else { 0 }),
            out@.len() == g + i,
            editor.selected matches Some(m) ==> out@[0] == ghost_rect(*v, m),
            forall|j: int| 0 <= j < i ==> out@[g + j] == active_rect(*v, active@, j, editor.selected),
        decreases active.len() - i,
    {
        let b = &active[i].rect;
        let x = saturate(b.x as i64 + v.center_x as i64);
        let y = saturate(b.y as i64 + v.center_y as i64);
        let selected = match editor.selected {
            Some(m) => m.id == active[i].id,
            None => false,
        };
        let color = if selected {
            Rgb { r: 200, g: 200, b: 200 }
        } else if i % 3 == 0 {
            Rgb { r: 255, g: 0, b: 0 }
        } else if i % 3 == 1 {
            Rgb { r: 0, g: 255, b: 0 }
        } else {
            Rgb { r: 0, g: 0, b: 255 }
        };
        out.push(DrawRect { bounds: Bounds { x, y, width: b.width, height: b.height }, color });
        i = i + 1;
    }
    let mut cell_x: i64 = 0;
    let mut i: usize = 0;
    while i < inactive.len()
        invariant
            i <= inactive.len(),
            g == (if editor.selected is Some { 1int } else { 0 }),
            out@.len() == g + active.len() + i,
            editor.selected matches Some(m) ==> out@[0] == ghost_rect(*v, m),
            forall|j: int|
                0 <= j < active.len() ==> out@[g + j] == active_rect(*v, active@, j, editor.selected),
            forall|j: int| 0 <= j < i ==> out@[g + active.len() + j] == inactive_rect(*v, j),
            0 <= cell_x <= i32::MAX as int + u32::MAX as int,
            cell_x > i32::MAX ==> cell_x == i32::MAX as int + 1 && i * v.inactive_size > i32::MAX,
            cell_x <= i32::MAX ==> cell_x == i * v.inactive_size,
        decreases inactive.len() - i,
    {
        let x = saturate(cell_x);
        let size = v.inactive_size;
        out.push(
            DrawRect {
                bounds: Bounds { x, y: 0, width: size, height: size },
                color: Rgb { r: 200, g: 200, b: 200 },
            },
        );
        proof {
            assert((i + 1) * v.inactive_size == i * v.inactive_size + v.inactive_size) by (nonlinear_arith);
        }
        if cell_x <= i32::MAX as i64 {
            cell_x = cell_x + size as i64;
        }
        if cell_x > i32::MAX as i64 {
            cell_x = i32::MAX as i64 + 1;
        }
        i = i + 1;
    }
    out
}

} // verus!
