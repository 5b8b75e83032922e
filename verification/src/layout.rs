//! Window-position arithmetic: place a child rectangle inside a parent
//! rectangle with an alignment, an optional fixed size, and optional margin
//! and padding.

use vstd::prelude::*;

verus! {

/// A rectangle as `(left, top, right, bottom)`.
pub type Bounds = (i32, i32, i32, i32);

/// Horizontal placement of a child inside its parent.
#[derive(Debug, Copy, Clone, PartialEq, Eq, Structural)]
pub enum HorizontalAlignment {
    Left,
    Center,
    Right,
}

/// Vertical placement of a child inside its parent.
#[derive(Debug, Copy, Clone, PartialEq, Eq, Structural)]
pub enum VerticalAlignment {
    Top,
    Center,
    Bottom,
}

/// Every coordinate small enough that the position arithmetic stays within
/// `i32`.
pub open spec fn bounded(v: int) -> bool {
    -0x1000_0000 <= v <= 0x1000_0000
}

/// The computed placement, as exact formulas over the inputs.  The child
/// takes the requested size, or fills the parent; it is aligned in the
/// parent, shifted by the margin, and shrunk by the padding.
pub open spec fn calc_window_pos_spec(
    parent: Bounds,
    width: Option<i32>,
    height: Option<i32>,
    margin: Option<Bounds>,
    padding: Option<Bounds>,
    hor_align: HorizontalAlignment,
    vert_align: VerticalAlignment,
) -> (int, int, int, int) {
    let parent_w = parent.2 - parent.0;
    let parent_h = parent.3 - parent.1;
    let w = match width {
        Some(w) => w as int,
        None => parent_w,
    };
    let h = match height {
        Some(h) => h as int,
        None => parent_h,
    };
    let x = match hor_align {
        HorizontalAlignment::Left => 0,
        HorizontalAlignment::Center => (parent_w / 2) - (w / 2),
        HorizontalAlignment::Right => parent_w - w,
    };
    let y = match vert_align {
        VerticalAlignment::Top => 0,
        VerticalAlignment::Center => (parent_h / 2) - (h / 2),
        VerticalAlignment::Bottom => parent_h - h,
    };
    let m = match margin {
        Some(m) => m,
        None => (0, 0, 0, 0),
    };
    let p = match padding {
        Some(p) => p,
        None => (0, 0, 0, 0),
    };
    (
        x + m.0 - m.2 + p.0,
        y + m.1 - m.3 + p.1,
        w - p.0 - p.2,
        h - p.1 - p.3,
    )
}

/// Computes the placement of a child rectangle.  The bounds on the inputs
/// keep every intermediate value within `i32`; sizes are non-negative so
/// that centring divides non-negative numbers.
pub fn calc_window_pos(
    parent: Bounds,
    width: Option<i32>,
    height: Option<i32>,
    margin: Option<Bounds>,
    padding: Option<Bounds>,
    hor_align: HorizontalAlignment,
    vert_align: VerticalAlignment,
) -> (r: Bounds)
    requires
        parent.0 <= parent.2,
        parent.1 <= parent.3,
        bounded(parent.2 - parent.0),
        bounded(parent.3 - parent.1),
        (width matches Some(w) ==> 0 <= w <= 0x1000_0000),
        (height matches Some(h) ==> 0 <= h <= 0x1000_0000),
        (margin matches Some(m) ==> bounded(m.0 as int) && bounded(m.1 as int) && bounded(
            m.2 as int,
        ) && bounded(m.3 as int)),
        (padding matches Some(p) ==> bounded(p.0 as int) && bounded(p.1 as int) && bounded(
            p.2 as int,
        ) && bounded(p.3 as int)),
    ensures
        ({
            let expect = calc_window_pos_spec(
                parent,
                width,
                height,
                margin,
                padding,
                hor_align,
                vert_align,
            );
            r.0 == expect.0 && r.1 == expect.1 && r.2 == expect.2 && r.3 == expect.3
        }),
{
    let parent_w = parent.2 - parent.0;
    let parent_h = parent.3 - parent.1;
    let w = match width {
        Some(w) => w,
        None => parent_w,
    };
    let h = match height {
        Some(h) => h,
        None => parent_h,
    };
    let x = match hor_align {
        HorizontalAlignment::Left => 0,
        HorizontalAlignment::Center => (parent_w / 2) - (w / 2),
        HorizontalAlignment::Right => parent_w - w,
    };
    let y = match vert_align {
        VerticalAlignment::Top => 0,
        VerticalAlignment::Center => (parent_h / 2) - (h / 2),
        VerticalAlignment::Bottom => parent_h - h,
    };
    let m = match margin {
        Some(m) => m,
        None => (0, 0, 0, 0),
    };
    let p = match padding {
        Some(p) => p,
        None => (0, 0, 0, 0),
    };
    (
        x + m.0 - m.2 + p.0,
        y + m.1 - m.3 + p.1,
        w - p.0 - p.2,
        h - p.1 - p.3,
    )
}

} // verus!
