//! Where a label box goes.
//!
//! A label box is a square of a configured edge length, anchored at one of
//! seven places of its window. All coordinates are absolute screen pixels.
//! Divisions round toward zero, and the results are wide enough that no
//! window geometry can overflow them.

use vstd::arithmetic::div_mod::{
    lemma_div_pos_is_pos, lemma_fundamental_div_mod, lemma_mod_pos_bound,
};
use vstd::arithmetic::mul::lemma_mul_inequality;
use vstd::prelude::*;

use crate::config::Position;
use crate::window::{Address, Window};

verus! {

/// The quotient of `a` by `b`, rounded toward zero.
pub open spec fn quot(a: int, b: int) -> int {
    if a >= 0 {
        a / b
    } else {
        -((-a) / b)
    }
}

/// Left edge of the label box of an ungrouped window at `px` that is `w` wide,
/// for a box of edge `b`.
pub open spec fn anchor_x(anchor: Position, px: int, w: int, b: int) -> int {
    match anchor {
        Position::TopCenter | Position::BottomCenter | Position::Center => px + quot(w, 2) - quot(
            b,
            2,
        ),
        Position::TopLeft | Position::BottomLeft => px,
        Position::TopRight | Position::BottomRight => px + w - b,
    }
}

/// Top edge of the label box of a window at `py` that is `h` high, for a box of
/// edge `b`.
pub open spec fn anchor_y(anchor: Position, py: int, h: int, b: int) -> int {
    match anchor {
        Position::TopCenter | Position::TopLeft | Position::TopRight => py,
        Position::BottomCenter => py - b + h,
        Position::BottomLeft | Position::BottomRight => py + h - b,
        Position::Center => py + quot(h, 2) - quot(b, 2),
    }
}

/// Left edge of the label box of the `index`-th member of a tabbed group of
/// `n` windows: the window's width is cut into `n` slots of equal width, and
/// the box is anchored inside the member's slot.
pub open spec fn slot_x(anchor: Position, px: int, w: int, b: int, n: int, index: int) -> int {
    let slot = quot(w, n);
    match anchor {
        Position::TopCenter | Position::Center | Position::BottomCenter => px + index * slot
            + quot(slot, 2),
        Position::TopLeft | Position::BottomLeft => px + index * slot,
        Position::TopRight | Position::BottomRight => px + slot - b + index * slot,
    }
}

/// `i` is the first place of `group` that holds `address`.
pub open spec fn is_first_match(group: Seq<Address>, address: Seq<char>, i: int) -> bool {
    &&& 0 <= i < group.len()
    &&& group[i]@ == address
    &&& forall|j: int| 0 <= j < i ==> (#[trigger] group[j])@ != address
}

/// The first place of `group` that holds `address`, if any does.
pub open spec fn position_in_group(group: Seq<Address>, address: Seq<char>) -> Option<int> {
    if exists|i: int| is_first_match(group, address, i) {
        Some(choose|i: int| is_first_match(group, address, i))
    } else {
        None
    }
}

/// The slot a window takes in its tabbed group. A window that is alone, or
/// that its own group list does not name, has none and is placed as an
/// ungrouped window.
pub open spec fn group_slot(win: Window) -> Option<int> {
    if win.grouped@.len() > 1 {
        position_in_group(win.grouped@, win.address@)
    } else {
        None
    }
}

/// Top-left corner of the label box of `win`.
pub open spec fn indicator_origin(win: Window, anchor: Position, b: int) -> (int, int) {
    let x = match group_slot(win) {
        Some(index) => slot_x(
            anchor,
            win.position.0 as int,
            win.size.0 as int,
            b,
            win.grouped@.len() as int,
            index,
        ),
        None => anchor_x(anchor, win.position.0 as int, win.size.0 as int, b),
    };
    (x, anchor_y(anchor, win.position.1 as int, win.size.1 as int, b))
}

/// A box that fits into its window lies inside it, whatever the anchor.
pub proof fn lemma_box_stays_inside(anchor: Position, px: int, py: int, w: int, h: int, b: int)
    requires
        0 <= b <= w,
        b <= h,
    ensures
        px <= anchor_x(anchor, px, w, b) <= px + w - b,
        py <= anchor_y(anchor, py, h, b) <= py + h - b,
{
}

/// The boxes of neighbouring tabs stand one slot apart.
pub proof fn lemma_tabs_stand_one_slot_apart(
    anchor: Position,
    px: int,
    w: int,
    b: int,
    n: int,
    index: int,
)
    ensures
        slot_x(anchor, px, w, b, n, index + 1) - slot_x(anchor, px, w, b, n, index) == quot(w, n),
{
    let slot = quot(w, n);
    assert((index + 1) * slot == index * slot + slot) by (nonlinear_arith);
}

/// A first match is the only first match.
pub proof fn lemma_first_match_unique(group: Seq<Address>, address: Seq<char>, i: int, j: int)
    requires
        is_first_match(group, address, i),
        is_first_match(group, address, j),
    ensures
        i == j,
{
    if i < j {
        assert(group[i]@ != address);
    } else if j < i {
        assert(group[j]@ != address);
    }
}

/// The offset of a slot never leaves the window: it lies between zero and the
/// window's width, on the width's side of zero.
pub proof fn lemma_slot_offset_bounded(w: int, n: int, index: int)
    requires
        n > 0,
        0 <= index < n,
    ensures
        w >= 0 ==> 0 <= quot(w, n) <= w && 0 <= index * quot(w, n) <= w,
        w < 0 ==> w <= quot(w, n) <= 0 && w <= index * quot(w, n) <= 0,
{
    let a = if w >= 0 {
        w
    } else {
        -w
    };
    let q = a / n;
    lemma_fundamental_div_mod(a, n);
    lemma_mod_pos_bound(a, n);
    lemma_div_pos_is_pos(a, n);
    assert(n * q <= a);
    lemma_mul_inequality(index, n, q);
    assert(index * q <= n * q);
    assert(0 <= index * q) by (nonlinear_arith)
        requires
            0 <= index,
            0 <= q,
    ;
    assert(q <= a) by (nonlinear_arith)
        requires
            n * q <= a,
            n >= 1,
            q >= 0,
    ;
    if w < 0 {
        assert(index * (-q) == -(index * q)) by (nonlinear_arith);
    }
}

/// Computes the top-left corner of the label box of an ungrouped window.
pub fn anchor_point(
    anchor: Position,
    position: (i32, i32),
    size: (i32, i32),
    box_size: i32,
) -> (p: (i64, i64))
    ensures
        p.0 == anchor_x(anchor, position.0 as int, size.0 as int, box_size as int),
        p.1 == anchor_y(anchor, position.1 as int, size.1 as int, box_size as int),
{
    let px = position.0 as i64;
    let py = position.1 as i64;
    let w = size.0 as i64;
    let h = size.1 as i64;
    let b = box_size as i64;
    match anchor {
        Position::TopCenter => (px + w / 2 - b / 2, py),
        Position::BottomCenter => (px + w / 2 - b / 2, py - b + h),
        Position::TopLeft => (px, py),
        Position::BottomLeft => (px, py + h - b),
        Position::TopRight => (px + w - b, py),
        Position::BottomRight => (px + w - b, py + h - b),
        Position::Center => (px + w / 2 - b / 2, py + h / 2 - b / 2),
    }
}

/// Computes the left edge of the label box of the `index`-th member of a
/// tabbed group of `group_size` windows.
pub fn grouped_x(
    anchor: Position,
    px: i32,
    width: i32,
    box_size: i32,
    group_size: usize,
    index: usize,
) -> (x: i64)
    requires
        index < group_size,
    ensures
        x == slot_x(
            anchor,
            px as int,
            width as int,
            box_size as int,
            group_size as int,
            index as int,
        ),
{
    proof {
        lemma_slot_offset_bounded(width as int, group_size as int, index as int);
    }
    let slot: i128 = (width as i128) / (group_size as i128);
    let offset: i128 = (index as i128) * slot;
    let x: i128 = match anchor {
        Position::TopCenter | Position::Center | Position::BottomCenter => px as i128 + offset
            + slot / 2,
        Position::TopLeft | Position::BottomLeft => px as i128 + offset,
        Position::TopRight | Position::BottomRight => px as i128 + slot - box_size as i128
            + offset,
    };
    x as i64
}

/// Finds the first place of `group` that holds `address`.
pub fn find_in_group(group: &Vec<Address>, address: &Address) -> (r: Option<usize>)
    ensures
        match r {
            Some(i) => position_in_group(group@, address@) == Some(i as int),
            None => position_in_group(group@, address@) is None,
        },
{
    let mut i: usize = 0;
    while i < group.len()
        invariant
            i <= group.len(),
            forall|j: int| 0 <= j < i ==> (#[trigger] group@[j])@ != address@,
        decreases group.len() - i,
    {
        if group[i] == *address {
            proof {
                assert(is_first_match(group@, address@, i as int));
                let c = choose|k: int| is_first_match(group@, address@, k);
                lemma_first_match_unique(group@, address@, i as int, c);
            }
            return Some(i);
        }
        i += 1;
    }
    None
}

/// Computes the top-left corner of the label box of `win`: the anchor point of
/// the window, with the horizontal place taken from the window's slot where it
/// is a member of a tabbed group.
pub fn place_indicator(win: &Window, anchor: Position, box_size: i32) -> (p: (i64, i64))
    ensures
        p.0 == indicator_origin(*win, anchor, box_size as int).0,
        p.1 == indicator_origin(*win, anchor, box_size as int).1,
{
    let base = anchor_point(anchor, win.position, win.size, box_size);
    if win.grouped.len() > 1 {
        match find_in_group(&win.grouped, &win.address) {
            Some(index) => {
                let x = grouped_x(
                    anchor,
                    win.position.0,
                    win.size.0,
                    box_size,
                    win.grouped.len(),
                    index,
                );
                (x, base.1)
            },
            None => base,
        }
    } else {
        base
    }
}

} // verus!
