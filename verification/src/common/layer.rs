//! Where the window goes on the screen: the edges it is anchored to and
//! its margins, from the settings and the position of the pointer.

use crate::common::config::{int_or, Anchor, ConfigBase};
use crate::text::{
    decimal_i32, find_char, first_index, parse_i32, slice_of, to_chars, trim, trimmed,
};
use vstd::prelude::*;

verus! {

/// The placement of the window: the screen edges that it is anchored to,
/// and the margin at each edge where one is set.
#[derive(Clone, Copy, Debug, PartialEq, Eq, Structural)]
pub struct Placement {
    pub top: bool,
    pub bottom: bool,
    pub left: bool,
    pub right: bool,
    pub margin_top: Option<i32>,
    pub margin_bottom: Option<i32>,
    pub margin_left: Option<i32>,
    pub margin_right: Option<i32>,
}

/// Whether a window with this anchor is anchored to the top edge.
pub open spec fn anchors_top(anchor: Anchor) -> bool {
    anchor == Anchor::Top || anchor == Anchor::TopLeft || anchor == Anchor::TopRight || anchor
        == Anchor::Cursor
}

/// Whether a window with this anchor is anchored to the bottom edge.
pub open spec fn anchors_bottom(anchor: Anchor) -> bool {
    anchor == Anchor::Bottom || anchor == Anchor::BottomLeft || anchor == Anchor::BottomRight
}

/// Whether a window with this anchor is anchored to the left edge.
pub open spec fn anchors_left(anchor: Anchor) -> bool {
    anchor == Anchor::TopLeft || anchor == Anchor::BottomLeft || anchor == Anchor::Cursor
}

/// Whether a window with this anchor is anchored to the right edge.
pub open spec fn anchors_right(anchor: Anchor) -> bool {
    anchor == Anchor::TopRight || anchor == Anchor::BottomRight
}

/// The margin at an edge: the configured one where it is not 0, else the
/// pointer's coordinate where the window follows the pointer at that edge,
/// else none.
pub open spec fn margin_of(configured: i32, pointer: Option<i32>) -> Option<i32> {
    if configured != 0 {
        Some(configured)
    } else {
        pointer
    }
}

/// The placement that the settings ask for. `pointer` is the position of
/// the pointer, as `(x, y)`; a window anchored to the pointer has its top
/// left corner there.
pub open spec fn placement_of(
    anchor: Anchor,
    margins: (i32, i32, i32, i32),
    pointer: (i32, i32),
) -> Placement {
    let at_pointer = anchor == Anchor::Cursor;
    Placement {
        top: anchors_top(anchor),
        bottom: anchors_bottom(anchor),
        left: anchors_left(anchor),
        right: anchors_right(anchor),
        margin_top: margin_of(
            margins.0,
            if at_pointer {
                Some(pointer.1)
            } else {
                None
            },
        ),
        margin_bottom: margin_of(margins.1, None),
        margin_left: margin_of(
            margins.2,
            if at_pointer {
                Some(pointer.0)
            } else {
                None
            },
        ),
        margin_right: margin_of(margins.3, None),
    }
}

fn margin(configured: i32, pointer: Option<i32>) -> (r: Option<i32>)
    ensures
        r == margin_of(configured, pointer),
{
    if configured != 0 {
        Some(configured)
    } else {
        pointer
    }
}

/// The placement of the window for these settings and this position of
/// the pointer.
pub fn placement(cfg: &ConfigBase, pointer: (i32, i32)) -> (r: Placement)
    ensures
        r == placement_of(
            cfg.anchor,
            (cfg.margin_top, cfg.margin_bottom, cfg.margin_left, cfg.margin_right),
            pointer,
        ),
{
    let a = cfg.anchor;
    let at_pointer = a == Anchor::Cursor;
    Placement {
        top: a == Anchor::Top || a == Anchor::TopLeft || a == Anchor::TopRight || at_pointer,
        bottom: a == Anchor::Bottom || a == Anchor::BottomLeft || a == Anchor::BottomRight,
        left: a == Anchor::TopLeft || a == Anchor::BottomLeft || at_pointer,
        right: a == Anchor::TopRight || a == Anchor::BottomRight,
        margin_top: margin(
            cfg.margin_top,
            if at_pointer {
                Some(pointer.1)
            } else {
                None
            },
        ),
        margin_bottom: margin(cfg.margin_bottom, None),
        margin_left: margin(
            cfg.margin_left,
            if at_pointer {
                Some(pointer.0)
            } else {
                None
            },
        ),
        margin_right: margin(cfg.margin_right, None),
    }
}

/// The position that the compositor reports as `x, y`: each coordinate is
/// 0 where it is no number, and both are 0 where there is no comma.
pub open spec fn position_of(output: Seq<char>) -> (int, int) {
    let t = trim(output);
    let i = first_index(t, ',');
    if 0 <= i < t.len() {
        (
            int_or(decimal_i32(trim(t.take(i))), 0),
            int_or(decimal_i32(trim(t.skip(i + 1))), 0),
        )
    } else {
        (0, 0)
    }
}

/// Reads the position of the pointer from what the compositor printed.
pub fn parse_cursor_position(output: &str) -> (r: (i32, i32))
    ensures
        (r.0 as int, r.1 as int) == position_of(output@),
{
    let t = trimmed(&to_chars(output));
    let i = find_char(&t, 0, ',');
    proof {
        assert(t@.skip(0) == t@);
    }
    if i < t.len() {
        let x = trimmed(&slice_of(&t, 0, i));
        let y = trimmed(&slice_of(&t, i + 1, t.len()));
        proof {
            assert(t@.subrange(0, i as int) == t@.take(i as int));
            assert(t@.subrange(i + 1, t.len() as int) == t@.skip(i + 1));
        }
        let px = match parse_i32(&x) {
            Some(v) => v,
            None => 0,
        };
        let py = match parse_i32(&y) {
            Some(v) => v,
            None => 0,
        };
        (px, py)
    } else {
        (0, 0)
    }
}

} // verus!
