//! Edge detection: is the focused window at a layout boundary in a
//! requested direction?
//!
//! Three interchangeable strategies:
//! - pixel mode (the default): the window's screen-space edge is within a
//!   tolerance of the monitor's usable-area edge;
//! - position mode: the window is the recorded extreme window of its
//!   workspace in that direction;
//! - column-aware mode: for a scrolling column layout, no other column (or
//!   no other window of the same column) lies further in that direction.

use vstd::prelude::*;

use crate::types::{Direction, Monitor, Window};
use crate::workspace::{
    elig_at, eligible, first_extreme_upto, holder_ok, info_extremes_ok,
    lemma_map_get_characterizes, map_get, ws_map_models, ws_present, WorkspaceInfo, WorkspaceMap,
};

verus! {

/// Absolute value of a mathematical integer.
pub open spec fn abs_val(v: int) -> int {
    if v < 0 {
        -v
    } else {
        v
    }
}

/// Signed distance between the window's relevant screen-space edge and the
/// monitor's usable-area edge in direction `d`.  The usable area is the
/// monitor's bounds pulled in by the per-side reserved inset and the global
/// outer gap.
pub open spec fn pixel_distance(c: Window, m: Monitor, gap: int, d: Direction) -> int {
    match d {
        Direction::Left => c.x as int - (m.x as int + m.reserved_left as int + gap),
        Direction::Right => (c.x as int + c.w as int) - (m.x as int + m.width as int
            - m.reserved_right as int - gap),
        Direction::Up => c.y as int - (m.y as int + m.reserved_top as int + gap),
        Direction::Down => (c.y as int + c.h as int) - (m.y as int + m.height as int
            - m.reserved_bottom as int - gap),
    }
}

/// Pixel-mode edge: the distance to the usable-area edge is within the
/// `bordersize` tolerance.
pub open spec fn at_edge_pixel(c: Window, m: Monitor, gap: int, d: Direction, bordersize: int) -> bool {
    abs_val(pixel_distance(c, m, gap, d)) <= bordersize
}

/// Pixel-based edge detection: true when the window is physically flush
/// (within `bordersize` pixels) against the monitor's usable-area boundary
/// in the given direction.  `gap` is the compositor's outer-gap setting,
/// read live by the caller; a caller that failed to read it passes 0.
pub fn is_at_edge_pixel(client: &Window, monitor: &Monitor, gap: i32, direction: Direction, bordersize: i32) -> (r: bool)
    ensures
        r == at_edge_pixel(*client, *monitor, gap as int, direction, bordersize as int),
{
    let dist: i64 = match direction {
        Direction::Left => client.x as i64 - (monitor.x as i64 + monitor.reserved_left as i64
            + gap as i64),
        Direction::Right => (client.x as i64 + client.w as i64) - (monitor.x as i64
            + monitor.width as i64 - monitor.reserved_right as i64 - gap as i64),
        Direction::Up => client.y as i64 - (monitor.y as i64 + monitor.reserved_top as i64
            + gap as i64),
        Direction::Down => (client.y as i64 + client.h as i64) - (monitor.y as i64
            + monitor.height as i64 - monitor.reserved_bottom as i64 - gap as i64),
    };
    let magnitude: i64 = if dist < 0 {
        -dist
    } else {
        dist
    };
    magnitude <= bordersize as i64
}

/// A window flush against the usable boundary (distance exactly 0) is at
/// edge exactly when the tolerance is not negative.
pub proof fn lemma_pixel_edge_flush(c: Window, m: Monitor, gap: int, d: Direction, bordersize: int)
    requires
        pixel_distance(c, m, gap, d) == 0,
    ensures
        at_edge_pixel(c, m, gap, d, bordersize) <==> bordersize >= 0,
{
}

/// Increasing the tolerance only weakens pixel-edge detection: a window at
/// edge under a tolerance is still at edge under any larger one.
pub proof fn lemma_pixel_edge_monotone(c: Window, m: Monitor, gap: int, d: Direction, b1: int, b2: int)
    requires
        b1 <= b2,
        at_edge_pixel(c, m, gap, d, b1),
    ensures
        at_edge_pixel(c, m, gap, d, b2),
{
}

/// Pixel-edge detection is symmetric under mirroring the scene left-to-right:
/// a window tested against the left usable boundary answers exactly as its
/// mirror image (positions negated about the origin, left and right insets
/// exchanged) tested against the right usable boundary, for the same gap and
/// tolerance.
pub proof fn lemma_pixel_edge_mirror(c: Window, m: Monitor, c2: Window, m2: Monitor, gap: int, bordersize: int)
    requires
        c2.x as int == -(c.x as int + c.w as int),
        c2.w == c.w,
        m2.x as int == -(m.x as int + m.width as int),
        m2.width == m.width,
        m2.reserved_right == m.reserved_left,
        m2.reserved_left == m.reserved_right,
    ensures
        at_edge_pixel(c2, m2, gap, Direction::Right, bordersize) == at_edge_pixel(c, m, gap, Direction::Left, bordersize),
        at_edge_pixel(c2, m2, gap, Direction::Left, bordersize) == at_edge_pixel(c, m, gap, Direction::Right, bordersize),
{
}

/// The recorded extreme holder of `info` that competes with a window moving
/// in direction `d`.
pub open spec fn extreme_for(info: WorkspaceInfo, d: Direction) -> Option<u64> {
    match d {
        Direction::Left => info.leftmost,
        Direction::Right => info.rightmost,
        Direction::Up => info.topmost,
        Direction::Down => info.bottommost,
    }
}

/// Position-mode edge: the window is the recorded extreme window of its
/// workspace in direction `d`, or its workspace has no metadata entry at all
/// (the window is alone there), or the entry records no holder.
pub open spec fn at_edge_position(c: Window, m: Seq<(i32, WorkspaceInfo)>, d: Direction) -> bool {
    match map_get(m, c.workspace) {
        None => true,
        Some(info) => match extreme_for(info, d) {
            None => true,
            Some(a) => a == c.address,
        },
    }
}

/// Position-based edge detection: true when this window is the extreme
/// window of its workspace in the given direction (leftmost when moving
/// left, and so on), or when the workspace has no metadata at all.
pub fn is_at_edge_position(client: &Window, ws_info: &WorkspaceMap, direction: Direction) -> (r: bool)
    ensures
        r == at_edge_position(*client, ws_info@, direction),
{
    match ws_info.get(client.workspace) {
        None => true,
        Some(info) => {
            let extreme = match direction {
                Direction::Left => info.leftmost,
                Direction::Right => info.rightmost,
                Direction::Up => info.topmost,
                Direction::Down => info.bottommost,
            };
            match extreme {
                None => true,
                Some(a) => a == client.address,
            }
        },
    }
}

/// Window `o` does not block window `c` from being at a column-aware edge
/// in direction `d`: it lives elsewhere or floats, or it lies no further
/// than `c` in that direction (for up/down, only windows of the same column
/// — the same x — count).
pub open spec fn scroller_unblocked(c: Window, o: Window, d: Direction) -> bool {
    ||| o.workspace != c.workspace
    ||| o.floating
    ||| match d {
        Direction::Left => o.x >= c.x,
        Direction::Right => o.x <= c.x,
        Direction::Up => o.x != c.x || o.y >= c.y,
        Direction::Down => o.x != c.x || o.y <= c.y,
    }
}

/// Column-aware edge: no window of the snapshot blocks `c` in direction `d`.
pub open spec fn at_edge_scroller(c: Window, cs: Seq<Window>, d: Direction) -> bool {
    forall|i: int| 0 <= i < cs.len() ==> scroller_unblocked(c, #[trigger] cs[i], d)
}

/// Column-aware edge detection for scrolling layouts, where windows of one
/// column share an x position.  For left/right, true when no other column of
/// the workspace lies further in that direction; for up/down, true when no
/// window of the same column does.
pub fn is_at_edge_scroller(client: &Window, clients: &Vec<Window>, direction: Direction) -> (r: bool)
    ensures
        r == at_edge_scroller(*client, clients@, direction),
{
    let n = clients.len();
    for i in 0..n
        invariant
            n == clients.len(),
            forall|j: int| 0 <= j < i ==> scroller_unblocked(*client, #[trigger] clients@[j], direction),
    {
        let c = clients[i];
        let blocks = if c.workspace != client.workspace || c.floating {
            false
        } else {
            match direction {
                Direction::Left => c.x < client.x,
                Direction::Right => c.x > client.x,
                Direction::Up => c.x == client.x && c.y < client.y,
                Direction::Down => c.x == client.x && c.y > client.y,
            }
        };
        if blocks {
            proof {
                assert(!scroller_unblocked(*client, clients@[i as int], direction));
            }
            return false;
        }
    }
    true
}

/// Window `o` shares `c`'s column: same workspace, not floating, same x,
/// and a different window.
pub open spec fn in_column_other(c: Window, o: Window) -> bool {
    o.workspace == c.workspace && !o.floating && o.x == c.x && o.address != c.address
}

/// No other window of the snapshot shares `c`'s column.
pub open spec fn alone_in_column(c: Window, cs: Seq<Window>) -> bool {
    !(exists|i: int| 0 <= i < cs.len() && in_column_other(c, #[trigger] cs[i]))
}

/// Whether no other non-floating window of the same workspace shares this
/// window's x position — used to gate monitor-crossing to windows that
/// cannot be promoted further within their column.
pub fn is_alone_in_column(client: &Window, clients: &Vec<Window>) -> (r: bool)
    ensures
        r == alone_in_column(*client, clients@),
{
    let n = clients.len();
    for i in 0..n
        invariant
            n == clients.len(),
            forall|j: int| 0 <= j < i ==> !in_column_other(*client, #[trigger] clients@[j]),
    {
        let c = clients[i];
        if c.workspace == client.workspace && !c.floating && c.x == client.x && c.address
            != client.address {
            proof {
                assert(in_column_other(*client, clients@[i as int]));
            }
            return false;
        }
    }
    true
}

/// A lone window on its workspace — one whose workspace has no other
/// eligible window — is at a position-mode edge in every direction.
pub proof fn lemma_lone_window_at_edge(c: Window, m: Seq<(i32, WorkspaceInfo)>, s: Seq<Window>, d: Direction)
    requires
        ws_map_models(m, s),
        exists|i: int| 0 <= i < s.len() && s[i] == c,
        eligible(c),
        forall|i: int| #[trigger] elig_at(s, c.workspace, i) ==> s[i].address == c.address,
    ensures
        at_edge_position(c, m, d),
{
    let id = c.workspace;
    let i0 = choose|i0: int| 0 <= i0 < s.len() && s[i0] == c;
    assert(elig_at(s, id, i0));
    assert(ws_present(s, id)) by {
        assert(i0 < s.len() as int && elig_at(s, id, i0));
    }
    let k = choose|k: int| 0 <= k < m.len() && (#[trigger] m[k]).0 == id;
    assert forall|p: int, q: int| 0 <= p < q < m.len() implies (#[trigger] m[p]).0 != (#[trigger] m[q]).0 by {
        assert(m[p].0 < m[q].0);
    }
    lemma_map_get_characterizes(m, id);
    let info = m[k].1;
    assert(map_get(m, id) == Some(info));
    assert(info_extremes_ok(info, s, id));
    assert(holder_ok(s, id, d, extreme_for(info, d))) by {
        match d {
            Direction::Left => assert(extreme_for(info, d) == info.leftmost),
            Direction::Right => assert(extreme_for(info, d) == info.rightmost),
            Direction::Up => assert(extreme_for(info, d) == info.topmost),
            Direction::Down => assert(extreme_for(info, d) == info.bottommost),
        }
    }
    let j = choose|j: int|
        #[trigger] first_extreme_upto(s, s.len() as int, id, d, j) && extreme_for(info, d) == Some(
            s[j].address,
        );
    assert(elig_at(s, id, j));
    assert(s[j].address == c.address);
}

/// On a workspace with exactly two non-floating windows, both are alone in
/// their columns exactly when their x positions differ; when the windows
/// share an x, neither is.
pub proof fn lemma_two_window_column(a: Window, b: Window, cs: Seq<Window>)
    requires
        cs == seq![a, b],
        a.workspace == b.workspace,
        !a.floating,
        !b.floating,
        a.address != b.address,
    ensures
        a.x != b.x ==> alone_in_column(a, cs) && alone_in_column(b, cs),
        a.x == b.x ==> !alone_in_column(a, cs) && !alone_in_column(b, cs),
{
    assert(cs[0] == a && cs[1] == b);
    if a.x == b.x {
        assert(in_column_other(a, cs[1]));
        assert(in_column_other(b, cs[0]));
    } else {
        assert forall|i: int| 0 <= i < cs.len() implies !in_column_other(a, #[trigger] cs[i]) by {
            if i == 0 {
                assert(cs[i] == a);
            } else {
                assert(cs[i] == b);
            }
        }
        assert forall|i: int| 0 <= i < cs.len() implies !in_column_other(b, #[trigger] cs[i]) by {
            if i == 0 {
                assert(cs[i] == a);
            } else {
                assert(cs[i] == b);
            }
        }
    }
}

} // verus!
