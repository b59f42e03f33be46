//! Plain-value models of the compositor entities that the navigation
//! decisions read: windows, monitors, and the four directions of motion.

use vstd::prelude::*;

verus! {

/// A direction of motion on the screen.
#[derive(Clone, Copy, PartialEq, Eq, Structural, Debug)]
pub enum Direction {
    Left,
    Right,
    Up,
    Down,
}

impl Direction {
    /// Forward motion (toward higher workspace ids) is right or down.
    pub open spec fn spec_is_forward(self) -> bool {
        self == Direction::Right || self == Direction::Down
    }

    /// Up and down are the vertical directions.
    pub open spec fn spec_is_vertical(self) -> bool {
        self == Direction::Up || self == Direction::Down
    }
}

/// One window of the compositor's snapshot.
///
/// Only the attributes that the navigation decisions read are kept, as plain
/// values: the opaque ownership id, the top-left position, the size, the
/// floating flag, and the owning workspace.
#[derive(Clone, Copy, Debug)]
pub struct Window {
    /// Opaque ownership id, unique per window within one snapshot.
    pub address: u64,
    /// X position of the left edge.
    pub x: i32,
    /// Y position of the top edge.
    pub y: i32,
    /// Width.
    pub w: i32,
    /// Height.
    pub h: i32,
    /// Whether the window floats above the tiling layout.
    pub floating: bool,
    /// Id of the owning workspace.
    pub workspace: i32,
    /// Whether the owning workspace is a special (scratchpad-like) one.
    pub special: bool,
}

/// One monitor of the compositor's snapshot, with its reserved-space insets
/// (status bars and the like) per side.
#[derive(Clone, Copy, Debug)]
pub struct Monitor {
    /// Id of the monitor, unique within one snapshot.
    pub id: i64,
    /// X position of the left edge.
    pub x: i32,
    /// Y position of the top edge.
    pub y: i32,
    /// Width.
    pub width: i32,
    /// Height.
    pub height: i32,
    /// Reserved inset at the top.
    pub reserved_top: i32,
    /// Reserved inset at the bottom.
    pub reserved_bottom: i32,
    /// Reserved inset on the right.
    pub reserved_right: i32,
    /// Reserved inset on the left.
    pub reserved_left: i32,
}

} // verus!
