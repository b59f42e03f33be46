//! The navigation decision engine.
//!
//! Given the window kind (tiled or floating), the requested action (focus or
//! swap), the edge status and the detected capability flags, each handler
//! decides which control command (or short sequence of commands) to issue.
//! The commands themselves are plain values; performing them against the
//! compositor is left to the surrounding binary.

use vstd::prelude::*;

use crate::cli::{Command, NavArgs};
use crate::plugin::PluginState;
use crate::types::{Direction, Monitor, Window};
use crate::workspace::{map_get, ws_map_models, WorkspaceInfo, WorkspaceMap};

verus! {

/// One control command for the compositor.
#[derive(Clone, Copy, PartialEq, Eq, Debug)]
pub enum DispatchCmd {
    /// Move focus one window in a direction.
    MoveFocus(Direction),
    /// Swap the active window with its neighbour in a direction.
    SwapWindow(Direction),
    /// Focus the window with the given address.
    FocusWindow(u64),
    /// Focus the adjacent monitor in a direction.
    FocusMonitor(Direction),
    /// Move the active window in a direction.
    MoveWindow(Direction),
    /// Move the active window to the adjacent monitor in a direction.
    MoveWindowToMonitor(Direction),
    /// Re-center the active (floating) window on its monitor.
    CenterWindow,
    /// Switch to the workspace with the given id.
    Workspace(i32),
    /// Switch to the next (true) or previous existing workspace.
    WorkspaceRelative(bool),
    /// Switch workspace through the per-monitor-workspace extension,
    /// forward (true) or backward.
    SplitWorkspace(bool),
    /// Move the active window to the next (true) or previous existing
    /// workspace.
    MoveToWorkspaceRelative(bool),
    /// Move the active window to the adjacent workspace through the
    /// per-monitor-workspace extension, forward (true) or backward.
    SplitMoveToWorkspace(bool),
    /// Column-layout command: focus in a direction within the layout.
    LayoutFocus(Direction),
    /// Column-layout command: move the window in a direction within the
    /// layout (promotion inside a column included).
    LayoutMoveWindow(Direction),
}

/// The decision when no window is focused: cross monitors when asked to,
/// else walk workspaces — through the per-monitor-workspace extension when
/// it is active, else by relative existing-workspace motion.
pub open spec fn empty_ws_decision(args: NavArgs, d: Direction, fwd: bool, plugins: PluginState) -> DispatchCmd {
    if args.monitor {
        DispatchCmd::FocusMonitor(d)
    } else if plugins.split_monitor_workspaces {
        DispatchCmd::SplitWorkspace(fwd)
    } else {
        DispatchCmd::WorkspaceRelative(fwd)
    }
}

/// Handle navigation when no window is focused (empty workspace).
pub fn handle_empty_ws(cmd: &Command, plugins: &PluginState) -> (r: DispatchCmd)
    ensures
        r == empty_ws_decision(cmd.spec_args(), cmd.spec_direction(), cmd.spec_is_forward(), *plugins),
{
    let args = cmd.args();
    if args.monitor {
        DispatchCmd::FocusMonitor(cmd.direction())
    } else if plugins.split_monitor_workspaces {
        DispatchCmd::SplitWorkspace(cmd.is_forward())
    } else {
        DispatchCmd::WorkspaceRelative(cmd.is_forward())
    }
}

/// The decision for a floating window: swapping at an edge with the monitor
/// flag moves it to the adjacent monitor and re-centers it (two commands, in
/// that order); swapping otherwise moves it pixel-wise; without swap, plain
/// focus motion.
pub open spec fn floating_decision(args: NavArgs, d: Direction, at_edge: bool) -> Seq<DispatchCmd> {
    if args.swap {
        if at_edge && args.monitor {
            seq![DispatchCmd::MoveWindowToMonitor(d), DispatchCmd::CenterWindow]
        } else {
            seq![DispatchCmd::MoveWindow(d)]
        }
    } else {
        seq![DispatchCmd::MoveFocus(d)]
    }
}

/// Handle navigation for a floating window.
pub fn handle_floating(args: &NavArgs, direction: Direction, is_at_edge: bool) -> (r: Vec<DispatchCmd>)
    ensures
        r@ == floating_decision(*args, direction, is_at_edge),
{
    let mut cmds: Vec<DispatchCmd> = Vec::new();
    if args.swap {
        if is_at_edge && args.monitor {
            cmds.push(DispatchCmd::MoveWindowToMonitor(direction));
            cmds.push(DispatchCmd::CenterWindow);
        } else {
            cmds.push(DispatchCmd::MoveWindow(direction));
        }
    } else {
        cmds.push(DispatchCmd::MoveFocus(direction));
    }
    proof {
        assert(cmds@ =~= floating_decision(*args, direction, is_at_edge));
    }
    cmds
}

/// Some other monitor of the snapshot lies in direction `d` from `cur`,
/// judged by position alone.
pub open spec fn monitor_in_direction(cur: Monitor, mons: Seq<Monitor>, d: Direction) -> bool {
    exists|i: int|
        0 <= i < mons.len() && (#[trigger] mons[i]).id != cur.id && (match d {
            Direction::Left => mons[i].x < cur.x,
            Direction::Right => mons[i].x > cur.x,
            Direction::Up => mons[i].y < cur.y,
            Direction::Down => mons[i].y > cur.y,
        })
}

/// Check whether a monitor exists in the given direction from the current
/// monitor, by simple position comparison.  A caller that failed to query
/// the monitor list passes an empty one, which answers false.
pub fn has_monitor_in_direction(current: &Monitor, monitors: &Vec<Monitor>, direction: Direction) -> (r: bool)
    ensures
        r == monitor_in_direction(*current, monitors@, direction),
{
    let n = monitors.len();
    for i in 0..n
        invariant
            n == monitors.len(),
            forall|j: int|
                0 <= j < i ==> !((#[trigger] monitors@[j]).id != current.id && (match direction {
                    Direction::Left => monitors@[j].x < current.x,
                    Direction::Right => monitors@[j].x > current.x,
                    Direction::Up => monitors@[j].y < current.y,
                    Direction::Down => monitors@[j].y > current.y,
                })),
    {
        let m = monitors[i];
        if m.id != current.id {
            let further = match direction {
                Direction::Left => m.x < current.x,
                Direction::Right => m.x > current.x,
                Direction::Up => m.y < current.y,
                Direction::Down => m.y > current.y,
            };
            if further {
                proof {
                    assert((monitors@[i as int]).id != current.id);
                }
                return true;
            }
        }
    }
    false
}

/// The decision for swap mode on a tiled window.
///
/// In column-aware mode: at a vertical edge the window leaves for the
/// adjacent workspace (through the extension when active); at a horizontal
/// edge with the monitor flag, a window alone in its column moves to a
/// monitor in that direction when one exists; otherwise the window moves
/// within the layout (promotion inside the column is preferred over leaving
/// the monitor).  In standard mode: at edge the window moves to the
/// adjacent monitor (with the monitor flag) or pixel-wise; not at edge it
/// swaps with its neighbour.
pub open spec fn swap_decision(
    args: NavArgs,
    d: Direction,
    at_edge: bool,
    alone: bool,
    plugins: PluginState,
    cur: Monitor,
    mons: Seq<Monitor>,
) -> DispatchCmd {
    if args.position && plugins.hyprscrolling {
        if at_edge && d.spec_is_vertical() {
            if plugins.split_monitor_workspaces {
                DispatchCmd::SplitMoveToWorkspace(d.spec_is_forward())
            } else {
                DispatchCmd::MoveToWorkspaceRelative(d.spec_is_forward())
            }
        } else if at_edge && !d.spec_is_vertical() && args.monitor && alone
            && monitor_in_direction(cur, mons, d) {
            DispatchCmd::MoveWindowToMonitor(d)
        } else {
            DispatchCmd::LayoutMoveWindow(d)
        }
    } else if at_edge {
        if args.monitor {
            DispatchCmd::MoveWindowToMonitor(d)
        } else {
            DispatchCmd::MoveWindow(d)
        }
    } else {
        DispatchCmd::SwapWindow(d)
    }
}

/// Handle swap/move mode for a tiled window.
pub fn handle_swap(
    args: &NavArgs,
    direction: Direction,
    is_at_edge: bool,
    is_alone_in_column: bool,
    plugins: &PluginState,
    current_monitor: &Monitor,
    monitors: &Vec<Monitor>,
) -> (r: DispatchCmd)
    ensures
        r == swap_decision(
            *args,
            direction,
            is_at_edge,
            is_alone_in_column,
            *plugins,
            *current_monitor,
            monitors@,
        ),
{
    if args.position && plugins.hyprscrolling {
        let is_vertical = match direction {
            Direction::Up | Direction::Down => true,
            _ => false,
        };
        let is_forward = match direction {
            Direction::Right | Direction::Down => true,
            _ => false,
        };
        if is_at_edge {
            if is_vertical {
                if plugins.split_monitor_workspaces {
                    return DispatchCmd::SplitMoveToWorkspace(is_forward);
                } else {
                    return DispatchCmd::MoveToWorkspaceRelative(is_forward);
                }
            } else if args.monitor && is_alone_in_column && has_monitor_in_direction(
                current_monitor,
                monitors,
                direction,
            ) {
                return DispatchCmd::MoveWindowToMonitor(direction);
            }
        }
        DispatchCmd::LayoutMoveWindow(direction)
    } else if is_at_edge {
        if args.monitor {
            DispatchCmd::MoveWindowToMonitor(direction)
        } else {
            DispatchCmd::MoveWindow(direction)
        }
    } else {
        DispatchCmd::SwapWindow(direction)
    }
}

/// The extreme holder on the *opposite* edge of the target workspace when
/// entering it in direction `d`: moving right enters at the target's
/// leftmost window, and so on.
pub open spec fn opposite_extreme(info: WorkspaceInfo, d: Direction) -> Option<u64> {
    match d {
        Direction::Right => info.leftmost,
        Direction::Left => info.rightmost,
        Direction::Down => info.topmost,
        Direction::Up => info.bottommost,
    }
}

/// The decision for focus mode on a tiled window.
///
/// Not at edge: plain focus motion (column-aware when that mode is active).
/// At edge: cross monitors with the monitor flag; else cross workspaces
/// through the per-monitor-workspace extension when active; else walk to the
/// cyclic neighbour workspace from the metadata — suppressed when `no_wrap`
/// is set and the step would numerically wrap, or when the target is the
/// current workspace; entering the target lands on its opposite-edge window
/// when one is recorded, else switches by id.  Without metadata for the
/// current workspace, fall back to relative existing-workspace motion.
pub open spec fn focus_decision(
    args: NavArgs,
    d: Direction,
    fwd: bool,
    client: Window,
    m: Seq<(i32, WorkspaceInfo)>,
    at_edge: bool,
    plugins: PluginState,
) -> Option<DispatchCmd> {
    if !at_edge {
        if args.position && plugins.hyprscrolling {
            Some(DispatchCmd::LayoutFocus(d))
        } else {
            Some(DispatchCmd::MoveFocus(d))
        }
    } else if args.monitor {
        Some(DispatchCmd::FocusMonitor(d))
    } else if plugins.split_monitor_workspaces {
        Some(DispatchCmd::SplitWorkspace(fwd))
    } else {
        match map_get(m, client.workspace) {
            None => Some(DispatchCmd::WorkspaceRelative(fwd)),
            Some(cur) => {
                let target = if fwd {
                    cur.next_ws
                } else {
                    cur.prev_ws
                };
                let would_wrap = if fwd {
                    target < client.workspace
                } else {
                    target > client.workspace
                };
                if args.no_wrap && would_wrap {
                    None
                } else if target == client.workspace {
                    None
                } else {
                    match map_get(m, target) {
                        Some(t) => match opposite_extreme(t, d) {
                            Some(addr) => Some(DispatchCmd::FocusWindow(addr)),
                            None => Some(DispatchCmd::Workspace(target)),
                        },
                        None => Some(DispatchCmd::Workspace(target)),
                    }
                }
            },
        }
    }
}

/// Handle focus movement for a tiled window.  `None` means the request is a
/// deliberate no-op (suppressed wrap-around, or a single workspace).
pub fn handle_focus(
    cmd: &Command,
    client: &Window,
    ws_info: &WorkspaceMap,
    is_at_edge: bool,
    plugins: &PluginState,
) -> (r: Option<DispatchCmd>)
    ensures
        r == focus_decision(
            cmd.spec_args(),
            cmd.spec_direction(),
            cmd.spec_is_forward(),
            *client,
            ws_info@,
            is_at_edge,
            *plugins,
        ),
{
    let args = cmd.args();
    let direction = cmd.direction();
    if !is_at_edge {
        if args.position && plugins.hyprscrolling {
            return Some(DispatchCmd::LayoutFocus(direction));
        } else {
            return Some(DispatchCmd::MoveFocus(direction));
        }
    }
    if args.monitor {
        return Some(DispatchCmd::FocusMonitor(direction));
    }
    if plugins.split_monitor_workspaces {
        return Some(DispatchCmd::SplitWorkspace(cmd.is_forward()));
    }
    let current = match ws_info.get(client.workspace) {
        None => {
            return Some(DispatchCmd::WorkspaceRelative(cmd.is_forward()));
        },
        Some(c) => c,
    };
    let current_ws = client.workspace;
    let target_ws = if cmd.is_forward() {
        current.next_ws
    } else {
        current.prev_ws
    };
    let would_wrap = if cmd.is_forward() {
        target_ws < current_ws
    } else {
        target_ws > current_ws
    };
    if args.no_wrap && would_wrap {
        return None;
    }
    if target_ws == current_ws {
        return None;
    }
    if let Some(target) = ws_info.get(target_ws) {
        let addr = match direction {
            Direction::Right => target.leftmost,
            Direction::Left => target.rightmost,
            Direction::Down => target.topmost,
            Direction::Up => target.bottommost,
        };
        if let Some(addr) = addr {
            return Some(DispatchCmd::FocusWindow(addr));
        }
    }
    Some(DispatchCmd::Workspace(target_ws))
}

/// With only one workspace present (or none), the `no_wrap` flag never
/// changes the focus decision: the same-workspace rule already makes the
/// crossing a no-op.
pub proof fn lemma_no_wrap_single_workspace(
    args: NavArgs,
    args2: NavArgs,
    d: Direction,
    fwd: bool,
    client: Window,
    m: Seq<(i32, WorkspaceInfo)>,
    s: Seq<Window>,
    at_edge: bool,
    plugins: PluginState,
)
    requires
        ws_map_models(m, s),
        m.len() <= 1,
        args2.swap == args.swap,
        args2.monitor == args.monitor,
        args2.position == args.position,
        args2.bordersize == args.bordersize,
    ensures
        focus_decision(args, d, fwd, client, m, at_edge, plugins) == focus_decision(
            args2,
            d,
            fwd,
            client,
            m,
            at_edge,
            plugins,
        ),
{
    if m.len() == 0 {
        assert(map_get(m, client.workspace) is None);
    } else {
        assert(m[0].1.next_ws == m[0].0 && m[0].1.prev_ws == m[0].0);
        if m[0].0 == client.workspace {
            assert(map_get(m, client.workspace) == Some(m[0].1));
        } else {
            assert(map_get(m, client.workspace) == map_get(
                m.subrange(1, m.len() as int),
                client.workspace,
            ));
            assert(m.subrange(1, m.len() as int).len() == 0);
        }
    }
}

} // verus!
