use hyprnavi::cli::{Command, CommandDown, CommandLeft, CommandRight, CommandUp, NavArgs};
use hyprnavi::handlers::{
    handle_empty_ws, handle_floating, handle_focus, handle_swap, has_monitor_in_direction,
    DispatchCmd,
};
use hyprnavi::plugin::PluginState;
use hyprnavi::types::{Direction, Monitor, Window};
use hyprnavi::workspace::{compute_workspace_info, WorkspaceInfo, WorkspaceMap};

fn win(address: u64, x: i32, y: i32, w: i32, h: i32, workspace: i32) -> Window {
    Window { address, x, y, w, h, floating: false, workspace, special: false }
}

fn args() -> NavArgs {
    NavArgs { swap: false, monitor: false, position: false, no_wrap: false, bordersize: None }
}

fn right(swap: bool, monitor: bool, position: bool, no_wrap: bool) -> Command {
    Command::Right(CommandRight { swap, monitor, position, no_wrap, bordersize: None })
}

fn no_plugins() -> PluginState {
    PluginState { split_monitor_workspaces: false, hyprscrolling: false }
}

fn mon(id: i64, x: i32, y: i32) -> Monitor {
    Monitor {
        id,
        x,
        y,
        width: 1920,
        height: 1080,
        reserved_top: 0,
        reserved_bottom: 0,
        reserved_right: 0,
        reserved_left: 0,
    }
}

#[test]
fn command_direction_and_forwardness() {
    assert_eq!(right(false, false, false, false).direction(), Direction::Right);
    assert!(right(false, false, false, false).is_forward());
    let up = Command::Up(CommandUp { swap: false, monitor: false, position: false, no_wrap: false, bordersize: None });
    assert_eq!(up.direction(), Direction::Up);
    assert!(!up.is_forward());
    let down = Command::Down(CommandDown { swap: false, monitor: false, position: false, no_wrap: false, bordersize: None });
    assert!(down.is_forward());
    let left = Command::Left(CommandLeft { swap: false, monitor: false, position: false, no_wrap: false, bordersize: None });
    assert!(!left.is_forward());
}

#[test]
fn empty_ws_prefers_monitor_flag() {
    let cmd = right(false, true, false, false);
    assert_eq!(handle_empty_ws(&cmd, &no_plugins()), DispatchCmd::FocusMonitor(Direction::Right));
}

#[test]
fn empty_ws_uses_the_split_extension_when_active() {
    let cmd = right(false, false, false, false);
    let plugins = PluginState { split_monitor_workspaces: true, hyprscrolling: false };
    assert_eq!(handle_empty_ws(&cmd, &plugins), DispatchCmd::SplitWorkspace(true));
}

#[test]
fn empty_ws_falls_back_to_relative_workspace_motion() {
    let cmd = Command::Left(CommandLeft { swap: false, monitor: false, position: false, no_wrap: false, bordersize: None });
    assert_eq!(handle_empty_ws(&cmd, &no_plugins()), DispatchCmd::WorkspaceRelative(false));
}

#[test]
fn floating_swap_at_edge_with_monitor_issues_move_then_center() {
    let a = NavArgs { swap: true, monitor: true, ..args() };
    let cmds = handle_floating(&a, Direction::Right, true);
    assert_eq!(
        cmds,
        vec![DispatchCmd::MoveWindowToMonitor(Direction::Right), DispatchCmd::CenterWindow],
    );
}

#[test]
fn floating_swap_elsewhere_moves_pixel_wise() {
    let a = NavArgs { swap: true, monitor: true, ..args() };
    assert_eq!(handle_floating(&a, Direction::Right, false), vec![DispatchCmd::MoveWindow(Direction::Right)]);
    let a2 = NavArgs { swap: true, ..args() };
    assert_eq!(handle_floating(&a2, Direction::Left, true), vec![DispatchCmd::MoveWindow(Direction::Left)]);
}

#[test]
fn floating_without_swap_moves_focus() {
    assert_eq!(handle_floating(&args(), Direction::Up, true), vec![DispatchCmd::MoveFocus(Direction::Up)]);
}

#[test]
fn monitor_lookup_by_position() {
    let current = mon(0, 0, 0);
    let monitors = vec![mon(0, 0, 0), mon(1, 1920, 0)];
    assert!(has_monitor_in_direction(&current, &monitors, Direction::Right));
    assert!(!has_monitor_in_direction(&current, &monitors, Direction::Left));
    assert!(!has_monitor_in_direction(&current, &monitors, Direction::Up));
    let none: Vec<Monitor> = Vec::new();
    assert!(!has_monitor_in_direction(&current, &none, Direction::Right));
}

#[test]
fn swap_standard_mode_swaps_inside_the_workspace() {
    let a = NavArgs { swap: true, ..args() };
    let r = handle_swap(&a, Direction::Right, false, false, &no_plugins(), &mon(0, 0, 0), &Vec::new());
    assert_eq!(r, DispatchCmd::SwapWindow(Direction::Right));
}

#[test]
fn swap_standard_mode_at_edge_moves_window_or_crosses_monitors() {
    let a = NavArgs { swap: true, ..args() };
    let r = handle_swap(&a, Direction::Right, true, false, &no_plugins(), &mon(0, 0, 0), &Vec::new());
    assert_eq!(r, DispatchCmd::MoveWindow(Direction::Right));
    let a2 = NavArgs { swap: true, monitor: true, ..args() };
    let r2 = handle_swap(&a2, Direction::Right, true, false, &no_plugins(), &mon(0, 0, 0), &Vec::new());
    assert_eq!(r2, DispatchCmd::MoveWindowToMonitor(Direction::Right));
}

#[test]
fn swap_column_mode_vertical_edge_leaves_for_the_adjacent_workspace() {
    let a = NavArgs { swap: true, position: true, ..args() };
    let scroller = PluginState { split_monitor_workspaces: false, hyprscrolling: true };
    let r = handle_swap(&a, Direction::Down, true, false, &scroller, &mon(0, 0, 0), &Vec::new());
    assert_eq!(r, DispatchCmd::MoveToWorkspaceRelative(true));
    let both = PluginState { split_monitor_workspaces: true, hyprscrolling: true };
    let r2 = handle_swap(&a, Direction::Up, true, false, &both, &mon(0, 0, 0), &Vec::new());
    assert_eq!(r2, DispatchCmd::SplitMoveToWorkspace(false));
}

#[test]
fn swap_column_mode_prefers_promotion_over_monitor_crossing() {
    let a = NavArgs { swap: true, position: true, monitor: true, ..args() };
    let scroller = PluginState { split_monitor_workspaces: false, hyprscrolling: true };
    let monitors = vec![mon(0, 0, 0), mon(1, 1920, 0)];
    // not alone in its column: the window is promoted within the layout
    let r = handle_swap(&a, Direction::Right, true, false, &scroller, &mon(0, 0, 0), &monitors);
    assert_eq!(r, DispatchCmd::LayoutMoveWindow(Direction::Right));
    // alone in its column with a monitor to the right: it leaves the monitor
    let r2 = handle_swap(&a, Direction::Right, true, true, &scroller, &mon(0, 0, 0), &monitors);
    assert_eq!(r2, DispatchCmd::MoveWindowToMonitor(Direction::Right));
    // alone, but no monitor in that direction: promoted within the layout
    let r3 = handle_swap(&a, Direction::Left, true, true, &scroller, &mon(0, 0, 0), &monitors);
    assert_eq!(r3, DispatchCmd::LayoutMoveWindow(Direction::Left));
}

#[test]
fn swap_column_mode_not_at_edge_moves_within_the_layout() {
    let a = NavArgs { swap: true, position: true, ..args() };
    let scroller = PluginState { split_monitor_workspaces: false, hyprscrolling: true };
    let r = handle_swap(&a, Direction::Down, false, false, &scroller, &mon(0, 0, 0), &Vec::new());
    assert_eq!(r, DispatchCmd::LayoutMoveWindow(Direction::Down));
}

#[test]
fn focus_not_at_edge_moves_focus() {
    let cmd = right(false, false, false, false);
    let c = win(1, 0, 0, 100, 100, 3);
    let map = WorkspaceMap { entries: Vec::new() };
    let r = handle_focus(&cmd, &c, &map, false, &no_plugins());
    assert_eq!(r, Some(DispatchCmd::MoveFocus(Direction::Right)));
}

#[test]
fn focus_not_at_edge_in_column_mode_uses_the_layout() {
    let cmd = right(false, false, true, false);
    let c = win(1, 0, 0, 100, 100, 3);
    let map = WorkspaceMap { entries: Vec::new() };
    let scroller = PluginState { split_monitor_workspaces: false, hyprscrolling: true };
    let r = handle_focus(&cmd, &c, &map, false, &scroller);
    assert_eq!(r, Some(DispatchCmd::LayoutFocus(Direction::Right)));
}

#[test]
fn focus_at_edge_with_monitor_flag_crosses_monitors() {
    let cmd = right(false, true, false, false);
    let c = win(1, 0, 0, 100, 100, 3);
    let map = WorkspaceMap { entries: Vec::new() };
    let r = handle_focus(&cmd, &c, &map, true, &no_plugins());
    assert_eq!(r, Some(DispatchCmd::FocusMonitor(Direction::Right)));
}

#[test]
fn focus_at_edge_with_split_extension_lets_it_own_wrapping() {
    let cmd = right(false, false, false, false);
    let c = win(1, 0, 0, 100, 100, 3);
    let map = WorkspaceMap { entries: Vec::new() };
    let plugins = PluginState { split_monitor_workspaces: true, hyprscrolling: false };
    let r = handle_focus(&cmd, &c, &map, true, &plugins);
    assert_eq!(r, Some(DispatchCmd::SplitWorkspace(true)));
}

#[test]
fn focus_at_edge_without_metadata_falls_back_to_relative_motion() {
    let cmd = right(false, false, false, false);
    let c = win(1, 0, 0, 100, 100, 3);
    let map = WorkspaceMap { entries: Vec::new() };
    let r = handle_focus(&cmd, &c, &map, true, &no_plugins());
    assert_eq!(r, Some(DispatchCmd::WorkspaceRelative(true)));
}

#[test]
fn focus_forward_from_middle_workspace_lands_on_the_next_ones_leftmost() {
    // workspaces [1, 3, 5]; active workspace 3; forward -> next_ws == 5, no wrap
    let windows = vec![
        win(1, 0, 0, 100, 100, 1),
        win(3, 0, 0, 100, 100, 3),
        win(50, 0, 0, 100, 100, 5),
        win(51, 200, 0, 100, 100, 5),
    ];
    let map = compute_workspace_info(&windows);
    assert_eq!(map.get(3).unwrap().next_ws, 5);
    let cmd = right(false, false, false, false);
    let c = win(3, 0, 0, 100, 100, 3);
    let r = handle_focus(&cmd, &c, &map, true, &no_plugins());
    // entering workspace 5 from the left lands on its leftmost window
    assert_eq!(r, Some(DispatchCmd::FocusWindow(50)));
}

#[test]
fn focus_forward_from_last_workspace_wraps_to_the_first() {
    // workspaces [1, 3, 5]; active workspace 5; forward -> next_ws == 1 (wrap)
    let windows = vec![
        win(10, 0, 0, 100, 100, 1),
        win(30, 0, 0, 100, 100, 3),
        win(50, 0, 0, 100, 100, 5),
    ];
    let map = compute_workspace_info(&windows);
    assert_eq!(map.get(5).unwrap().next_ws, 1);
    let cmd = right(false, false, false, false);
    let c = win(50, 0, 0, 100, 100, 5);
    let r = handle_focus(&cmd, &c, &map, true, &no_plugins());
    assert_eq!(r, Some(DispatchCmd::FocusWindow(10)));
}

#[test]
fn focus_with_no_wrap_suppresses_the_wrapping_crossing() {
    let windows = vec![
        win(10, 0, 0, 100, 100, 1),
        win(30, 0, 0, 100, 100, 3),
        win(50, 0, 0, 100, 100, 5),
    ];
    let map = compute_workspace_info(&windows);
    let cmd = right(false, false, false, true);
    let c = win(50, 0, 0, 100, 100, 5);
    let r = handle_focus(&cmd, &c, &map, true, &no_plugins());
    assert_eq!(r, None);
}

#[test]
fn focus_on_a_single_workspace_is_a_no_op_with_and_without_no_wrap() {
    let windows = vec![win(1, 0, 0, 100, 100, 4)];
    let map = compute_workspace_info(&windows);
    let c = win(1, 0, 0, 100, 100, 4);
    for no_wrap in [false, true] {
        let cmd = right(false, false, false, no_wrap);
        let r = handle_focus(&cmd, &c, &map, true, &no_plugins());
        assert_eq!(r, None);
    }
}

#[test]
fn focus_switches_by_id_when_the_target_records_no_opposite_window() {
    // hand-built metadata: target workspace 9 is known but has no holders
    let entries = vec![
        (
            4,
            WorkspaceInfo {
                leftmost: Some(1),
                rightmost: Some(1),
                topmost: Some(1),
                bottommost: Some(1),
                prev_ws: 9,
                next_ws: 9,
            },
        ),
        (
            9,
            WorkspaceInfo {
                leftmost: None,
                rightmost: None,
                topmost: None,
                bottommost: None,
                prev_ws: 4,
                next_ws: 4,
            },
        ),
    ];
    let map = WorkspaceMap { entries };
    let cmd = right(false, false, false, false);
    let c = win(1, 0, 0, 100, 100, 4);
    let r = handle_focus(&cmd, &c, &map, true, &no_plugins());
    assert_eq!(r, Some(DispatchCmd::Workspace(9)));
}
