use hyprnavi::edge::{is_alone_in_column, is_at_edge_pixel, is_at_edge_position, is_at_edge_scroller};
use hyprnavi::types::{Direction, Monitor, Window};
use hyprnavi::workspace::{compute_workspace_info, WorkspaceMap};

fn win(address: u64, x: i32, y: i32, w: i32, h: i32, workspace: i32) -> Window {
    Window { address, x, y, w, h, floating: false, workspace, special: false }
}

fn monitor() -> Monitor {
    Monitor {
        id: 0,
        x: 0,
        y: 0,
        width: 1920,
        height: 1080,
        reserved_top: 30,
        reserved_bottom: 0,
        reserved_right: 0,
        reserved_left: 10,
    }
}

#[test]
fn pixel_edge_flush_left_with_zero_tolerance() {
    // usable left edge = 0 + 10 (inset) + 5 (gap) = 15
    let c = win(1, 15, 100, 800, 600, 1);
    assert!(is_at_edge_pixel(&c, &monitor(), 5, Direction::Left, 0));
    // one pixel off is no longer at edge with tolerance 0
    let c2 = win(1, 16, 100, 800, 600, 1);
    assert!(!is_at_edge_pixel(&c2, &monitor(), 5, Direction::Left, 0));
    // a negative tolerance rejects even a flush window
    assert!(!is_at_edge_pixel(&c, &monitor(), 5, Direction::Left, -1));
}

#[test]
fn pixel_edge_tolerance_only_weakens() {
    // usable right edge = 0 + 1920 - 0 - 5 = 1915; window right edge 1912 -> distance 3
    let c = win(1, 1112, 100, 800, 600, 1);
    assert!(!is_at_edge_pixel(&c, &monitor(), 5, Direction::Right, 2));
    assert!(is_at_edge_pixel(&c, &monitor(), 5, Direction::Right, 3));
    assert!(is_at_edge_pixel(&c, &monitor(), 5, Direction::Right, 4));
}

#[test]
fn pixel_edge_vertical_uses_top_and_bottom_insets() {
    // usable top edge = 0 + 30 + 0 = 30
    let c = win(1, 100, 30, 800, 600, 1);
    assert!(is_at_edge_pixel(&c, &monitor(), 0, Direction::Up, 0));
    // usable bottom edge = 0 + 1080 - 0 - 0 = 1080; bottom of window = 630
    assert!(!is_at_edge_pixel(&c, &monitor(), 0, Direction::Down, 0));
    let c2 = win(1, 100, 480, 800, 600, 1);
    assert!(is_at_edge_pixel(&c2, &monitor(), 0, Direction::Down, 0));
}

#[test]
fn pixel_edge_mirrored_scene_answers_alike() {
    let m = monitor();
    let c = win(1, 15, 100, 800, 600, 1);
    // mirrored about the origin: positions negated, left/right insets exchanged
    let c2 = Window { x: -(c.x + c.w), ..c };
    let m2 = Monitor {
        x: -(m.x + m.width),
        reserved_left: m.reserved_right,
        reserved_right: m.reserved_left,
        ..m
    };
    for b in [-1, 0, 3] {
        assert_eq!(
            is_at_edge_pixel(&c, &m, 5, Direction::Left, b),
            is_at_edge_pixel(&c2, &m2, 5, Direction::Right, b),
        );
    }
}

#[test]
fn position_edge_lone_window_is_at_every_edge() {
    let c = win(1, 100, 100, 500, 400, 2);
    let windows = vec![c];
    let map = compute_workspace_info(&windows);
    for d in [Direction::Left, Direction::Right, Direction::Up, Direction::Down] {
        assert!(is_at_edge_position(&c, &map, d));
    }
}

#[test]
fn position_edge_without_metadata_is_at_every_edge() {
    let c = win(1, 100, 100, 500, 400, 2);
    let map = WorkspaceMap { entries: Vec::new() };
    for d in [Direction::Left, Direction::Right, Direction::Up, Direction::Down] {
        assert!(is_at_edge_position(&c, &map, d));
    }
}

#[test]
fn position_edge_only_the_extreme_window_is_at_edge() {
    let a = win(1, 0, 0, 100, 100, 2);
    let b = win(2, 200, 0, 100, 100, 2);
    let windows = vec![a, b];
    let map = compute_workspace_info(&windows);
    assert!(is_at_edge_position(&a, &map, Direction::Left));
    assert!(!is_at_edge_position(&a, &map, Direction::Right));
    assert!(is_at_edge_position(&b, &map, Direction::Right));
    assert!(!is_at_edge_position(&b, &map, Direction::Left));
}

#[test]
fn scroller_edge_checks_columns_left_and_right() {
    let a = win(1, 0, 0, 100, 100, 2);
    let b = win(2, 200, 0, 100, 100, 2);
    let other_ws = win(3, -500, 0, 100, 100, 4);
    let windows = vec![a, b, other_ws];
    assert!(is_at_edge_scroller(&a, &windows, Direction::Left));
    assert!(!is_at_edge_scroller(&a, &windows, Direction::Right));
    assert!(is_at_edge_scroller(&b, &windows, Direction::Right));
    assert!(!is_at_edge_scroller(&b, &windows, Direction::Left));
}

#[test]
fn scroller_edge_checks_within_the_column_up_and_down() {
    let top = win(1, 100, 0, 100, 100, 2);
    let bottom = win(2, 100, 300, 100, 100, 2);
    let other_column = win(3, 400, -900, 100, 100, 2);
    let windows = vec![top, bottom, other_column];
    assert!(is_at_edge_scroller(&top, &windows, Direction::Up));
    assert!(!is_at_edge_scroller(&top, &windows, Direction::Down));
    assert!(is_at_edge_scroller(&bottom, &windows, Direction::Down));
    assert!(!is_at_edge_scroller(&bottom, &windows, Direction::Up));
}

#[test]
fn scroller_edge_ignores_floating_windows() {
    let a = win(1, 100, 0, 100, 100, 2);
    let floating = Window { address: 2, x: 0, y: 0, w: 10, h: 10, floating: true, workspace: 2, special: false };
    let windows = vec![a, floating];
    assert!(is_at_edge_scroller(&a, &windows, Direction::Left));
}

#[test]
fn two_windows_at_different_x_are_each_alone_in_their_column() {
    let a = win(1, 0, 0, 100, 100, 2);
    let b = win(2, 200, 0, 100, 100, 2);
    let windows = vec![a, b];
    assert!(is_alone_in_column(&a, &windows));
    assert!(is_alone_in_column(&b, &windows));
}

#[test]
fn two_windows_at_the_same_x_share_a_column() {
    let a = win(1, 50, 0, 100, 100, 2);
    let b = win(2, 50, 300, 100, 100, 2);
    let windows = vec![a, b];
    assert!(!is_alone_in_column(&a, &windows));
    assert!(!is_alone_in_column(&b, &windows));
}
