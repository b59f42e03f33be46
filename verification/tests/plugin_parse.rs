use hyprnavi::plugin::{json_has_plugin, PluginState};

#[test]
fn json_names_a_plugin_with_a_spaced_field() {
    let json = r#"[{"name": "hyprscrolling", "author": "someone"}]"#;
    assert!(json_has_plugin(json, "hyprscrolling"));
    assert!(!json_has_plugin(json, "split-monitor-workspaces"));
}

#[test]
fn json_names_a_plugin_with_a_tight_field() {
    let json = r#"[{"name":"split-monitor-workspaces"}]"#;
    assert!(json_has_plugin(json, "split-monitor-workspaces"));
}

#[test]
fn json_does_not_match_a_name_in_another_field() {
    let json = r#"[{"author": "hyprscrolling"}]"#;
    assert!(!json_has_plugin(json, "hyprscrolling"));
}

#[test]
fn json_does_not_match_a_longer_name() {
    let json = r#"[{"name": "hyprscrolling-fork"}]"#;
    assert!(!json_has_plugin(json, "hyprscrolling"));
}

#[test]
fn from_json_reads_both_capabilities() {
    let json = r#"[{"name": "split-monitor-workspaces"},{"name": "hyprscrolling"}]"#;
    let state = PluginState::from_json(json);
    assert!(state.split_monitor_workspaces);
    assert!(state.hyprscrolling);
    let none = PluginState::from_json("[]");
    assert!(!none.split_monitor_workspaces);
    assert!(!none.hyprscrolling);
}

#[test]
fn parse_cache_reads_both_tokens() {
    let state = PluginState::parse_cache("splitws,scroller");
    assert!(state.split_monitor_workspaces);
    assert!(state.hyprscrolling);
}

#[test]
fn parse_cache_trims_whitespace_around_tokens() {
    let state = PluginState::parse_cache("  splitws , scroller\n");
    assert!(state.split_monitor_workspaces);
    assert!(state.hyprscrolling);
}

#[test]
fn parse_cache_ignores_unknown_tokens() {
    let state = PluginState::parse_cache("foo,scroller,bar");
    assert!(!state.split_monitor_workspaces);
    assert!(state.hyprscrolling);
}

#[test]
fn parse_cache_of_an_empty_line_reports_nothing() {
    let state = PluginState::parse_cache("");
    assert!(!state.split_monitor_workspaces);
    assert!(!state.hyprscrolling);
}

#[test]
fn parse_cache_does_not_match_token_fragments() {
    let state = PluginState::parse_cache("splitwsx,xscroller");
    assert!(!state.split_monitor_workspaces);
    assert!(!state.hyprscrolling);
}

#[test]
fn to_cache_prints_the_active_capabilities() {
    let both = PluginState { split_monitor_workspaces: true, hyprscrolling: true };
    assert_eq!(both.to_cache(), "splitws,scroller");
    let split = PluginState { split_monitor_workspaces: true, hyprscrolling: false };
    assert_eq!(split.to_cache(), "splitws");
    let scroll = PluginState { split_monitor_workspaces: false, hyprscrolling: true };
    assert_eq!(scroll.to_cache(), "scroller");
    let neither = PluginState { split_monitor_workspaces: false, hyprscrolling: false };
    assert_eq!(neither.to_cache(), "");
}

#[test]
fn cache_round_trip_recovers_every_state() {
    for split in [false, true] {
        for scroll in [false, true] {
            let state = PluginState { split_monitor_workspaces: split, hyprscrolling: scroll };
            let read = PluginState::parse_cache(&state.to_cache());
            assert_eq!(read, state);
        }
    }
}
