use std::collections::HashMap;
use zellij_pane_manager::{PaneAction, PaneId, PaneInfo, PaneManifest, State};

fn make_pane(id: u32, is_plugin: bool, title: &str) -> PaneInfo {
    PaneInfo {
        id,
        is_plugin,
        title: title.to_string(),
    }
}

/// Wrap a flat list of panes into a manifest under tab index 0.
fn make_manifest(panes: Vec<PaneInfo>) -> PaneManifest {
    PaneManifest {
        panes: HashMap::from([(0usize, panes)]),
    }
}

/// A state with one known pane (not active), own_tab_index set.
fn state_with_pane(name: &str, id: u32) -> State {
    let mut s = State::default();
    s.managed_panes = vec![name.to_string()];
    s.pane_map.insert(name.to_string(), PaneId::Terminal(id));
    s.own_tab_index = Some(0);
    s
}

/// A state with one known pane that is the active (shown) pane.
fn state_with_active_pane(name: &str, id: u32) -> State {
    let mut s = state_with_pane(name, id);
    s.active_pane = Some(name.to_string());
    s
}

#[test]
fn first_trigger_shows_pane() {
    // HIDDEN → SHOWN: pane not active, pressing key shows it
    let mut s = state_with_pane("term", 1);

    let actions = s.process_target_actions("term");

    assert_eq!(
        actions,
        vec![PaneAction::ShowPaneWithId(PaneId::Terminal(1))]
    );
    assert_eq!(s.active_pane, Some("term".to_string()));
}

#[test]
fn second_trigger_hides_layer() {
    // SHOWN → HIDDEN: pane is active, pressing same key hides floating layer
    let mut s = state_with_active_pane("term", 1);

    let actions = s.process_target_actions("term");

    assert_eq!(actions, vec![PaneAction::HideFloatingLayer]);
    assert_eq!(s.active_pane, None);
}

#[test]
fn switching_pane_shows_new_pane() {
    // Triggering a different pane focuses it without hiding the layer
    let mut s = State::default();
    s.managed_panes = vec!["alpha".to_string(), "beta".to_string()];
    s.pane_map.insert("alpha".to_string(), PaneId::Terminal(10));
    s.pane_map.insert("beta".to_string(), PaneId::Terminal(20));
    s.active_pane = Some("alpha".to_string());
    s.own_tab_index = Some(0);

    let actions = s.process_target_actions("beta");

    assert_eq!(
        actions,
        vec![PaneAction::ShowPaneWithId(PaneId::Terminal(20))]
    );
    assert_eq!(s.active_pane, Some("beta".to_string()));
}

#[test]
fn unknown_target_is_noop() {
    // A target not in pane_map must leave all state unchanged.
    let mut s = state_with_active_pane("known", 1);

    let actions = s.process_target_actions("ghost");

    assert!(actions.is_empty());
    assert_eq!(s.active_pane, Some("known".to_string())); // untouched
}

#[test]
fn rebuild_discovers_pane_by_title() {
    // An unmapped managed pane is found by matching its title in the manifest.
    let mut s = State::default();
    s.managed_panes = vec!["broot".to_string()];
    s.own_tab_index = Some(0);

    s.rebuild_pane_map(make_manifest(vec![make_pane(42, false, "broot")]));

    assert_eq!(s.pane_map.get("broot"), Some(&PaneId::Terminal(42)));
}

#[test]
fn rebuild_pane_map_is_stable_after_title_change() {
    // Once a pane is in pane_map, its entry is preserved even if the terminal
    // application overwrites the pane title — tracking is by PaneId, not title.
    let mut s = state_with_pane("broot", 42);

    s.rebuild_pane_map(make_manifest(vec![make_pane(
        42,
        false,
        "broot - /home/user",
    )]));

    assert_eq!(s.pane_map.get("broot"), Some(&PaneId::Terminal(42)));
}

#[test]
fn rebuild_removes_closed_pane_and_clears_active() {
    // When a pane disappears from the manifest, its entry must be evicted and
    // active_pane must be cleared if it was the active pane.
    let mut s = state_with_active_pane("broot", 42);

    s.rebuild_pane_map(make_manifest(vec![]));

    assert!(!s.pane_map.contains_key("broot"));
    assert_eq!(s.active_pane, None);
}

#[test]
fn rebuild_eviction_leaves_other_active_pane_intact() {
    // Evicting a non-active pane must not clear active_pane.
    let mut s = State::default();
    s.managed_panes = vec!["alpha".to_string(), "beta".to_string()];
    s.pane_map.insert("alpha".to_string(), PaneId::Terminal(10));
    s.pane_map.insert("beta".to_string(), PaneId::Terminal(20));
    s.active_pane = Some("beta".to_string());
    s.own_tab_index = Some(0);

    // alpha disappears, beta stays
    s.rebuild_pane_map(make_manifest(vec![make_pane(20, false, "beta")]));

    assert!(!s.pane_map.contains_key("alpha"));
    assert_eq!(s.active_pane, Some("beta".to_string())); // untouched
}

#[test]
fn rebuild_ignores_panes_from_other_tabs() {
    // When own_tab_index is Some(0), a matching pane in tab 1 must not be adopted.
    let mut s = State::default();
    s.managed_panes = vec!["broot".to_string()];
    s.own_tab_index = Some(0);

    let manifest = PaneManifest {
        panes: HashMap::from([
            (0usize, vec![]),                              // own tab — no broot
            (1usize, vec![make_pane(42, false, "broot")]), // other tab — has broot
        ]),
    };
    s.rebuild_pane_map(manifest);

    assert!(
        !s.pane_map.contains_key("broot"),
        "pane from another tab must not be adopted"
    );
}

#[test]
fn rebuild_pane_id_collision_terminal_plugin_same_numeric_id() {
    // A Plugin pane and a Terminal pane with the same numeric id must not
    // interfere — the Terminal entry must be evicted correctly when only the
    // Plugin pane survives.
    let mut s = State::default();
    s.managed_panes = vec!["broot".to_string()];
    s.own_tab_index = Some(0);
    // Pre-populate with a Terminal pane at id=5
    s.pane_map.insert("broot".to_string(), PaneId::Terminal(5));

    // Manifest now contains a Plugin pane at id=5 (different kind, same number)
    s.rebuild_pane_map(make_manifest(vec![make_pane(5, true, "something_else")]));

    // Terminal(5) is gone; broot entry must be evicted since Terminal(5) is not live
    assert!(!s.pane_map.contains_key("broot"));
}

#[test]
fn pending_target_retained_across_pane_update_when_not_found() {
    // If the target pane is not yet discoverable, pending_target must survive
    // the PaneUpdate so it can be retried on the next one.
    let mut s = State::default();
    s.managed_panes = vec!["broot".to_string()];
    s.own_tab_index = Some(0);
    s.pending_target = Some("broot".to_string());

    // PaneUpdate with no matching pane
    s.rebuild_pane_map(make_manifest(vec![]));

    // Simulate the pending_target check from update() manually
    let should_process = s.pane_map.contains_key("broot");
    assert!(!should_process, "pane not found — must not process yet");
    assert_eq!(s.pending_target, Some("broot".to_string()));
}

#[test]
fn pending_target_processed_when_pane_later_discovered() {
    // After a second PaneUpdate that brings the pane into scope,
    // the pending_target should be resolvable.
    let mut s = State::default();
    s.managed_panes = vec!["broot".to_string()];
    s.own_tab_index = Some(0);

    // First PaneUpdate: pane not yet present
    s.rebuild_pane_map(make_manifest(vec![]));
    assert!(s.pane_map.is_empty());

    // Second PaneUpdate: pane now present
    s.rebuild_pane_map(make_manifest(vec![make_pane(42, false, "broot")]));
    assert_eq!(
        s.pane_map.get("broot"),
        Some(&PaneId::Terminal(42)),
        "pane must be discoverable on second PaneUpdate"
    );
}
