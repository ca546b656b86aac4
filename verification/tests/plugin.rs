use std::collections::HashMap;
use zellij_pane_manager::config::{decimal_text, pane_key_text, read_managed_panes};
use zellij_pane_manager::{
    make_pane_id, Event, EventType, HostCall, NameMap, PaneAction, PaneId, PaneInfo, PaneManifest,
    PermissionStatus, PermissionType, PipeMessage, State,
};

const OWN_ID: u32 = 7;

fn pane(id: u32, is_plugin: bool, title: &str) -> PaneInfo {
    PaneInfo {
        id,
        is_plugin,
        title: title.to_string(),
    }
}

fn terminal(id: u32, title: &str) -> PaneInfo {
    pane(id, false, title)
}

fn tabs(tabs: Vec<(usize, Vec<PaneInfo>)>) -> PaneManifest {
    PaneManifest {
        panes: tabs.into_iter().collect::<HashMap<usize, Vec<PaneInfo>>>(),
    }
}

fn config(entries: &[(&str, &str)]) -> NameMap<String> {
    let mut map = NameMap::new();
    for (key, value) in entries {
        map.insert(key.to_string(), value.to_string());
    }
    map
}

fn toggle(target: &str) -> PipeMessage {
    PipeMessage {
        name: "toggle".to_string(),
        payload: Some(target.to_string()),
    }
}

fn pane_update(manifest: PaneManifest) -> Event {
    Event::PaneUpdate {
        manifest,
        plugin_id: OWN_ID,
    }
}

/// The plugin's own tab, with some panes beside the plugin.
fn own_tab(mut panes: Vec<PaneInfo>) -> PaneManifest {
    panes.insert(0, pane(OWN_ID, true, "manager"));
    tabs(vec![(0, panes)])
}

fn show_terminal(id: u32) -> HostCall {
    HostCall::ShowPaneWithId {
        pane_id: PaneId::Terminal(id),
        should_float_if_hidden: true,
        should_focus_pane: true,
    }
}

fn hide_layer() -> HostCall {
    HostCall::HideFloatingPanes { tab_id: None }
}

/// A loaded plugin that manages `alpha` and `beta`, found as the terminals 10 and 20.
fn running() -> State {
    let mut s = State::default();
    s.load(config(&[("pane_0_name", "alpha"), ("pane_1_name", "beta")]));
    s.update(pane_update(own_tab(vec![
        terminal(10, "alpha"),
        terminal(20, "beta"),
    ])));
    s
}

#[test]
fn default_state_is_empty() {
    let s = State::default();
    assert!(s.pane_map.is_empty());
    assert!(s.managed_panes.is_empty());
    assert_eq!(s.active_pane, None);
    assert_eq!(s.pending_target, None);
    assert!(!s.initialized);
    assert_eq!(s.own_tab_index, None);
}

#[test]
fn decimal_notation() {
    assert_eq!(decimal_text(0), "0");
    assert_eq!(decimal_text(9), "9");
    assert_eq!(decimal_text(10), "10");
    assert_eq!(decimal_text(1234567890), "1234567890");
    assert_eq!(decimal_text(usize::MAX), usize::MAX.to_string());
}

#[test]
fn pane_keys() {
    assert_eq!(pane_key_text(0), "pane_0_name");
    assert_eq!(pane_key_text(12), "pane_12_name");
}

#[test]
fn pane_list_stops_at_first_missing_index() {
    let c = config(&[
        ("pane_3_name", "late"),
        ("pane_1_name", "second"),
        ("target", "first"),
        ("pane_0_name", "first"),
    ]);
    assert_eq!(read_managed_panes(&c), vec!["first", "second"]);
}

#[test]
fn pane_list_without_index_zero_is_empty() {
    let c = config(&[("pane_1_name", "second")]);
    assert!(read_managed_panes(&c).is_empty());
    assert!(read_managed_panes(&config(&[])).is_empty());
}

#[test]
fn pane_list_goes_past_ten() {
    let mut c = NameMap::new();
    for i in 0..12 {
        c.insert(format!("pane_{}_name", i), format!("p{}", i));
    }
    let names = read_managed_panes(&c);
    assert_eq!(names.len(), 12);
    assert_eq!(names[10], "p10");
    assert_eq!(names[11], "p11");
}

#[test]
fn pane_list_keeps_repeated_names() {
    let c = config(&[("pane_0_name", "x"), ("pane_1_name", "x")]);
    assert_eq!(read_managed_panes(&c), vec!["x", "x"]);
}

#[test]
fn first_load_asks_for_permissions_once() {
    let mut s = State::default();
    let c = [("pane_0_name", "alpha")];
    assert_eq!(
        s.load(config(&c)),
        vec![
            HostCall::RequestPermission(vec![
                PermissionType::ReadApplicationState,
                PermissionType::ChangeApplicationState,
            ]),
            HostCall::Subscribe(vec![EventType::PermissionRequestResult]),
        ]
    );
    assert!(s.initialized);
    assert_eq!(s.managed_panes, vec!["alpha"]);

    assert!(s.load(config(&c)).is_empty());
    assert_eq!(s.managed_panes, vec!["alpha"]);
}

#[test]
fn reload_forgets_unlisted_panes() {
    let mut s = running();
    s.pipe(toggle("alpha"));
    assert_eq!(s.active_pane, Some("alpha".to_string()));

    s.load(config(&[("pane_0_name", "beta")]));

    assert!(!s.pane_map.contains_key("alpha"));
    assert_eq!(s.pane_map.get("beta"), Some(&PaneId::Terminal(20)));
    assert_eq!(s.active_pane, None);
}

#[test]
fn reload_keeps_listed_active_pane() {
    let mut s = running();
    s.pipe(toggle("beta"));
    s.pending_target = Some("gone".to_string());

    s.load(config(&[("pane_0_name", "beta")]));

    assert_eq!(s.active_pane, Some("beta".to_string()));
    assert_eq!(s.pane_map.len(), 1);
    assert_eq!(s.pending_target, Some("gone".to_string()));
}

#[test]
fn granted_permissions_lead_to_subscription() {
    let mut s = State::default();
    let r = s.update(Event::PermissionRequestResult(PermissionStatus::Granted));
    assert!(!r.render);
    assert_eq!(
        r.calls,
        vec![HostCall::Subscribe(vec![EventType::PaneUpdate])]
    );
}

#[test]
fn denied_permissions_lead_to_nothing() {
    let mut s = running();
    let r = s.update(Event::PermissionRequestResult(PermissionStatus::Denied));
    assert!(!r.render);
    assert!(r.calls.is_empty());
    assert_eq!(s.pane_map.len(), 2);
}

#[test]
fn other_events_are_ignored() {
    let mut s = running();
    s.pending_target = Some("gamma".to_string());
    let r = s.update(Event::Other);
    assert!(!r.render);
    assert!(r.calls.is_empty());
    assert_eq!(s.pending_target, Some("gamma".to_string()));
    assert_eq!(s.own_tab_index, Some(0));
}

#[test]
fn presses_alternate_between_show_and_hide() {
    let mut s = running();
    assert_eq!(s.pipe(toggle("alpha")).calls, vec![show_terminal(10)]);
    assert_eq!(s.active_pane, Some("alpha".to_string()));
    assert_eq!(s.pipe(toggle("alpha")).calls, vec![hide_layer()]);
    assert_eq!(s.active_pane, None);
    assert_eq!(s.pipe(toggle("alpha")).calls, vec![show_terminal(10)]);
    assert_eq!(s.pipe(toggle("alpha")).calls, vec![hide_layer()]);
}

#[test]
fn press_for_other_pane_shows_it_only() {
    let mut s = running();
    s.pipe(toggle("alpha"));
    let r = s.pipe(toggle("beta"));
    assert!(!r.render);
    assert_eq!(r.calls, vec![show_terminal(20)]);
    assert_eq!(s.active_pane, Some("beta".to_string()));
    assert_eq!(s.pane_map.len(), 2);
}

#[test]
fn plugin_panes_can_be_shown() {
    let mut s = State::default();
    s.pane_map.insert("strider".to_string(), PaneId::Plugin(3));
    assert_eq!(
        s.process_target("strider"),
        vec![HostCall::ShowPaneWithId {
            pane_id: PaneId::Plugin(3),
            should_float_if_hidden: true,
            should_focus_pane: true,
        }]
    );
    assert_eq!(s.process_target("strider"), vec![hide_layer()]);
    assert!(s.process_target("nobody").is_empty());
}

#[test]
fn messages_with_other_names_are_ignored() {
    let mut s = running();
    let r = s.pipe(PipeMessage {
        name: "Toggle".to_string(),
        payload: Some("alpha".to_string()),
    });
    assert!(!r.render);
    assert!(r.calls.is_empty());
    assert_eq!(s.active_pane, None);
    assert_eq!(s.pending_target, None);
}

#[test]
fn messages_without_payload_are_ignored() {
    let mut s = running();
    let r = s.pipe(PipeMessage {
        name: "toggle".to_string(),
        payload: None,
    });
    assert!(r.calls.is_empty());
    assert_eq!(s.active_pane, None);
    assert_eq!(s.pending_target, None);
}

#[test]
fn early_request_waits_and_is_carried_out() {
    let mut s = State::default();
    s.load(config(&[("pane_0_name", "broot")]));

    assert!(s.pipe(toggle("broot")).calls.is_empty());
    assert_eq!(s.pending_target, Some("broot".to_string()));

    // not there yet
    let r = s.update(pane_update(own_tab(vec![])));
    assert!(r.calls.is_empty());
    assert_eq!(s.pending_target, Some("broot".to_string()));

    // there now
    let r = s.update(pane_update(own_tab(vec![terminal(42, "broot")])));
    assert!(!r.render);
    assert_eq!(r.calls, vec![show_terminal(42)]);
    assert_eq!(s.pending_target, None);
    assert_eq!(s.active_pane, Some("broot".to_string()));

    // and only once
    let r = s.update(pane_update(own_tab(vec![terminal(42, "broot")])));
    assert!(r.calls.is_empty());
    assert_eq!(s.active_pane, Some("broot".to_string()));
}

#[test]
fn early_request_equals_late_request() {
    let panes = || own_tab(vec![terminal(42, "broot")]);
    let c = [("pane_0_name", "broot")];

    let mut early = State::default();
    early.load(config(&c));
    early.pipe(toggle("broot"));
    let early_calls = early.update(pane_update(panes())).calls;

    let mut late = State::default();
    late.load(config(&c));
    late.update(pane_update(panes()));
    let late_calls = late.pipe(toggle("broot")).calls;

    assert_eq!(early_calls, late_calls);
    assert_eq!(early.active_pane, late.active_pane);
    assert_eq!(early.pending_target, late.pending_target);
    assert_eq!(early.pane_map.get("broot"), late.pane_map.get("broot"));
}

#[test]
fn latest_early_request_counts() {
    let mut s = running();
    s.pipe(toggle("gamma"));
    s.pipe(toggle("delta"));
    assert_eq!(s.pending_target, Some("delta".to_string()));

    // a request that can be carried out leaves the waiting one alone
    assert_eq!(s.pipe(toggle("alpha")).calls, vec![show_terminal(10)]);
    assert_eq!(s.pending_target, Some("delta".to_string()));
}

#[test]
fn own_tab_is_located_by_plugin_id() {
    let mut s = State::default();
    s.load(config(&[("pane_0_name", "broot")]));
    let manifest = tabs(vec![
        (
            0,
            vec![terminal(OWN_ID, "same number"), terminal(1, "broot")],
        ),
        (3, vec![pane(OWN_ID, true, "manager"), terminal(2, "broot")]),
        (5, vec![terminal(3, "broot")]),
    ]);
    s.update(pane_update(manifest));
    assert_eq!(s.own_tab_index, Some(3));
    assert_eq!(s.pane_map.get("broot"), Some(&PaneId::Terminal(2)));
}

#[test]
fn own_tab_is_kept_when_plugin_is_not_listed() {
    let mut s = running();
    s.update(pane_update(tabs(vec![
        (0, vec![terminal(20, "beta")]),
        (1, vec![terminal(99, "alpha")]),
    ])));
    assert_eq!(s.own_tab_index, Some(0));
    assert!(!s.pane_map.contains_key("alpha"));
    assert_eq!(s.pane_map.get("beta"), Some(&PaneId::Terminal(20)));
}

#[test]
fn own_tab_moves_with_the_plugin() {
    let mut s = running();
    s.locate_own_tab(&tabs(vec![(2, vec![pane(OWN_ID, true, "manager")])]), OWN_ID);
    assert_eq!(s.own_tab_index, Some(2));
}

#[test]
fn missing_own_tab_evicts_everything() {
    let mut s = running();
    s.pipe(toggle("alpha"));
    s.rebuild_pane_map(tabs(vec![(1, vec![terminal(10, "alpha")])]));
    assert!(s.pane_map.is_empty());
    assert_eq!(s.active_pane, None);
}

#[test]
fn all_tabs_are_scanned_while_own_tab_is_unknown() {
    let mut s = State::default();
    s.managed_panes = vec!["alpha".to_string(), "beta".to_string()];
    s.rebuild_pane_map(tabs(vec![
        (0, vec![terminal(1, "alpha")]),
        (1, vec![terminal(2, "beta")]),
    ]));
    assert_eq!(s.own_tab_index, None);
    assert_eq!(s.pane_map.get("alpha"), Some(&PaneId::Terminal(1)));
    assert_eq!(s.pane_map.get("beta"), Some(&PaneId::Terminal(2)));
}

#[test]
fn ambiguous_title_across_tabs_adopts_one_of_them() {
    let mut s = State::default();
    s.managed_panes = vec!["alpha".to_string()];
    s.rebuild_pane_map(tabs(vec![
        (0, vec![terminal(1, "alpha")]),
        (1, vec![terminal(2, "alpha")]),
    ]));
    let id = s.pane_map.get("alpha").copied();
    assert!(id == Some(PaneId::Terminal(1)) || id == Some(PaneId::Terminal(2)));
}

#[test]
fn first_pane_with_the_title_is_adopted() {
    let mut s = State::default();
    s.managed_panes = vec!["x".to_string()];
    s.adopt_panes(&vec![
        terminal(1, "y"),
        pane(2, true, "x"),
        terminal(3, "x"),
    ]);
    assert_eq!(s.pane_map.get("x"), Some(&PaneId::Plugin(2)));
}

#[test]
fn unmanaged_titles_are_not_adopted() {
    let mut s = State::default();
    s.managed_panes = vec!["x".to_string()];
    s.adopt_panes(&vec![terminal(1, "y")]);
    assert!(s.pane_map.is_empty());
}

#[test]
fn reopened_pane_takes_the_name_but_is_not_active() {
    let mut s = running();
    s.pipe(toggle("alpha"));
    s.update(pane_update(own_tab(vec![
        terminal(11, "alpha"),
        terminal(20, "beta"),
    ])));
    assert_eq!(s.pane_map.get("alpha"), Some(&PaneId::Terminal(11)));
    assert_eq!(s.active_pane, None);
}

#[test]
fn repeated_update_changes_nothing() {
    let mut s = running();
    s.pipe(toggle("beta"));
    for _ in 0..2 {
        let r = s.update(pane_update(own_tab(vec![
            terminal(10, "renamed"),
            terminal(20, "vim"),
        ])));
        assert!(r.calls.is_empty());
        assert_eq!(s.pane_map.get("alpha"), Some(&PaneId::Terminal(10)));
        assert_eq!(s.pane_map.get("beta"), Some(&PaneId::Terminal(20)));
        assert_eq!(s.active_pane, Some("beta".to_string()));
    }
}

#[test]
fn retry_without_pending_target_does_nothing() {
    let mut s = running();
    assert!(s.retry_pending().is_empty());
    assert_eq!(s.active_pane, None);
}

#[test]
fn retry_of_active_pane_hides_it() {
    let mut s = running();
    s.active_pane = Some("alpha".to_string());
    s.pending_target = Some("alpha".to_string());
    assert_eq!(s.retry_pending(), vec![hide_layer()]);
    assert_eq!(s.active_pane, None);
    assert_eq!(s.pending_target, None);
}

#[test]
fn pane_ids_by_kind() {
    assert_eq!(make_pane_id(&terminal(5, "")), PaneId::Terminal(5));
    assert_eq!(make_pane_id(&pane(5, true, "")), PaneId::Plugin(5));
}

#[test]
fn name_map_operations() {
    let mut m: NameMap<PaneId> = NameMap::new();
    assert!(m.is_empty());
    assert_eq!(m.insert("a".to_string(), PaneId::Terminal(1)), None);
    assert_eq!(m.insert("b".to_string(), PaneId::Terminal(2)), None);
    assert_eq!(
        m.insert("a".to_string(), PaneId::Plugin(3)),
        Some(PaneId::Terminal(1))
    );
    assert_eq!(m.len(), 2);
    assert_eq!(m.get("a"), Some(&PaneId::Plugin(3)));
    let mut names = m.names();
    names.sort();
    assert_eq!(names, vec!["a", "b"]);
    assert_eq!(m.remove("a"), Some(PaneId::Plugin(3)));
    assert_eq!(m.remove("a"), None);
    assert_eq!(m.get("a"), None);
    assert_eq!(m.get("b"), Some(&PaneId::Terminal(2)));
}

#[test]
fn actions_become_calls_in_order() {
    let calls = zellij_pane_manager::host::host_calls(&vec![
        PaneAction::HideFloatingLayer,
        PaneAction::ShowPaneWithId(PaneId::Terminal(4)),
    ]);
    assert_eq!(calls, vec![hide_layer(), show_terminal(4)]);
}

/// Each pane found is managed, the active pane has been found, no toggle waits for a found pane.
fn assert_consistent(s: &State) {
    for name in s.pane_map.names() {
        assert!(s.managed_panes.contains(&name));
    }
    if let Some(active) = &s.active_pane {
        assert!(s.pane_map.contains_key(active));
    }
    if let Some(pending) = &s.pending_target {
        assert!(!s.pane_map.contains_key(pending));
    }
}

#[test]
fn state_stays_consistent() {
    let mut s = State::default();
    assert_consistent(&s);
    s.pipe(toggle("alpha"));
    assert_consistent(&s);
    s.load(config(&[("pane_0_name", "alpha"), ("pane_1_name", "beta")]));
    assert_consistent(&s);
    s.update(pane_update(own_tab(vec![terminal(10, "alpha")])));
    assert_consistent(&s);
    assert_eq!(s.active_pane, Some("alpha".to_string()));
    s.pipe(toggle("beta"));
    assert_consistent(&s);
    s.update(pane_update(own_tab(vec![terminal(20, "beta")])));
    assert_consistent(&s);
    assert_eq!(s.active_pane, Some("beta".to_string()));
    s.load(config(&[("pane_0_name", "gamma")]));
    assert_consistent(&s);
    assert_eq!(s.active_pane, None);
    s.update(pane_update(own_tab(vec![])));
    assert_consistent(&s);
}
