//! What holds of the plugin across its transitions.

use crate::config::{lists_panes, listed_panes, pane_key};
use crate::host::{calls_for, HostCallView, PaneAction};
use crate::model::{stays, StateView};
use crate::pane::{
    first_titled, in_scope, is_first_titled, is_open, is_own_tab, is_titled, joined, lists_tabs,
    PaneId, PaneView,
};
use vstd::prelude::*;

verus! {

// ---- the invariant of the state ----

/// The state in which the plugin starts is consistent.
pub proof fn law_initial_consistent()
    ensures
        StateView::initial().consistent(),
{
}

/// Reading a configuration keeps the state consistent.
pub proof fn law_loaded_consistent(s: StateView, config: Map<Seq<char>, Seq<char>>)
    requires
        s.consistent(),
    ensures
        s.loaded(config).consistent(),
{
}

/// A pane update keeps the state consistent.
pub proof fn law_updated_consistent(s: StateView, own_tab: Option<usize>, panes: Seq<PaneView>)
    requires
        s.consistent(),
    ensures
        s.updated(own_tab, panes).consistent(),
{
}

/// A message keeps the state consistent.
pub proof fn law_piped_consistent(s: StateView, name: Seq<char>, payload: Option<Seq<char>>)
    requires
        s.consistent(),
    ensures
        s.piped(name, payload).consistent(),
{
}

/// A step of the plugin: a configuration is read, the panes are updated, a message comes in.
pub enum Step {
    Load { config: Map<Seq<char>, Seq<char>> },
    Update { own_tab: Option<usize>, panes: Seq<PaneView> },
    Pipe { name: Seq<char>, payload: Option<Seq<char>> },
}

/// The state after some steps, from the start on.
pub open spec fn after(steps: Seq<Step>) -> StateView
    decreases steps.len(),
{
    if steps.len() == 0 {
        StateView::initial()
    } else {
        let before = after(steps.drop_last());
        match steps.last() {
            Step::Load { config } => before.loaded(config),
            Step::Update { own_tab, panes } => before.updated(own_tab, panes),
            Step::Pipe { name, payload } => before.piped(name, payload),
        }
    }
}

/// Every state that the plugin reaches is consistent: each pane found is a managed one, the
/// active pane is one of those found, and no toggle waits for a pane that has been found.
pub proof fn law_always_consistent(steps: Seq<Step>)
    ensures
        after(steps).consistent(),
        forall|name: Seq<char>| #[trigger]
            after(steps).pane_map.contains_key(name) ==> after(steps).managed_panes.contains(name),
        after(steps).active_pane is Some ==> after(steps).pane_map.contains_key(
            after(steps).active_pane->0,
        ),
        after(steps).pending_target is Some ==> !after(steps).pane_map.contains_key(
            after(steps).pending_target->0,
        ),
    decreases steps.len(),
{
    if steps.len() > 0 {
        law_always_consistent(steps.drop_last());
        let before = after(steps.drop_last());
        match steps.last() {
            Step::Load { config } => law_loaded_consistent(before, config),
            Step::Update { own_tab, panes } => law_updated_consistent(before, own_tab, panes),
            Step::Pipe { name, payload } => law_piped_consistent(before, name, payload),
        }
    }
}

// ---- toggling ----

/// Two presses for the same pane show it and hide the layer, or the other way round, and leave
/// everything as it was but for another pane that was active.
pub proof fn law_toggle_twice(s: StateView, target: Seq<char>)
    requires
        s.pane_map.contains_key(target),
    ensures
        s.active_pane == Some(target) ==> {
            &&& s.toggle_actions(target) == seq![PaneAction::HideFloatingLayer]
            &&& s.toggled(target).toggle_actions(target) == seq![
                PaneAction::ShowPaneWithId(s.pane_map[target]),
            ]
            &&& s.toggled(target).toggled(target) == s
        },
        s.active_pane != Some(target) ==> {
            &&& s.toggle_actions(target) == seq![PaneAction::ShowPaneWithId(s.pane_map[target])]
            &&& s.toggled(target).toggle_actions(target) == seq![PaneAction::HideFloatingLayer]
            &&& s.toggled(target).toggled(target) == (StateView { active_pane: None, ..s })
        },
{
}

/// The state after `n` presses for the same pane.
pub open spec fn pressed(s: StateView, target: Seq<char>, n: nat) -> StateView
    decreases n,
{
    if n == 0 {
        s
    } else {
        pressed(s, target, (n - 1) as nat).toggled(target)
    }
}

/// Presses for a pane that is not active alternate: every odd press shows the pane, every even
/// one hides the layer, and the pane is active exactly after an odd number of presses.
pub proof fn law_presses_alternate(s: StateView, target: Seq<char>, n: nat)
    requires
        s.pane_map.contains_key(target),
        s.active_pane != Some(target),
    ensures
        pressed(s, target, n).pane_map == s.pane_map,
        (pressed(s, target, n).active_pane == Some(target)) == (n % 2 == 1),
        pressed(s, target, n).toggle_actions(target) == if n % 2 == 0 {
            seq![PaneAction::ShowPaneWithId(s.pane_map[target])]
        } else {
            seq![PaneAction::HideFloatingLayer]
        },
    decreases n,
{
    if n > 0 {
        law_presses_alternate(s, target, (n - 1) as nat);
    }
}

/// A press for another pane than the active one shows that pane and makes it the active one,
/// without hiding the floating layer.
pub proof fn law_switch(s: StateView, active: Seq<char>, target: Seq<char>)
    requires
        s.active_pane == Some(active),
        s.pane_map.contains_key(target),
        target != active,
    ensures
        s.toggle_actions(target) == seq![PaneAction::ShowPaneWithId(s.pane_map[target])],
        s.toggled(target) == (StateView { active_pane: Some(target), ..s }),
{
}

/// A press for a name without a pane does nothing.
pub proof fn law_unknown_target(s: StateView, target: Seq<char>)
    requires
        !s.pane_map.contains_key(target),
    ensures
        s.toggled(target) == s,
        s.toggle_actions(target) == Seq::<PaneAction>::empty(),
{
}

/// A press leads to one action at most, and changes nothing but which pane is active.
pub proof fn law_toggle_frame(s: StateView, target: Seq<char>)
    ensures
        s.toggle_actions(target).len() <= 1,
        s.toggled(target) == (StateView { active_pane: s.toggled(target).active_pane, ..s }),
{
}

// ---- refreshing the known panes ----

/// After a look at the open panes, every pane known is one of them.
pub proof fn law_known_panes_open(s: StateView, panes: Seq<PaneView>, name: Seq<char>)
    requires
        s.rebuilt(panes).pane_map.contains_key(name),
    ensures
        is_open(panes, s.rebuilt(panes).pane_map[name]),
{
    if !stays(s.pane_map, panes, name) {
        let i = crate::pane::lemma_first_titled_exists(panes, name);
        assert(panes[i].pane_id() == s.rebuilt(panes).pane_map[name]);
    }
}

/// A second look at the same panes changes nothing.
pub proof fn law_rebuild_idempotent(s: StateView, panes: Seq<PaneView>)
    ensures
        s.rebuilt(panes).rebuilt(panes) == s.rebuilt(panes),
{
    let once = s.rebuilt(panes);
    let twice = once.rebuilt(panes);
    assert forall|name: Seq<char>| #[trigger] once.pane_map.contains_key(name) implies stays(
        once.pane_map,
        panes,
        name,
    ) by {
        law_known_panes_open(s, panes, name);
    }
    assert(twice.pane_map =~= once.pane_map);
    if once.active_pane is Some && once.pane_map.contains_key(once.active_pane->0) {
        law_known_panes_open(s, panes, once.active_pane->0);
    }
    assert(twice =~= once);
}

/// A pane that stays open stays known under its identity, whatever the titles are now.
pub proof fn law_titles_do_not_matter(
    s: StateView,
    panes: Seq<PaneView>,
    name: Seq<char>,
)
    requires
        s.pane_map.contains_key(name),
        is_open(panes, s.pane_map[name]),
    ensures
        s.rebuilt(panes).pane_map.contains_key(name),
        s.rebuilt(panes).pane_map[name] == s.pane_map[name],
        s.active_pane == Some(name) ==> s.rebuilt(panes).active_pane == Some(name),
{
}

/// A pane that has been closed is forgotten, and is not active any more. Its name is free for
/// the first pane with that title, if the name is managed and there is such a pane.
pub proof fn law_closed_pane_forgotten(s: StateView, panes: Seq<PaneView>, name: Seq<char>)
    requires
        s.pane_map.contains_key(name),
        !is_open(panes, s.pane_map[name]),
    ensures
        s.active_pane == Some(name) ==> s.rebuilt(panes).active_pane is None,
        s.rebuilt(panes).pane_map.contains_key(name) <==> s.managed_panes.contains(name)
            && is_titled(panes, name),
        s.rebuilt(panes).pane_map.contains_key(name) ==> first_titled(panes, name) == Some(
            s.rebuilt(panes).pane_map[name],
        ),
        s.rebuilt(panes).pane_map.contains_key(name) ==> s.rebuilt(panes).pane_map[name]
            != s.pane_map[name],
{
    if s.rebuilt(panes).pane_map.contains_key(name) {
        law_known_panes_open(s, panes, name);
    }
}

/// A managed name without a pane takes the first pane with that title.
pub proof fn law_discovered_by_title(s: StateView, panes: Seq<PaneView>, name: Seq<char>, i: int)
    requires
        s.managed_panes.contains(name),
        !s.pane_map.contains_key(name),
        is_first_titled(panes, name, i),
    ensures
        s.rebuilt(panes).pane_map.contains_key(name),
        s.rebuilt(panes).pane_map[name] == panes[i].pane_id(),
{
    crate::pane::lemma_first_titled(panes, name, i);
}

/// A title alone does not make a pane known: its name has to be managed.
pub proof fn law_only_managed_names(s: StateView, panes: Seq<PaneView>, name: Seq<char>)
    requires
        !s.pane_map.contains_key(name),
        !s.managed_panes.contains(name),
    ensures
        !s.rebuilt(panes).pane_map.contains_key(name),
{
}

/// Terminals and plugins with the same number are not taken for each other.
pub proof fn law_kinds_apart(panes: Seq<PaneView>, n: u32)
    ensures
        (forall|i: int| 0 <= i < panes.len() ==> (#[trigger] panes[i]).is_plugin) ==> !is_open(
            panes,
            PaneId::Terminal(n),
        ),
        (forall|i: int| 0 <= i < panes.len() ==> !(#[trigger] panes[i]).is_plugin) ==> !is_open(
            panes,
            PaneId::Plugin(n),
        ),
{
}

// ---- tabs ----

/// Once the own tab is known, what other tabs hold makes no difference.
pub proof fn law_other_tabs_ignored(
    m1: Map<usize, Seq<PaneView>>,
    m2: Map<usize, Seq<PaneView>>,
    tab: usize,
    panes: Seq<PaneView>,
)
    requires
        m1.contains_key(tab) == m2.contains_key(tab),
        m1.contains_key(tab) ==> m1[tab] == m2[tab],
    ensures
        in_scope(m1, Some(tab), panes) == in_scope(m2, Some(tab), panes),
{
}

/// Once the own tab is known, it stays known, and it changes only to a tab that holds the
/// plugin.
pub proof fn law_own_tab_stays_known(
    manifest: Map<usize, Seq<PaneView>>,
    plugin_id: u32,
    before: usize,
    after: Option<usize>,
)
    requires
        is_own_tab(manifest, plugin_id, Some(before), after),
    ensures
        after is Some,
        after != Some(before) ==> manifest.contains_key(after->0) && is_open(
            manifest[after->0],
            PaneId::Plugin(plugin_id),
        ),
{
}

/// If exactly one tab holds the plugin, that tab is taken for its own.
pub proof fn law_own_tab_found(
    manifest: Map<usize, Seq<PaneView>>,
    plugin_id: u32,
    tab: usize,
    before: Option<usize>,
    after: Option<usize>,
)
    requires
        manifest.contains_key(tab),
        is_open(manifest[tab], PaneId::Plugin(plugin_id)),
        forall|t: usize| #[trigger]
            manifest.contains_key(t) && is_open(manifest[t], PaneId::Plugin(plugin_id)) ==> t
                == tab,
        is_own_tab(manifest, plugin_id, before, after),
    ensures
        after == Some(tab),
{
}

/// A pane stands among those of the listed tabs exactly if one of these tabs holds it.
proof fn lemma_joined_contains(
    manifest: Map<usize, Seq<PaneView>>,
    order: Seq<usize>,
    pane: PaneView,
)
    ensures
        joined(manifest, order).contains(pane) <==> exists|tab: usize| #[trigger]
            order.contains(tab) && manifest[tab].contains(pane),
    decreases order.len(),
{
    if order.len() > 0 {
        let rest = order.drop_last();
        let last = order.last();
        lemma_joined_contains(manifest, rest, pane);
        let head = joined(manifest, rest);
        let all = head + manifest[last];
        if all.contains(pane) {
            let i = all.index_of(pane);
            if i < head.len() {
                assert(head[i] == pane);
                let tab = choose|tab: usize| #[trigger]
                    rest.contains(tab) && manifest[tab].contains(pane);
                assert(order[rest.index_of(tab)] == tab);
                assert(order.contains(tab) && manifest[tab].contains(pane));
            } else {
                assert(manifest[last][i - head.len()] == pane);
                assert(order[order.len() - 1] == last);
                assert(order.contains(last) && manifest[last].contains(pane));
            }
        }
        if exists|tab: usize| #[trigger] order.contains(tab) && manifest[tab].contains(pane) {
            let tab = choose|tab: usize| #[trigger]
                order.contains(tab) && manifest[tab].contains(pane);
            let k = order.index_of(tab);
            if k < rest.len() {
                assert(rest[k] == tab);
                assert(rest.contains(tab) && manifest[tab].contains(pane));
                let i = head.index_of(pane);
                assert(all[i] == pane);
            } else {
                let i = manifest[last].index_of(pane);
                assert(all[head.len() + i] == pane);
            }
        }
    }
}

/// In whatever order the tabs are walked, the same panes are met.
pub proof fn law_walk_meets_same_panes(
    manifest: Map<usize, Seq<PaneView>>,
    p1: Seq<PaneView>,
    p2: Seq<PaneView>,
    pane: PaneView,
)
    requires
        in_scope(manifest, None, p1),
        in_scope(manifest, None, p2),
    ensures
        p1.contains(pane) == p2.contains(pane),
        p1.contains(pane) <==> exists|tab: usize| #[trigger]
            manifest.contains_key(tab) && manifest[tab].contains(pane),
{
    let o1 = choose|order: Seq<usize>| #[trigger]
        lists_tabs(manifest, order) && p1 == joined(manifest, order);
    let o2 = choose|order: Seq<usize>| #[trigger]
        lists_tabs(manifest, order) && p2 == joined(manifest, order);
    lemma_joined_contains(manifest, o1, pane);
    lemma_joined_contains(manifest, o2, pane);
    assert forall|tab: usize| #[trigger] manifest.contains_key(tab) implies o1.contains(tab)
        && o2.contains(tab) by {}
}

/// As long as the own tab is not known, the order in which the tabs are walked decides neither
/// which names have a pane nor which pane is active.
pub proof fn law_walk_order(
    s: StateView,
    manifest: Map<usize, Seq<PaneView>>,
    p1: Seq<PaneView>,
    p2: Seq<PaneView>,
)
    requires
        in_scope(manifest, None, p1),
        in_scope(manifest, None, p2),
    ensures
        s.rebuilt(p1).pane_map.dom() == s.rebuilt(p2).pane_map.dom(),
        s.rebuilt(p1).active_pane == s.rebuilt(p2).active_pane,
{
    lemma_walks_alike(manifest, p1, p2);
    assert(s.rebuilt(p1).pane_map.dom() =~= s.rebuilt(p2).pane_map.dom());
}

/// Two walks over the tabs meet the same identities and the same titles.
proof fn lemma_walks_alike(
    manifest: Map<usize, Seq<PaneView>>,
    p1: Seq<PaneView>,
    p2: Seq<PaneView>,
)
    requires
        in_scope(manifest, None, p1),
        in_scope(manifest, None, p2),
    ensures
        forall|pane: PaneView| #[trigger] p1.contains(pane) == p2.contains(pane),
        forall|id: PaneId| #[trigger] is_open(p1, id) == is_open(p2, id),
        forall|name: Seq<char>| #[trigger] is_titled(p1, name) == is_titled(p2, name),
{
    assert forall|pane: PaneView| #[trigger] p1.contains(pane) == p2.contains(pane) by {
        law_walk_meets_same_panes(manifest, p1, p2, pane);
    }
    lemma_subset_panes(p1, p2);
    lemma_subset_panes(p2, p1);
}

/// Panes that are all met elsewhere have their identities and titles there too.
proof fn lemma_subset_panes(p1: Seq<PaneView>, p2: Seq<PaneView>)
    requires
        forall|pane: PaneView| #[trigger] p1.contains(pane) ==> p2.contains(pane),
    ensures
        forall|id: PaneId| #[trigger] is_open(p1, id) ==> is_open(p2, id),
        forall|name: Seq<char>| #[trigger] is_titled(p1, name) ==> is_titled(p2, name),
{
    assert forall|id: PaneId| #[trigger] is_open(p1, id) implies is_open(p2, id) by {
        let i = choose|i: int| 0 <= i < p1.len() && (#[trigger] p1[i]).pane_id() == id;
        assert(p1.contains(p1[i]));
        let j = p2.index_of(p1[i]);
        assert(p2[j].pane_id() == id);
    }
    assert forall|name: Seq<char>| #[trigger] is_titled(p1, name) implies is_titled(p2, name) by {
        let i = choose|i: int| 0 <= i < p1.len() && (#[trigger] p1[i]).title == name;
        assert(p1.contains(p1[i]));
        let j = p2.index_of(p1[i]);
        assert(p2[j].title == name);
    }
}

/// If moreover no two panes bear the name of the same managed pane, the order in which the tabs
/// are walked makes no difference at all.
pub proof fn law_unique_titles(
    s: StateView,
    manifest: Map<usize, Seq<PaneView>>,
    p1: Seq<PaneView>,
    p2: Seq<PaneView>,
)
    requires
        in_scope(manifest, None, p1),
        in_scope(manifest, None, p2),
        forall|i: int, j: int|
            0 <= i < p1.len() && 0 <= j < p1.len() && (#[trigger] p1[i]).title == (
            #[trigger] p1[j]).title && s.managed_panes.contains(p1[i].title) ==> p1[i].pane_id()
                == p1[j].pane_id(),
    ensures
        s.rebuilt(p1) == s.rebuilt(p2),
{
    law_walk_order(s, manifest, p1, p2);
    lemma_walks_alike(manifest, p1, p2);
    let m1 = s.rebuilt(p1).pane_map;
    let m2 = s.rebuilt(p2).pane_map;
    assert forall|name: Seq<char>| #[trigger] m1.contains_key(name) implies m1[name] == m2[name] by {
        if !stays(s.pane_map, p1, name) {
            let i = crate::pane::lemma_first_titled_exists(p1, name);
            let j = crate::pane::lemma_first_titled_exists(p2, name);
            assert(p2.contains(p2[j]));
            assert(p1.contains(p2[j]));
            let k = p1.index_of(p2[j]);
            assert(p1[k].title == p1[i].title);
        }
    }
    assert(m1 =~= m2);
    assert(s.rebuilt(p1) =~= s.rebuilt(p2));
}

// ---- messages and waiting toggles ----

/// A message that is not named `toggle`, or that names no pane, does nothing.
pub proof fn law_other_messages_ignored(
    s: StateView,
    name: Seq<char>,
    payload: Option<Seq<char>>,
)
    requires
        name != "toggle"@ || payload is None,
    ensures
        s.piped(name, payload) == s,
        s.pipe_calls(name, payload) == Seq::<HostCallView>::empty(),
{
}

/// A waiting toggle is not lost: as long as its pane is not found, it goes on waiting, and
/// nothing is called.
pub proof fn law_pending_retained(
    s: StateView,
    own_tab: Option<usize>,
    panes: Seq<PaneView>,
    target: Seq<char>,
)
    requires
        s.pending_target == Some(target),
        !s.rebuilt(panes).pane_map.contains_key(target),
    ensures
        s.updated(own_tab, panes).pending_target == Some(target),
        s.update_calls(own_tab, panes) == Seq::<HostCallView>::empty(),
        s.updated(own_tab, panes) == (StateView { own_tab_index: own_tab, ..s }).rebuilt(panes),
{
}

/// As soon as its pane is found, a waiting toggle shows the pane, and waits no longer.
pub proof fn law_pending_processed(
    s: StateView,
    own_tab: Option<usize>,
    panes: Seq<PaneView>,
    target: Seq<char>,
)
    requires
        s.consistent(),
        s.pending_target == Some(target),
        s.rebuilt(panes).pane_map.contains_key(target),
    ensures
        s.updated(own_tab, panes).pending_target is None,
        s.updated(own_tab, panes).active_pane == Some(target),
        s.update_calls(own_tab, panes) == calls_for(
            seq![PaneAction::ShowPaneWithId(s.rebuilt(panes).pane_map[target])],
        ),
{
    assert(s.active_pane != Some(target));
}

/// A toggle asked for before its pane is found has, once it is found, the same effect as one
/// asked for after.
pub proof fn law_early_request(
    s: StateView,
    own_tab: Option<usize>,
    panes: Seq<PaneView>,
    target: Seq<char>,
)
    requires
        s.pending_target is None,
        !s.pane_map.contains_key(target),
        s.rebuilt(panes).pane_map.contains_key(target),
    ensures
        s.requested(target).updated(own_tab, panes) == s.updated(own_tab, panes).requested(target),
        s.requested(target).update_calls(own_tab, panes) == calls_for(
            s.updated(own_tab, panes).toggle_actions(target),
        ),
{
    assert(s.requested(target).updated(own_tab, panes) =~= s.updated(own_tab, panes).requested(
        target,
    ));
}

/// Of several requests for panes that are not found yet, the latest one counts.
pub proof fn law_latest_request_counts(s: StateView, first: Seq<char>, second: Seq<char>)
    requires
        !s.pane_map.contains_key(first),
        !s.pane_map.contains_key(second),
    ensures
        s.requested(first).requested(second) == s.requested(second),
{
}

/// A request for a pane that has been found leaves a waiting toggle alone.
pub proof fn law_found_request_keeps_pending(s: StateView, target: Seq<char>)
    requires
        s.pane_map.contains_key(target),
    ensures
        s.requested(target).pending_target == s.pending_target,
{
}

// ---- configuration ----

/// Reading the same configuration again changes nothing and calls nothing.
pub proof fn law_load_idempotent(s: StateView, config: Map<Seq<char>, Seq<char>>)
    ensures
        s.loaded(config).loaded(config) == s.loaded(config),
        s.loaded(config).load_calls() == Seq::<HostCallView>::empty(),
{
    assert(s.loaded(config).loaded(config).pane_map =~= s.loaded(config).pane_map);
    assert(s.loaded(config).loaded(config) =~= s.loaded(config));
}

/// The one-time setup takes place when a configuration is first read, and never again.
pub proof fn law_setup_once(steps: Seq<Step>)
    ensures
        after(steps).initialized <==> exists|i: int|
            0 <= i < steps.len() && #[trigger] steps[i] is Load,
        after(steps).load_calls() == Seq::<HostCallView>::empty() <==> exists|i: int|
            0 <= i < steps.len() && #[trigger] steps[i] is Load,
    decreases steps.len(),
{
    if steps.len() > 0 {
        let before = steps.drop_last();
        law_setup_once(before);
        if exists|i: int| 0 <= i < before.len() && #[trigger] before[i] is Load {
            let i = choose|i: int| 0 <= i < before.len() && #[trigger] before[i] is Load;
            assert(steps[i] is Load);
        }
        if exists|i: int| 0 <= i < steps.len() && #[trigger] steps[i] is Load {
            let i = choose|i: int| 0 <= i < steps.len() && #[trigger] steps[i] is Load;
            if i < before.len() {
                assert(before[i] is Load);
            }
        }
        assert(steps[steps.len() - 1] == steps.last());
    }
    if !after(steps).initialized {
        assert(after(steps).load_calls().len() == 2);
    }
}

/// Panes that a new configuration still lists keep their identity, and the active one stays
/// active.
pub proof fn law_load_keeps_listed(
    s: StateView,
    config: Map<Seq<char>, Seq<char>>,
    name: Seq<char>,
)
    requires
        s.pane_map.contains_key(name),
        listed_panes(config).contains(name),
    ensures
        s.loaded(config).pane_map.contains_key(name),
        s.loaded(config).pane_map[name] == s.pane_map[name],
        s.active_pane == Some(name) ==> s.loaded(config).active_pane == Some(name),
{
}

/// Panes that a new configuration does not list are forgotten, and are not active any more.
pub proof fn law_load_forgets_unlisted(
    s: StateView,
    config: Map<Seq<char>, Seq<char>>,
    name: Seq<char>,
)
    requires
        !listed_panes(config).contains(name),
    ensures
        !s.loaded(config).pane_map.contains_key(name),
        s.loaded(config).active_pane != Some(name),
{
}

/// Reading of the pane list stops at the first missing number: configurations that agree up to
/// there list the same panes, whatever else they hold.
pub proof fn law_list_stops_at_gap(
    c1: Map<Seq<char>, Seq<char>>,
    c2: Map<Seq<char>, Seq<char>>,
    names: Seq<Seq<char>>,
)
    requires
        lists_panes(c1, names),
        forall|i: nat|
            i <= names.len() ==> c1.contains_key(#[trigger] pane_key(i)) == c2.contains_key(
                pane_key(i),
            ) && (c1.contains_key(pane_key(i)) ==> c1[pane_key(i)] == c2[pane_key(i)]),
    ensures
        listed_panes(c1) == names,
        listed_panes(c2) == names,
{
    crate::config::lemma_listed_panes_unique(c1, names);
    assert(lists_panes(c2, names));
    crate::config::lemma_listed_panes_unique(c2, names);
}

} // verus!
