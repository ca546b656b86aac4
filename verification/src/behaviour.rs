//! What each operation does, told by what goes in and what comes out.

use crate::config::{config_texts, decimal, listed_panes, lists_panes, pane_key, texts};
use crate::host::{
    call_for, call_views, calls_for, EventType, HostCall, HostCallView, PaneAction, PermissionType,
};
use crate::model::StateView;
use crate::pane::{
    first_titled, in_scope, is_first_titled, is_open, is_own_tab, is_titled, joined,
    lemma_first_titled_exists, lists_tabs, pane_views, PaneId, PaneInfo, PaneManifest, PaneView,
};
use crate::state::{opt_text, State};
use vstd::prelude::*;

verus! {

// ---- what values stand for ----

/// The content of the state is the content of its fields.
pub proof fn law_state_content(state: State)
    ensures
        state@.pane_map == state.pane_map@,
        state@.managed_panes.len() == state.managed_panes@.len(),
        forall|i: int|
            0 <= i < state.managed_panes@.len() ==> #[trigger] state@.managed_panes[i]
                == state.managed_panes@[i]@,
        state@.active_pane is Some <==> state.active_pane is Some,
        state.active_pane is Some ==> state@.active_pane->0 == state.active_pane->0@,
        state@.pending_target is Some <==> state.pending_target is Some,
        state.pending_target is Some ==> state@.pending_target->0 == state.pending_target->0@,
        state@.initialized == state.initialized,
        state@.own_tab_index == state.own_tab_index,
{
}

/// The content of an optional string is that of the string, if there is one.
pub proof fn law_optional_text(text: Option<String>)
    ensures
        opt_text(text) is Some <==> text is Some,
        text is Some ==> opt_text(text)->0 == text->0@,
{
}

/// The content of a list of strings is that of each string, in order.
pub proof fn law_texts(strings: Seq<String>)
    ensures
        texts(strings).len() == strings.len(),
        forall|i: int| 0 <= i < strings.len() ==> #[trigger] texts(strings)[i] == strings[i]@,
{
}

/// The content of a configuration has the same keys, each with the content of its value.
pub proof fn law_config_texts(config: Map<Seq<char>, String>, key: Seq<char>)
    ensures
        config_texts(config).contains_key(key) == config.contains_key(key),
        config.contains_key(key) ==> config_texts(config)[key] == config[key]@,
{
}

/// The content of a list of panes is the number, kind and title of each pane, in order.
pub proof fn law_pane_content(panes: Seq<PaneInfo>, i: int)
    requires
        0 <= i < panes.len(),
    ensures
        pane_views(panes).len() == panes.len(),
        pane_views(panes)[i] == panes[i]@,
        pane_views(panes)[i].id == panes[i].id,
        pane_views(panes)[i].is_plugin == panes[i].is_plugin,
        pane_views(panes)[i].title == panes[i].title@,
{
}

/// The content of a manifest has the same tabs, each with the content of its panes.
pub proof fn law_manifest_content(manifest: PaneManifest, tab: usize)
    ensures
        manifest@.contains_key(tab) == manifest.panes@.contains_key(tab),
        manifest.panes@.contains_key(tab) ==> {
            &&& manifest@[tab].len() == manifest.panes@[tab]@.len()
            &&& forall|i: int|
                0 <= i < manifest@[tab].len() ==> #[trigger] manifest@[tab][i]
                    == manifest.panes@[tab]@[i]@
        },
{
}

/// The content of a list of host calls is that of each call, in order, with all its arguments.
pub proof fn law_call_content(calls: Seq<HostCall>, i: int)
    requires
        0 <= i < calls.len(),
    ensures
        call_views(calls).len() == calls.len(),
        match calls[i] {
            HostCall::RequestPermission(permissions) => call_views(calls)[i]
                == HostCallView::RequestPermission(permissions@),
            HostCall::Subscribe(events) => call_views(calls)[i] == HostCallView::Subscribe(events@),
            HostCall::HideFloatingPanes { tab_id } => call_views(calls)[i]
                == (HostCallView::HideFloatingPanes { tab_id }),
            HostCall::ShowPaneWithId { pane_id, should_float_if_hidden, should_focus_pane } =>
                call_views(calls)[i] == (HostCallView::ShowPaneWithId {
                    pane_id,
                    should_float_if_hidden,
                    should_focus_pane,
                }),
        },
{
}

// ---- toggling ----

/// After a press for a known pane, that pane is active if it was not, and no pane is if it was.
/// Nothing else changes.
pub proof fn law_press_flips_active(s: StateView, target: Seq<char>)
    requires
        s.pane_map.contains_key(target),
    ensures
        s.active_pane == Some(target) ==> s.toggled(target).active_pane is None,
        s.active_pane != Some(target) ==> s.toggled(target).active_pane == Some(target),
        s.toggled(target).pane_map == s.pane_map,
        s.toggled(target).managed_panes == s.managed_panes,
        s.toggled(target).pending_target == s.pending_target,
        s.toggled(target).initialized == s.initialized,
        s.toggled(target).own_tab_index == s.own_tab_index,
{
}

/// A press for a known pane shows the very pane known by that name, unless it is active; then it
/// hides the floating layer.
pub proof fn law_press_action(s: StateView, target: Seq<char>)
    requires
        s.pane_map.contains_key(target),
    ensures
        s.toggle_actions(target).len() == 1,
        s.active_pane == Some(target) ==> s.toggle_actions(target)[0]
            == PaneAction::HideFloatingLayer,
        s.active_pane != Some(target) ==> s.toggle_actions(target)[0]
            == PaneAction::ShowPaneWithId(s.pane_map[target]),
{
}

/// Each action leads to one call. To show a pane is to show that pane, floating and focused; to
/// hide the layer is to hide that of the current tab.
pub proof fn law_dispatch(actions: Seq<PaneAction>, i: int)
    requires
        0 <= i < actions.len(),
    ensures
        calls_for(actions).len() == actions.len(),
        match actions[i] {
            PaneAction::ShowPaneWithId(id) => calls_for(actions)[i] == (
            HostCallView::ShowPaneWithId {
                pane_id: id,
                should_float_if_hidden: true,
                should_focus_pane: true,
            }),
            PaneAction::HideFloatingLayer => calls_for(actions)[i] == (
            HostCallView::HideFloatingPanes { tab_id: None }),
        },
        calls_for(actions)[i] == call_for(actions[i]),
{
}

/// A `toggle` message for a known pane is answered with exactly one call: to show that pane,
/// floating and focused, or, if it is active, to hide the floating layer of the current tab. The
/// pane becomes active, or none is any more; nothing else changes.
pub proof fn law_toggle_message_known(s: StateView, target: Seq<char>)
    requires
        s.pane_map.contains_key(target),
    ensures
        s.active_pane == Some(target) ==> {
            &&& s.pipe_calls("toggle"@, Some(target)) == seq![
                HostCallView::HideFloatingPanes { tab_id: None },
            ]
            &&& s.piped("toggle"@, Some(target)) == (StateView { active_pane: None, ..s })
        },
        s.active_pane != Some(target) ==> {
            &&& s.pipe_calls("toggle"@, Some(target)) == seq![
                HostCallView::ShowPaneWithId {
                    pane_id: s.pane_map[target],
                    should_float_if_hidden: true,
                    should_focus_pane: true,
                },
            ]
            &&& s.piped("toggle"@, Some(target)) == (StateView { active_pane: Some(target), ..s })
        },
{
    assert(s.active_pane == Some(target) ==> s.pipe_calls("toggle"@, Some(target)) =~= seq![
        HostCallView::HideFloatingPanes { tab_id: None },
    ]);
    assert(s.active_pane != Some(target) ==> s.pipe_calls("toggle"@, Some(target)) =~= seq![
        HostCallView::ShowPaneWithId {
            pane_id: s.pane_map[target],
            should_float_if_hidden: true,
            should_focus_pane: true,
        },
    ]);
}

/// A `toggle` message for a pane that is not known yet is remembered, calls nothing, and changes
/// nothing else.
pub proof fn law_toggle_message_unknown(s: StateView, target: Seq<char>)
    requires
        !s.pane_map.contains_key(target),
    ensures
        s.pipe_calls("toggle"@, Some(target)).len() == 0,
        s.piped("toggle"@, Some(target)) == (StateView { pending_target: Some(target), ..s }),
{
}

/// A request has the same effect as the message that brings it.
pub proof fn law_request_by_message(s: StateView, target: Seq<char>)
    ensures
        s.requested(target) == s.piped("toggle"@, Some(target)),
{
}

// ---- a look at the open panes ----

/// A look at the open panes never makes a pane active: the active pane after it is the one
/// before, or none. It is none exactly if there was none, or if the active one was known and is
/// not among the open panes any more.
pub proof fn law_look_never_activates(s: StateView, panes: Seq<PaneView>)
    ensures
        s.rebuilt(panes).active_pane is None || s.rebuilt(panes).active_pane == s.active_pane,
        s.active_pane is None ==> s.rebuilt(panes).active_pane is None,
        forall|active: Seq<char>|
            s.active_pane == Some(active) && #[trigger] s.pane_map.contains_key(active) ==> (
            s.rebuilt(panes).active_pane is None <==> forall|i: int|
                0 <= i < panes.len() ==> (#[trigger] panes[i]).pane_id() != s.pane_map[active]),
        forall|active: Seq<char>|
            s.active_pane == Some(active) && !(#[trigger] s.pane_map.contains_key(active))
                ==> s.rebuilt(panes).active_pane == Some(active),
{
    assert forall|active: Seq<char>|
        s.active_pane == Some(active) && #[trigger] s.pane_map.contains_key(active) implies (
    s.rebuilt(panes).active_pane is None <==> forall|i: int|
        0 <= i < panes.len() ==> (#[trigger] panes[i]).pane_id() != s.pane_map[active]) by {
        law_open(panes, s.pane_map[active]);
    }
}

/// A look at the open panes changes only which panes are known and which one is active.
pub proof fn law_look_frame(s: StateView, panes: Seq<PaneView>)
    ensures
        s.rebuilt(panes).managed_panes == s.managed_panes,
        s.rebuilt(panes).pending_target == s.pending_target,
        s.rebuilt(panes).initialized == s.initialized,
        s.rebuilt(panes).own_tab_index == s.own_tab_index,
{
}

/// A known pane that is among the open ones stays known under its identity.
pub proof fn law_look_keeps_open(s: StateView, panes: Seq<PaneView>, name: Seq<char>, i: int)
    requires
        s.pane_map.contains_key(name),
        0 <= i < panes.len(),
        panes[i].pane_id() == s.pane_map[name],
    ensures
        s.rebuilt(panes).pane_map.contains_key(name),
        s.rebuilt(panes).pane_map[name] == s.pane_map[name],
{
    assert(is_open(panes, s.pane_map[name]));
}

/// A managed name whose pane is unknown or closed goes to the first pane with that title.
pub proof fn law_look_finds_first(s: StateView, panes: Seq<PaneView>, name: Seq<char>, i: int)
    requires
        s.managed_panes.contains(name),
        s.pane_map.contains_key(name) ==> forall|j: int|
            0 <= j < panes.len() ==> (#[trigger] panes[j]).pane_id() != s.pane_map[name],
        0 <= i < panes.len(),
        panes[i].title == name,
        forall|j: int| 0 <= j < i ==> (#[trigger] panes[j]).title != name,
    ensures
        s.rebuilt(panes).pane_map.contains_key(name),
        s.rebuilt(panes).pane_map[name] == panes[i].pane_id(),
{
    assert(is_first_titled(panes, name, i));
    crate::pane::lemma_first_titled(panes, name, i);
}

/// A name whose pane is unknown or closed has none afterwards, if it is not managed or no open
/// pane bears it as its title.
pub proof fn law_look_finds_nothing(s: StateView, panes: Seq<PaneView>, name: Seq<char>)
    requires
        s.pane_map.contains_key(name) ==> forall|j: int|
            0 <= j < panes.len() ==> (#[trigger] panes[j]).pane_id() != s.pane_map[name],
        !s.managed_panes.contains(name) || forall|j: int|
            0 <= j < panes.len() ==> (#[trigger] panes[j]).title != name,
    ensures
        !s.rebuilt(panes).pane_map.contains_key(name),
{
}

/// The identity of a pane is its kind and its number.
pub proof fn law_identity(pane: PaneView)
    ensures
        pane.is_plugin ==> pane.pane_id() == PaneId::Plugin(pane.id),
        !pane.is_plugin ==> pane.pane_id() == PaneId::Terminal(pane.id),
{
}

/// A pane is open exactly if one of the panes listed has its kind and number.
pub proof fn law_open(panes: Seq<PaneView>, id: PaneId)
    ensures
        is_open(panes, id) <==> exists|i: int|
            0 <= i < panes.len() && (match id {
                PaneId::Terminal(n) => !(#[trigger] panes[i]).is_plugin && panes[i].id == n,
                PaneId::Plugin(n) => panes[i].is_plugin && panes[i].id == n,
            }),
{
    if is_open(panes, id) {
        let i = choose|i: int| 0 <= i < panes.len() && (#[trigger] panes[i]).pane_id() == id;
        assert(panes[i].pane_id() == id);
    }
}

/// The first pane with a title is the one before which no other bears it; without a pane of that
/// title there is none.
pub proof fn law_first_titled(panes: Seq<PaneView>, name: Seq<char>)
    ensures
        is_titled(panes, name) <==> exists|i: int|
            0 <= i < panes.len() && (#[trigger] panes[i]).title == name,
        first_titled(panes, name) is Some <==> exists|i: int|
            0 <= i < panes.len() && (#[trigger] panes[i]).title == name,
        forall|i: int|
            0 <= i < panes.len() && (#[trigger] panes[i]).title == name && (forall|j: int|
                0 <= j < i ==> (#[trigger] panes[j]).title != name) ==> first_titled(panes, name)
                == Some(panes[i].pane_id()),
{
    assert forall|i: int|
        0 <= i < panes.len() && (#[trigger] panes[i]).title == name && (forall|j: int|
            0 <= j < i ==> (#[trigger] panes[j]).title != name) implies first_titled(panes, name)
        == Some(panes[i].pane_id()) by {
        assert(is_first_titled(panes, name, i));
        crate::pane::lemma_first_titled(panes, name, i);
    }
}

// ---- tabs ----

/// Once the own tab is known, the panes looked at are those of that tab, all of them, in order;
/// none, if the tab is gone.
pub proof fn law_scope_own_tab(
    manifest: Map<usize, Seq<PaneView>>,
    tab: usize,
    panes: Seq<PaneView>,
)
    requires
        in_scope(manifest, Some(tab), panes),
    ensures
        manifest.contains_key(tab) ==> panes == manifest[tab],
        !manifest.contains_key(tab) ==> panes.len() == 0,
{
}

/// A tab that is walked stands in the walk in one piece.
proof fn lemma_joined_whole(manifest: Map<usize, Seq<PaneView>>, order: Seq<usize>, k: int) -> (
    start: int)
    requires
        0 <= k < order.len(),
    ensures
        0 <= start,
        start + manifest[order[k]].len() <= joined(manifest, order).len(),
        joined(manifest, order).subrange(start, start + manifest[order[k]].len())
            == manifest[order[k]],
    decreases order.len(),
{
    let rest = order.drop_last();
    let head = joined(manifest, rest);
    let all = joined(manifest, order);
    if k == order.len() - 1 {
        let start = head.len() as int;
        assert(all.subrange(start, start + manifest[order[k]].len()) =~= manifest[order[k]]);
        start
    } else {
        let start = lemma_joined_whole(manifest, rest, k);
        assert(rest[k] == order[k]);
        let end = start + manifest[order[k]].len();
        assert(all.subrange(start, end) =~= head.subrange(start, end));
        start
    }
}

/// Each pane of a walk stands in some tab that is walked, behind the panes before it in that tab.
proof fn lemma_joined_origin(
    manifest: Map<usize, Seq<PaneView>>,
    order: Seq<usize>,
    i: int,
) -> (origin: (usize, int))
    requires
        0 <= i < joined(manifest, order).len(),
    ensures
        order.contains(origin.0),
        0 <= origin.1 <= i,
        origin.1 < manifest[origin.0].len(),
        forall|j: int|
            0 <= j <= origin.1 ==> #[trigger] manifest[origin.0][j] == joined(manifest, order)[i
                - origin.1 + j],
    decreases order.len(),
{
    let rest = order.drop_last();
    let head = joined(manifest, rest);
    if i < head.len() {
        let origin = lemma_joined_origin(manifest, rest, i);
        assert(order[rest.index_of(origin.0)] == origin.0);
        origin
    } else {
        assert(order[order.len() - 1] == order.last());
        (order.last(), i - head.len())
    }
}

/// As long as the own tab is not known, the panes of every tab are looked at, each tab in one
/// piece and in its own order.
pub proof fn law_scope_all_tabs(
    manifest: Map<usize, Seq<PaneView>>,
    panes: Seq<PaneView>,
    tab: usize,
) -> (start: int)
    requires
        in_scope(manifest, None, panes),
        manifest.contains_key(tab),
    ensures
        0 <= start,
        start + manifest[tab].len() <= panes.len(),
        panes.subrange(start, start + manifest[tab].len()) == manifest[tab],
{
    let order = choose|order: Seq<usize>| #[trigger]
        lists_tabs(manifest, order) && panes == joined(manifest, order);
    assert(order.contains(tab));
    lemma_joined_whole(manifest, order, order.index_of(tab))
}

/// As long as the own tab is not known, the first pane with a title is the first one with that
/// title in some tab.
pub proof fn law_scope_first_in_tab(
    manifest: Map<usize, Seq<PaneView>>,
    panes: Seq<PaneView>,
    name: Seq<char>,
) -> (origin: (usize, int))
    requires
        in_scope(manifest, None, panes),
        exists|i: int| 0 <= i < panes.len() && (#[trigger] panes[i]).title == name,
    ensures
        manifest.contains_key(origin.0),
        0 <= origin.1 < manifest[origin.0].len(),
        manifest[origin.0][origin.1].title == name,
        forall|j: int| 0 <= j < origin.1 ==> (#[trigger] manifest[origin.0][j]).title != name,
        first_titled(panes, name) == Some(manifest[origin.0][origin.1].pane_id()),
{
    let order = choose|order: Seq<usize>| #[trigger]
        lists_tabs(manifest, order) && panes == joined(manifest, order);
    let i = lemma_first_titled_exists(panes, name);
    let origin = lemma_joined_origin(manifest, order, i);
    assert(manifest[origin.0][origin.1] == panes[i]);
    assert forall|j: int| 0 <= j < origin.1 implies (#[trigger] manifest[origin.0][j]).title
        != name by {
        assert(manifest[origin.0][j] == panes[i - origin.1 + j]);
    }
    origin
}

/// The plugin takes itself to live in a tab that lists a plugin pane with its number. If no tab
/// does, what was known before stands.
pub proof fn law_own_tab(
    manifest: Map<usize, Seq<PaneView>>,
    plugin_id: u32,
    before: Option<usize>,
    after: Option<usize>,
)
    requires
        is_own_tab(manifest, plugin_id, before, after),
    ensures
        after == before || after is Some,
        (forall|tab: usize, i: int|
            manifest.contains_key(tab) && 0 <= i < manifest[tab].len() ==> !((
            #[trigger] manifest[tab][i]).is_plugin && manifest[tab][i].id == plugin_id)) ==> after
            == before,
        (exists|tab: usize, i: int|
            manifest.contains_key(tab) && 0 <= i < manifest[tab].len() && (
            #[trigger] manifest[tab][i]).is_plugin && manifest[tab][i].id == plugin_id) ==> {
            &&& after is Some
            &&& manifest.contains_key(after->0)
            &&& exists|i: int|
                0 <= i < manifest[after->0].len() && (#[trigger] manifest[after->0][i]).is_plugin
                    && manifest[after->0][i].id == plugin_id
        },
{
    let id = PaneId::Plugin(plugin_id);
    assert forall|tab: usize| #[trigger] manifest.contains_key(tab) implies (is_open(
        manifest[tab],
        id,
    ) <==> exists|i: int|
        0 <= i < manifest[tab].len() && (#[trigger] manifest[tab][i]).is_plugin
            && manifest[tab][i].id == plugin_id) by {
        law_open(manifest[tab], id);
    }
    if exists|tab: usize, i: int|
        manifest.contains_key(tab) && 0 <= i < manifest[tab].len() && (
        #[trigger] manifest[tab][i]).is_plugin && manifest[tab][i].id == plugin_id {
        let (tab, i) = choose|tab: usize, i: int|
            manifest.contains_key(tab) && 0 <= i < manifest[tab].len() && (
            #[trigger] manifest[tab][i]).is_plugin && manifest[tab][i].id == plugin_id;
        assert(manifest.contains_key(tab) && is_open(manifest[tab], id));
        law_open(manifest[after->0], id);
    }
}

// ---- pane updates and waiting toggles ----

/// A pane update without a waiting toggle makes no host call. It has the effect of a look at the
/// panes, and takes note of the tab; above all, it makes no pane active.
pub proof fn law_update_without_pending(
    s: StateView,
    own_tab: Option<usize>,
    panes: Seq<PaneView>,
)
    requires
        s.pending_target is None,
    ensures
        s.update_calls(own_tab, panes).len() == 0,
        s.updated(own_tab, panes) == (StateView { own_tab_index: own_tab, ..s.rebuilt(panes) }),
        s.updated(own_tab, panes).active_pane is None || s.updated(own_tab, panes).active_pane
            == s.active_pane,
        s.updated(own_tab, panes).pending_target is None,
{
    law_look_never_activates(s, panes);
}

/// A pane update that does not find the pane of the waiting toggle makes no host call either,
/// and leaves the toggle waiting.
pub proof fn law_update_with_pending_unfound(
    s: StateView,
    own_tab: Option<usize>,
    panes: Seq<PaneView>,
    target: Seq<char>,
)
    requires
        s.pending_target == Some(target),
        !s.rebuilt(panes).pane_map.contains_key(target),
    ensures
        s.update_calls(own_tab, panes).len() == 0,
        s.updated(own_tab, panes) == (StateView { own_tab_index: own_tab, ..s.rebuilt(panes) }),
        s.updated(own_tab, panes).pending_target == Some(target),
{
}

/// A pane update that finds the pane of the waiting toggle carries the toggle out, as a press
/// for the pane after a look at the panes would be, and waits no longer.
pub proof fn law_update_with_pending_found(
    s: StateView,
    own_tab: Option<usize>,
    panes: Seq<PaneView>,
    target: Seq<char>,
)
    requires
        s.pending_target == Some(target),
        s.rebuilt(panes).pane_map.contains_key(target),
    ensures
        s.rebuilt(panes).active_pane == Some(target) ==> {
            &&& s.update_calls(own_tab, panes) == seq![
                HostCallView::HideFloatingPanes { tab_id: None },
            ]
            &&& s.updated(own_tab, panes) == (StateView {
                own_tab_index: own_tab,
                pending_target: None,
                active_pane: None,
                ..s.rebuilt(panes)
            })
        },
        s.rebuilt(panes).active_pane != Some(target) ==> {
            &&& s.update_calls(own_tab, panes) == seq![
                HostCallView::ShowPaneWithId {
                    pane_id: s.rebuilt(panes).pane_map[target],
                    should_float_if_hidden: true,
                    should_focus_pane: true,
                },
            ]
            &&& s.updated(own_tab, panes) == (StateView {
                own_tab_index: own_tab,
                pending_target: None,
                active_pane: Some(target),
                ..s.rebuilt(panes)
            })
        },
{
    let seen = s.rebuilt(panes);
    assert(seen.active_pane == Some(target) ==> s.update_calls(own_tab, panes) =~= seq![
        HostCallView::HideFloatingPanes { tab_id: None },
    ]);
    assert(seen.active_pane != Some(target) ==> s.update_calls(own_tab, panes) =~= seq![
        HostCallView::ShowPaneWithId {
            pane_id: seen.pane_map[target],
            should_float_if_hidden: true,
            should_focus_pane: true,
        },
    ]);
}

/// Trying a waiting toggle again does nothing unless there is one and its pane is known; then it
/// toggles that pane and waits no longer.
pub proof fn law_retry(s: StateView)
    ensures
        s.pending_target is None ==> s.retried() == s && s.retry_calls().len() == 0,
        forall|target: Seq<char>|
            s.pending_target == Some(target) && !(#[trigger] s.pane_map.contains_key(target))
                ==> s.retried() == s && s.retry_calls().len() == 0,
        forall|target: Seq<char>|
            s.pending_target == Some(target) && #[trigger] s.pane_map.contains_key(target)
                && s.active_pane == Some(target) ==> {
                &&& s.retried() == (StateView { pending_target: None, active_pane: None, ..s })
                &&& s.retry_calls() == seq![HostCallView::HideFloatingPanes { tab_id: None }]
            },
        forall|target: Seq<char>|
            s.pending_target == Some(target) && #[trigger] s.pane_map.contains_key(target)
                && s.active_pane != Some(target) ==> {
                &&& s.retried() == (StateView {
                    pending_target: None,
                    active_pane: Some(target),
                    ..s
                })
                &&& s.retry_calls() == seq![
                    HostCallView::ShowPaneWithId {
                        pane_id: s.pane_map[target],
                        should_float_if_hidden: true,
                        should_focus_pane: true,
                    },
                ]
            },
{
    if s.pending_target is Some && s.pane_map.contains_key(s.pending_target->0) {
        let target = s.pending_target->0;
        if s.active_pane == Some(target) {
            assert(s.retry_calls() =~= seq![HostCallView::HideFloatingPanes { tab_id: None }]);
        } else {
            assert(s.retry_calls() =~= seq![
                HostCallView::ShowPaneWithId {
                    pane_id: s.pane_map[target],
                    should_float_if_hidden: true,
                    should_focus_pane: true,
                },
            ]);
        }
    }
}

// ---- configuration ----

/// Reading a configuration changes neither the waiting toggle nor the own tab. The setup counts
/// as done after it.
pub proof fn law_load_frame(s: StateView, config: Map<Seq<char>, Seq<char>>)
    ensures
        s.loaded(config).pending_target == s.pending_target,
        s.loaded(config).own_tab_index == s.own_tab_index,
        s.loaded(config).initialized,
{
}

/// Reading a configuration takes over its list of panes. It makes no pane known or active: what
/// was known or active before stays so exactly if it is listed.
pub proof fn law_load_prunes(
    s: StateView,
    config: Map<Seq<char>, Seq<char>>,
    names: Seq<Seq<char>>,
    name: Seq<char>,
)
    requires
        lists_panes(config, names),
    ensures
        s.loaded(config).managed_panes == names,
        s.loaded(config).pane_map.contains_key(name) <==> s.pane_map.contains_key(name) && exists|
            i: int,
        |
            0 <= i < names.len() && #[trigger] names[i] == name,
        s.loaded(config).pane_map.contains_key(name) ==> s.loaded(config).pane_map[name]
            == s.pane_map[name],
        s.loaded(config).active_pane == Some(name) <==> s.active_pane == Some(name) && exists|
            i: int,
        |
            0 <= i < names.len() && #[trigger] names[i] == name,
{
    crate::config::lemma_listed_panes_unique(config, names);
}

/// A toggle that waits while a configuration is read is carried out once its pane is found.
pub proof fn law_reload_keeps_press(
    s: StateView,
    config: Map<Seq<char>, Seq<char>>,
    own_tab: Option<usize>,
    panes: Seq<PaneView>,
    target: Seq<char>,
)
    requires
        s.consistent(),
        !s.pane_map.contains_key(target),
        s.loaded(config).rebuilt(panes).pane_map.contains_key(target),
    ensures
        s.piped("toggle"@, Some(target)).loaded(config).updated(own_tab, panes).active_pane == Some(
            target,
        ),
        s.piped("toggle"@, Some(target)).loaded(config).update_calls(own_tab, panes) == seq![
            HostCallView::ShowPaneWithId {
                pane_id: s.loaded(config).rebuilt(panes).pane_map[target],
                should_float_if_hidden: true,
                should_focus_pane: true,
            },
        ],
{
    let waiting = s.piped("toggle"@, Some(target)).loaded(config);
    assert(waiting.rebuilt(panes).pane_map == s.loaded(config).rebuilt(panes).pane_map);
    assert(waiting.rebuilt(panes).active_pane != Some(target));
    law_update_with_pending_found(waiting, own_tab, panes, target);
}

/// The first configuration leads to two calls: a request for the permissions to read and to
/// change the application state, and a subscription to the answer. Later ones lead to none.
pub proof fn law_setup_calls(s: StateView)
    ensures
        !s.initialized ==> s.load_calls() == seq![
            HostCallView::RequestPermission(
                seq![
                    PermissionType::ReadApplicationState,
                    PermissionType::ChangeApplicationState,
                ],
            ),
            HostCallView::Subscribe(seq![EventType::PermissionRequestResult]),
        ],
        s.initialized ==> s.load_calls().len() == 0,
{
}

/// Before anything has happened nothing is known, managed, active or waited for.
pub proof fn law_start()
    ensures
        forall|name: Seq<char>| !(#[trigger] StateView::initial().pane_map.contains_key(name)),
        StateView::initial().managed_panes.len() == 0,
        StateView::initial().active_pane is None,
        StateView::initial().pending_target is None,
        !StateView::initial().initialized,
        StateView::initial().own_tab_index is None,
{
}

/// In decimal notation a number below ten is its digit, and to append a digit to a number other
/// than zero is to multiply by ten and add it.
pub proof fn law_decimal(n: nat, d: nat)
    requires
        d < 10,
    ensures
        decimal(d) == seq![(('0' as int) + d) as char],
        n > 0 ==> decimal(10 * n + d) == decimal(n).push((('0' as int) + d) as char),
{
    assert((10 * n + d) / 10 == n && (10 * n + d) % 10 == d);
}

/// The key of a managed pane is its number in decimal notation, between `pane_` and `_name`.
pub proof fn law_pane_key(i: nat)
    ensures
        pane_key(i) == "pane_"@ + decimal(i) + "_name"@,
        pane_key(i).len() == decimal(i).len() + 10,
{
    reveal_strlit("pane_");
    reveal_strlit("_name");
}

/// The list of managed panes is made of the values of the keys with the numbers from zero on,
/// and ends exactly at the first number whose key is missing.
pub proof fn law_pane_list(config: Map<Seq<char>, Seq<char>>, names: Seq<Seq<char>>)
    ensures
        lists_panes(config, names) <==> {
            &&& forall|i: nat|
                i < names.len() ==> config.contains_key("pane_"@ + #[trigger] decimal(i) + "_name"@)
                    && config["pane_"@ + decimal(i) + "_name"@] == names[i as int]
            &&& !config.contains_key("pane_"@ + decimal(names.len()) + "_name"@)
        },
        lists_panes(config, names) ==> listed_panes(config) == names,
{
    assert forall|i: nat| #[trigger] pane_key(i) == "pane_"@ + decimal(i) + "_name"@ by {}
    if forall|i: nat|
        i < names.len() ==> config.contains_key("pane_"@ + #[trigger] decimal(i) + "_name"@)
            && config["pane_"@ + decimal(i) + "_name"@] == names[i as int] {
        assert forall|i: nat| i < names.len() implies config.contains_key(#[trigger] pane_key(i))
            && config[pane_key(i)] == names[i as int] by {
            assert(decimal(i) == decimal(i));
        }
    }
    if lists_panes(config, names) {
        assert forall|i: nat| i < names.len() implies config.contains_key(
            "pane_"@ + #[trigger] decimal(i) + "_name"@,
        ) && config["pane_"@ + decimal(i) + "_name"@] == names[i as int] by {
            assert(config.contains_key(pane_key(i)));
        }
        crate::config::lemma_listed_panes_unique(config, names);
    }
}

} // verus!
