//! The plugin's state machine.

use crate::config::{config_texts, lists_panes, read_managed_panes, texts};
use crate::host::{
    call_views, calls_for, host_calls, Event, EventType, HostCall, HostCallView, PaneAction,
    PermissionStatus, PermissionType, PipeMessage, Reaction,
};
use crate::laws::{law_loaded_consistent, law_piped_consistent, law_updated_consistent};
use crate::model::{refreshed, StateView};
use crate::names::NameMap;
use crate::pane::{
    contains_pane, find_titled, first_titled, in_scope, is_open, is_own_tab, pane_views, PaneId,
    PaneInfo, PaneManifest, PaneView,
};
use vstd::prelude::*;

verus! {

/// The state of the plugin.
///
/// Each managed pane toggles on successive keybind presses: a press shows the pane, the next one
/// hides it. At most one managed pane counts as shown. A press for another pane brings that pane
/// to the top of the floating layer, without hiding the one before it.
#[derive(Debug)]
pub struct State {
    /// The panes found so far, by name.
    pub pane_map: NameMap<PaneId>,
    /// The names of the managed panes, in the order of the configuration.
    pub managed_panes: Vec<String>,
    /// The pane that was shown last; `None` if the floating layer is hidden.
    pub active_pane: Option<String>,
    /// A pane that was asked for before it was found. It is tried again on each pane update.
    pub pending_target: Option<String>,
    /// Whether the one-time setup has been done.
    pub initialized: bool,
    /// The position of the tab in which the plugin lives, once it is known.
    pub own_tab_index: Option<usize>,
}

/// An optional string as a sequence of characters.
pub open spec fn opt_text(text: Option<String>) -> Option<Seq<char>> {
    match text {
        Some(s) => Some(s@),
        None => None,
    }
}

impl View for State {
    type V = StateView;

    open spec fn view(&self) -> StateView {
        StateView {
            pane_map: self.pane_map@,
            managed_panes: texts(self.managed_panes@),
            active_pane: opt_text(self.active_pane),
            pending_target: opt_text(self.pending_target),
            initialized: self.initialized,
            own_tab_index: self.own_tab_index,
        }
    }
}

impl Default for State {
    fn default() -> (state: Self)
        ensures
            state@ == StateView::initial(),
            state@.consistent(),
    {
        let state = State {
            pane_map: NameMap::new(),
            managed_panes: Vec::new(),
            active_pane: None,
            pending_target: None,
            initialized: false,
            own_tab_index: None,
        };
        assert(state@ =~= StateView::initial());
        state
    }
}

/// Whether `name` is one of `names`.
fn contains_name(names: &Vec<String>, name: &String) -> (found: bool)
    ensures
        found == texts(names@).contains(name@),
{
    let mut i: usize = 0;
    while i < names.len()
        invariant
            i <= names@.len(),
            forall|j: int| 0 <= j < i ==> (#[trigger] texts(names@)[j]) != name@,
        decreases names@.len() - i,
    {
        assert(texts(names@)[i as int] == names@[i as int]@);
        if names[i] == *name {
            return true;
        }
        i += 1;
    }
    false
}

/// Forgets the panes whose names are not in `keep`.
fn prune(pane_map: &mut NameMap<PaneId>, keep: &Vec<String>)
    ensures
        final(pane_map)@ == old(pane_map)@.restrict(texts(keep@).to_set()),
{
    let names = pane_map.names();
    let ghost before = pane_map@;
    let mut i: usize = 0;
    while i < names.len()
        invariant
            i <= names@.len(),
            forall|name: Seq<char>| #[trigger]
                pane_map@.contains_key(name) <==> before.contains_key(name) && (texts(
                    keep@,
                ).contains(name) || forall|j: int|
                    0 <= j < i ==> (#[trigger] names@[j])@ != name),
            forall|name: Seq<char>| #[trigger]
                pane_map@.contains_key(name) ==> pane_map@[name] == before[name],
        decreases names@.len() - i,
    {
        if !contains_name(keep, &names[i]) {
            pane_map.remove(names[i].as_str());
        }
        i += 1;
    }
    assert(pane_map@ =~= before.restrict(texts(keep@).to_set()));
}

/// Forgets the panes that are not among `panes`, and returns the names that they had.
fn evict_closed(pane_map: &mut NameMap<PaneId>, panes: &Vec<PaneInfo>) -> (evicted: Vec<String>)
    ensures
        forall|name: Seq<char>| #[trigger]
            final(pane_map)@.contains_key(name) <==> old(pane_map)@.contains_key(name) && is_open(
                pane_views(panes@),
                old(pane_map)@[name],
            ),
        forall|name: Seq<char>| #[trigger]
            final(pane_map)@.contains_key(name) ==> final(pane_map)@[name] == old(pane_map)@[name],
        forall|name: Seq<char>| #[trigger]
            texts(evicted@).contains(name) <==> old(pane_map)@.contains_key(name) && !is_open(
                pane_views(panes@),
                old(pane_map)@[name],
            ),
{
    let names = pane_map.names();
    let ghost before = pane_map@;
    let ghost views = pane_views(panes@);
    let mut evicted: Vec<String> = Vec::new();
    let mut i: usize = 0;
    while i < names.len()
        invariant
            i <= names@.len(),
            views == pane_views(panes@),
            forall|j: int| 0 <= j < names@.len() ==> before.contains_key((#[trigger] names@[j])@),
            forall|j: int, k: int|
                0 <= j < k < names@.len() ==> (#[trigger] names@[j])@ != (#[trigger] names@[k])@,
            forall|name: Seq<char>| #[trigger]
                pane_map@.contains_key(name) <==> before.contains_key(name) && (is_open(
                    views,
                    before[name],
                ) || forall|j: int| 0 <= j < i ==> (#[trigger] names@[j])@ != name),
            forall|name: Seq<char>| #[trigger]
                pane_map@.contains_key(name) ==> pane_map@[name] == before[name],
            forall|name: Seq<char>| #[trigger]
                texts(evicted@).contains(name) <==> before.contains_key(name) && !is_open(
                    views,
                    before[name],
                ) && exists|j: int| 0 <= j < i && (#[trigger] names@[j])@ == name,
        decreases names@.len() - i,
    {
        let ghost evicted_before = texts(evicted@);
        let ghost name = names@[i as int]@;
        assert(pane_map@.contains_key(name));
        if let Some(id) = pane_map.get(names[i].as_str()) {
            let id: PaneId = *id;
            if !contains_pane(panes, id) {
                pane_map.remove(names[i].as_str());
                evicted.push(names[i].clone());
                proof {
                    assert(texts(evicted@) =~= evicted_before.push(name));
                    assert forall|n: Seq<char>| #[trigger] texts(evicted@).contains(n) <==> (n
                        == name || evicted_before.contains(n)) by {
                        assert(evicted_before.push(name)[evicted_before.len() as int] == name);
                        if evicted_before.contains(n) {
                            let k = evicted_before.index_of(n);
                            assert(evicted_before.push(name)[k] == n);
                        }
                    }
                }
            }
        }
        i += 1;
    }
    evicted
}

/// Adds the panes that bear the name of a managed pane for which none is known.
fn discover(pane_map: &mut NameMap<PaneId>, managed: &Vec<String>, panes: &Vec<PaneInfo>)
    ensures
        forall|name: Seq<char>| #[trigger]
            final(pane_map)@.contains_key(name) <==> old(pane_map)@.contains_key(name) || texts(
                managed@,
            ).contains(name) && first_titled(pane_views(panes@), name) is Some,
        forall|name: Seq<char>| #[trigger]
            final(pane_map)@.contains_key(name) ==> final(pane_map)@[name] == if old(
                pane_map,
            )@.contains_key(name) {
                old(pane_map)@[name]
            } else {
                first_titled(pane_views(panes@), name)->0
            },
{
    let ghost before = pane_map@;
    let ghost views = pane_views(panes@);
    let mut i: usize = 0;
    while i < managed.len()
        invariant
            i <= managed@.len(),
            views == pane_views(panes@),
            forall|name: Seq<char>| #[trigger]
                pane_map@.contains_key(name) <==> before.contains_key(name) || (
                first_titled(views, name) is Some && exists|j: int|
                    0 <= j < i && (#[trigger] managed@[j])@ == name),
            forall|name: Seq<char>| #[trigger]
                pane_map@.contains_key(name) ==> pane_map@[name] == if before.contains_key(name) {
                    before[name]
                } else {
                    first_titled(views, name)->0
                },
        decreases managed@.len() - i,
    {
        if !pane_map.contains_key(managed[i].as_str()) {
            if let Some(id) = find_titled(panes, &managed[i]) {
                pane_map.insert(managed[i].clone(), id);
            }
        }
        i += 1;
    }
    assert forall|name: Seq<char>| #[trigger] texts(managed@).contains(name) <==> exists|j: int|
        0 <= j < managed@.len() && (#[trigger] managed@[j])@ == name by {
        if texts(managed@).contains(name) {
            let k = texts(managed@).index_of(name);
            assert(managed@[k]@ == name);
        }
        if exists|j: int| 0 <= j < managed@.len() && (#[trigger] managed@[j])@ == name {
            let k = choose|j: int| 0 <= j < managed@.len() && (#[trigger] managed@[j])@ == name;
            assert(texts(managed@)[k] == name);
        }
    }
}

impl State {
    /// Takes note of the configuration, and forgets panes that it no longer lists.
    ///
    /// The first time, the calls ask for the plugin's permissions and for the answer to that.
    pub fn load(&mut self, configuration: NameMap<String>) -> (calls: Vec<HostCall>)
        ensures
            lists_panes(config_texts(configuration@), final(self)@.managed_panes),
            final(self)@ == old(self)@.loaded(config_texts(configuration@)),
            call_views(calls@) == old(self)@.load_calls(),
            final(self)@.pending_target == old(self)@.pending_target,
            final(self).own_tab_index == old(self).own_tab_index,
            final(self).initialized,
            old(self).initialized ==> calls@.len() == 0,
            !old(self).initialized ==> calls@.len() == 2 && match (calls@[0], calls@[1]) {
                (HostCall::RequestPermission(permissions), HostCall::Subscribe(events)) => {
                    &&& permissions@ == seq![
                        PermissionType::ReadApplicationState,
                        PermissionType::ChangeApplicationState,
                    ]
                    &&& events@ == seq![EventType::PermissionRequestResult]
                },
                _ => false,
            },
            old(self)@.consistent() ==> final(self)@.consistent(),
    {
        self.managed_panes = read_managed_panes(&configuration);
        prune(&mut self.pane_map, &self.managed_panes);
        let dropped = match &self.active_pane {
            Some(active) => !contains_name(&self.managed_panes, active),
            None => false,
        };
        if dropped {
            self.active_pane = None;
        }
        let mut calls: Vec<HostCall> = Vec::new();
        if !self.initialized {
            self.initialized = true;
            let permissions: Vec<PermissionType> = vec![
                PermissionType::ReadApplicationState,
                PermissionType::ChangeApplicationState,
            ];
            assert(permissions@ =~= seq![
                PermissionType::ReadApplicationState,
                PermissionType::ChangeApplicationState,
            ]);
            let events: Vec<EventType> = vec![EventType::PermissionRequestResult];
            assert(events@ =~= seq![EventType::PermissionRequestResult]);
            calls.push(HostCall::RequestPermission(permissions));
            calls.push(HostCall::Subscribe(events));
        }
        proof {
            assert(call_views(calls@) =~= old(self)@.load_calls());
            assert(self@ =~= old(self)@.loaded(config_texts(configuration@)));
            if old(self)@.consistent() {
                law_loaded_consistent(old(self)@, config_texts(configuration@));
            }
        }
        calls
    }

    /// Reacts to an event. The plugin has nothing to draw.
    ///
    /// Once permissions are granted it subscribes to pane updates. On a pane update it locates
    /// its own tab, refreshes the panes it knows of, and tries a waiting toggle again.
    pub fn update(&mut self, event: Event) -> (reaction: Reaction)
        ensures
            !reaction.render,
            match event {
                Event::PermissionRequestResult(PermissionStatus::Granted) => {
                    &&& final(self)@ == old(self)@
                    &&& call_views(reaction.calls@) == seq![
                        HostCallView::Subscribe(seq![EventType::PaneUpdate]),
                    ]
                },
                Event::PaneUpdate { manifest, plugin_id } => exists|
                    own_tab: Option<usize>,
                    panes: Seq<PaneView>,
                |
                    {
                        &&& is_own_tab(manifest@, plugin_id, old(self)@.own_tab_index, own_tab)
                        &&& #[trigger] in_scope(manifest@, own_tab, panes)
                        &&& final(self)@ == old(self)@.updated(own_tab, panes)
                        &&& call_views(reaction.calls@) == old(self)@.update_calls(own_tab, panes)
                    },
                _ => final(self)@ == old(self)@ && reaction.calls@.len() == 0,
            },
            event is PaneUpdate && old(self).pending_target is None ==> {
                &&& reaction.calls@.len() == 0
                &&& final(self).pending_target is None
                &&& final(self)@.active_pane is None || final(self)@.active_pane == old(
                    self,
                )@.active_pane
            },
            event is PaneUpdate ==> {
                &&& final(self)@.managed_panes == old(self)@.managed_panes
                &&& final(self).initialized == old(self).initialized
                &&& old(self).own_tab_index is Some ==> final(self).own_tab_index is Some
                &&& reaction.calls@.len() <= 1
            },
            old(self)@.consistent() ==> final(self)@.consistent(),
    {
        let mut calls: Vec<HostCall> = Vec::new();
        match event {
            Event::PermissionRequestResult(PermissionStatus::Granted) => {
                let events: Vec<EventType> = vec![EventType::PaneUpdate];
                assert(events@ =~= seq![EventType::PaneUpdate]);
                calls.push(HostCall::Subscribe(events));
                assert(call_views(calls@) =~= seq![
                    HostCallView::Subscribe(seq![EventType::PaneUpdate]),
                ]);
            },
            Event::PaneUpdate { manifest, plugin_id } => {
                self.locate_own_tab(&manifest, plugin_id);
                let ghost located = self@;
                self.rebuild_pane_map(manifest);
                proof {
                    let own_tab = located.own_tab_index;
                    let panes = choose|panes: Seq<PaneView>| #[trigger]
                        in_scope(manifest@, own_tab, panes) && self@ == located.rebuilt(panes);
                    assert(in_scope(manifest@, own_tab, panes));
                    if old(self)@.consistent() {
                        law_updated_consistent(old(self)@, own_tab, panes);
                    }
                }
                calls = self.retry_pending();
            },
            _ => {},
        }
        Reaction { render: false, calls }
    }

    /// Reacts to a message. The plugin has nothing to draw.
    ///
    /// A message named `toggle` asks for the pane that its payload names. If that pane has not
    /// been found yet, the toggle waits until it is; a later request takes its place.
    pub fn pipe(&mut self, pipe_message: PipeMessage) -> (reaction: Reaction)
        ensures
            !reaction.render,
            final(self)@ == old(self)@.piped(pipe_message.name@, opt_text(pipe_message.payload)),
            call_views(reaction.calls@) == old(self)@.pipe_calls(
                pipe_message.name@,
                opt_text(pipe_message.payload),
            ),
            pipe_message.name@ != "toggle"@ || pipe_message.payload is None ==> final(self)@ == old(
                self,
            )@ && reaction.calls@.len() == 0,
            pipe_message.name@ == "toggle"@ && pipe_message.payload is Some ==> {
                let target = pipe_message.payload->0@;
                let found = old(self).pane_map@.contains_key(target);
                let was_active = old(self).active_pane is Some && old(self).active_pane->0@
                    == target;
                &&& !found ==> reaction.calls@.len() == 0
                &&& !found ==> final(self)@ == (StateView {
                    pending_target: Some(target),
                    ..old(self)@
                })
                &&& found && was_active ==> reaction.calls@ == seq![
                    HostCall::HideFloatingPanes { tab_id: None },
                ]
                &&& found && was_active ==> final(self)@ == (StateView {
                    active_pane: None,
                    ..old(self)@
                })
                &&& found && !was_active ==> reaction.calls@ == seq![
                    HostCall::ShowPaneWithId {
                        pane_id: old(self).pane_map@[target],
                        should_float_if_hidden: true,
                        should_focus_pane: true,
                    },
                ]
                &&& found && !was_active ==> final(self)@ == (StateView {
                    active_pane: Some(target),
                    ..old(self)@
                })
            },
            old(self)@.consistent() ==> final(self)@.consistent(),
    {
        proof {
            if self@.consistent() {
                law_piped_consistent(self@, pipe_message.name@, opt_text(pipe_message.payload));
            }
        }
        let mut calls: Vec<HostCall> = Vec::new();
        assert(call_views(calls@) =~= Seq::empty());
        if pipe_message.name == "toggle".to_owned() {
            if let Some(target) = pipe_message.payload {
                if self.pane_map.contains_key(target.as_str()) {
                    calls = self.process_target(target.as_str());
                } else {
                    self.pending_target = Some(target);
                    assert(call_views(calls@) =~= calls_for(Seq::empty()));
                }
            }
        }
        Reaction { render: false, calls }
    }

    /// Takes note of the tab that holds the plugin pane `plugin_id`. If no tab does, what was
    /// known before stands.
    pub fn locate_own_tab(&mut self, manifest: &PaneManifest, plugin_id: u32)
        ensures
            is_own_tab(
                manifest@,
                plugin_id,
                old(self)@.own_tab_index,
                final(self)@.own_tab_index,
            ),
            final(self)@ == (StateView {
                own_tab_index: final(self)@.own_tab_index,
                ..old(self)@
            }),
    {
        if let Some(tab) = manifest.find_plugin(plugin_id) {
            self.own_tab_index = Some(tab);
        }
    }

    /// Refreshes the known panes from a manifest.
    ///
    /// Only the panes of the plugin's own tab count, so that a pane of another tab is not
    /// adopted for its title. As long as the own tab is not known, the panes of all tabs do.
    pub fn rebuild_pane_map(&mut self, manifest: PaneManifest)
        ensures
            exists|panes: Seq<PaneView>| #[trigger]
                in_scope(manifest@, old(self)@.own_tab_index, panes) && final(self)@ == old(
                    self,
                )@.rebuilt(panes),
            final(self)@.active_pane is None || final(self)@.active_pane == old(self)@.active_pane,
            final(self)@.managed_panes == old(self)@.managed_panes,
            final(self)@.pending_target == old(self)@.pending_target,
            final(self).initialized == old(self).initialized,
            final(self).own_tab_index == old(self).own_tab_index,
    {
        let panes = manifest.panes_in_scope(self.own_tab_index);
        self.adopt_panes(&panes);
    }

    /// Refreshes the known panes from the list of those that are open.
    ///
    /// Panes that have been closed are forgotten, and if the active pane is one of them, none is
    /// active any more. A managed name without a pane takes the first pane with that title. From
    /// then on the pane is known by its identity, whatever its title becomes.
    pub fn adopt_panes(&mut self, panes: &Vec<PaneInfo>)
        ensures
            final(self)@ == old(self)@.rebuilt(pane_views(panes@)),
            final(self)@.active_pane is None || final(self)@.active_pane == old(self)@.active_pane,
            final(self)@.managed_panes == old(self)@.managed_panes,
            final(self)@.pending_target == old(self)@.pending_target,
            final(self).initialized == old(self).initialized,
            final(self).own_tab_index == old(self).own_tab_index,
    {
        let evicted = evict_closed(&mut self.pane_map, panes);
        let closed = match &self.active_pane {
            Some(active) => contains_name(&evicted, active),
            None => false,
        };
        if closed {
            self.active_pane = None;
        }
        discover(&mut self.pane_map, &self.managed_panes, panes);
        proof {
            let views = pane_views(panes@);
            assert(self.pane_map@ =~= refreshed(
                old(self)@.pane_map,
                old(self)@.managed_panes,
                views,
            ));
            assert(self@ =~= old(self)@.rebuilt(views));
        }
    }

    /// Carries out the waiting toggle, if its pane has been found.
    pub fn retry_pending(&mut self) -> (calls: Vec<HostCall>)
        ensures
            final(self)@ == old(self)@.retried(),
            call_views(calls@) == old(self)@.retry_calls(),
            old(self).pending_target is None ==> calls@.len() == 0,
            old(self).pending_target is Some ==> {
                let target = old(self).pending_target->0@;
                let found = old(self).pane_map@.contains_key(target);
                let was_active = old(self).active_pane is Some && old(self).active_pane->0@
                    == target;
                &&& !found ==> calls@.len() == 0
                &&& !found ==> final(self).pending_target == old(self).pending_target
                &&& found ==> final(self).pending_target is None
                &&& found && was_active ==> calls@ == seq![
                    HostCall::HideFloatingPanes { tab_id: None },
                ]
                &&& found && !was_active ==> calls@ == seq![
                    HostCall::ShowPaneWithId {
                        pane_id: old(self).pane_map@[target],
                        should_float_if_hidden: true,
                        should_focus_pane: true,
                    },
                ]
            },
    {
        let found = match &self.pending_target {
            Some(target) => self.pane_map.contains_key(target.as_str()),
            None => false,
        };
        if found {
            if let Some(target) = self.pending_target.take() {
                return self.process_target(target.as_str());
            }
        }
        let calls: Vec<HostCall> = Vec::new();
        assert(call_views(calls@) =~= Seq::empty());
        calls
    }

    /// Toggles the pane `target`, and returns the actions due, in order.
    ///
    /// If the pane is active, the floating layer is to be hidden and no pane is active any more.
    /// Otherwise the pane is to be shown and becomes the active one. A name without a pane
    /// changes nothing.
    pub fn process_target_actions(&mut self, target: &str) -> (actions: Vec<PaneAction>)
        ensures
            final(self)@ == old(self)@.toggled(target@),
            actions@ == old(self)@.toggle_actions(target@),
            !old(self).pane_map@.contains_key(target@) ==> actions@.len() == 0,
            old(self).pane_map@.contains_key(target@) ==> {
                let was_active = old(self).active_pane is Some && old(self).active_pane->0@
                    == target@;
                &&& was_active ==> actions@ == seq![PaneAction::HideFloatingLayer]
                &&& was_active ==> final(self).active_pane is None
                &&& !was_active ==> actions@ == seq![
                    PaneAction::ShowPaneWithId(old(self).pane_map@[target@]),
                ]
                &&& !was_active ==> final(self).active_pane is Some
                &&& !was_active ==> final(self).active_pane->0@ == target@
            },
    {
        let id: PaneId = match self.pane_map.get(target) {
            Some(id) => *id,
            None => return Vec::new(),
        };
        let key: String = target.to_owned();
        let active = match &self.active_pane {
            Some(active) => *active == key,
            None => false,
        };
        let mut actions: Vec<PaneAction> = Vec::new();
        if active {
            self.active_pane = None;
            actions.push(PaneAction::HideFloatingLayer);
        } else {
            self.active_pane = Some(key);
            actions.push(PaneAction::ShowPaneWithId(id));
        }
        actions
    }

    /// Toggles the pane `target`, and returns the host calls due, in order.
    pub fn process_target(&mut self, target: &str) -> (calls: Vec<HostCall>)
        ensures
            final(self)@ == old(self)@.toggled(target@),
            call_views(calls@) == calls_for(old(self)@.toggle_actions(target@)),
            !old(self).pane_map@.contains_key(target@) ==> calls@.len() == 0,
            old(self).pane_map@.contains_key(target@) ==> {
                let was_active = old(self).active_pane is Some && old(self).active_pane->0@
                    == target@;
                &&& was_active ==> calls@ == seq![HostCall::HideFloatingPanes { tab_id: None }]
                &&& !was_active ==> calls@ == seq![
                    HostCall::ShowPaneWithId {
                        pane_id: old(self).pane_map@[target@],
                        should_float_if_hidden: true,
                        should_focus_pane: true,
                    },
                ]
            },
    {
        let actions = self.process_target_actions(target);
        let calls = host_calls(&actions);
        proof {
            if actions@.len() == 1 {
                let action = actions@[0];
                assert(calls@ =~= seq![calls@[0]]);
            }
        }
        calls
    }
}

} // verus!
