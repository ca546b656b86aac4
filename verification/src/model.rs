//! The plugin's state and its transitions, as mathematics.

use crate::config::listed_panes;
use crate::host::{calls_for, EventType, HostCallView, PaneAction, PermissionType};
use crate::pane::{first_titled, is_open, PaneId, PaneView};
use vstd::prelude::*;

verus! {

/// The mathematical content of the plugin's state.
#[verifier::ext_equal]
pub struct StateView {
    /// The panes found so far, by the name under which they are managed.
    pub pane_map: Map<Seq<char>, PaneId>,
    /// The names of the managed panes, in the order of the configuration.
    pub managed_panes: Seq<Seq<char>>,
    /// The pane that was shown last, unless it was dismissed or closed since.
    pub active_pane: Option<Seq<char>>,
    /// A pane whose toggle waits until the pane is found.
    pub pending_target: Option<Seq<char>>,
    /// Whether the one-time setup has been done.
    pub initialized: bool,
    /// The tab in which the plugin lives, once it is known.
    pub own_tab_index: Option<usize>,
}

/// The panes known after a look at `panes`: a pane known before stays, under its identity, as
/// long as it is open; a managed name left without a pane takes the first pane with that title.
pub open spec fn refreshed(
    pane_map: Map<Seq<char>, PaneId>,
    managed_panes: Seq<Seq<char>>,
    panes: Seq<PaneView>,
) -> Map<Seq<char>, PaneId> {
    Map::new(
        |name: Seq<char>|
            stays(pane_map, panes, name) || managed_panes.contains(name) && first_titled(
                panes,
                name,
            ) is Some,
        |name: Seq<char>|
            if stays(pane_map, panes, name) {
                pane_map[name]
            } else {
                first_titled(panes, name)->0
            },
    )
}

/// Whether `name` has a pane that is still among `panes`.
pub open spec fn stays(
    pane_map: Map<Seq<char>, PaneId>,
    panes: Seq<PaneView>,
    name: Seq<char>,
) -> bool {
    pane_map.contains_key(name) && is_open(panes, pane_map[name])
}

impl StateView {
    /// The state before anything has happened.
    pub open spec fn initial() -> Self {
        StateView {
            pane_map: Map::empty(),
            managed_panes: Seq::empty(),
            active_pane: None,
            pending_target: None,
            initialized: false,
            own_tab_index: None,
        }
    }

    /// What holds in every state that the plugin reaches: each pane found is a managed one, the
    /// active pane is one of those found, and no toggle waits for a pane that has been found.
    pub open spec fn consistent(self) -> bool {
        &&& forall|name: Seq<char>| #[trigger]
            self.pane_map.contains_key(name) ==> self.managed_panes.contains(name)
        &&& self.active_pane is Some ==> self.pane_map.contains_key(self.active_pane->0)
        &&& self.pending_target is Some ==> !self.pane_map.contains_key(self.pending_target->0)
    }

    /// The state after the configuration has been read: panes that are no longer managed are
    /// forgotten.
    pub open spec fn loaded(self, config: Map<Seq<char>, Seq<char>>) -> Self {
        let managed = listed_panes(config);
        StateView {
            pane_map: self.pane_map.restrict(managed.to_set()),
            managed_panes: managed,
            active_pane: if self.active_pane is Some && managed.contains(self.active_pane->0) {
                self.active_pane
            } else {
                None
            },
            initialized: true,
            ..self
        }
    }

    /// The calls due when the configuration is read: the one-time setup, unless it has been
    /// done.
    pub open spec fn load_calls(self) -> Seq<HostCallView> {
        if self.initialized {
            Seq::empty()
        } else {
            seq![
                HostCallView::RequestPermission(
                    seq![
                        PermissionType::ReadApplicationState,
                        PermissionType::ChangeApplicationState,
                    ],
                ),
                HostCallView::Subscribe(seq![EventType::PermissionRequestResult]),
            ]
        }
    }

    /// The state after a toggle of `target`: the pane becomes active, or, if it was active, no
    /// pane is. Without a pane of that name nothing changes.
    pub open spec fn toggled(self, target: Seq<char>) -> Self {
        if !self.pane_map.contains_key(target) {
            self
        } else if self.active_pane == Some(target) {
            StateView { active_pane: None, ..self }
        } else {
            StateView { active_pane: Some(target), ..self }
        }
    }

    /// The actions due on a toggle of `target`.
    pub open spec fn toggle_actions(self, target: Seq<char>) -> Seq<PaneAction> {
        if !self.pane_map.contains_key(target) {
            Seq::empty()
        } else if self.active_pane == Some(target) {
            seq![PaneAction::HideFloatingLayer]
        } else {
            seq![PaneAction::ShowPaneWithId(self.pane_map[target])]
        }
    }

    /// The state after a look at `panes`: the known panes are refreshed, and no pane is active
    /// any more if the active one has been closed.
    pub open spec fn rebuilt(self, panes: Seq<PaneView>) -> Self {
        StateView {
            pane_map: refreshed(self.pane_map, self.managed_panes, panes),
            active_pane: if self.active_pane is Some && self.pane_map.contains_key(
                self.active_pane->0,
            ) && !is_open(panes, self.pane_map[self.active_pane->0]) {
                None
            } else {
                self.active_pane
            },
            ..self
        }
    }

    /// Whether the waiting toggle can be carried out.
    pub open spec fn pending_found(self) -> bool {
        self.pending_target is Some && self.pane_map.contains_key(self.pending_target->0)
    }

    /// The state after the waiting toggle has been carried out, if it can be.
    pub open spec fn retried(self) -> Self {
        if self.pending_found() {
            StateView { pending_target: None, ..self }.toggled(self.pending_target->0)
        } else {
            self
        }
    }

    /// The calls due when the waiting toggle is tried again.
    pub open spec fn retry_calls(self) -> Seq<HostCallView> {
        if self.pending_found() {
            calls_for(self.toggle_actions(self.pending_target->0))
        } else {
            Seq::empty()
        }
    }

    /// The state after a pane update that finds the plugin in `own_tab` and shows it `panes`.
    pub open spec fn updated(self, own_tab: Option<usize>, panes: Seq<PaneView>) -> Self {
        StateView { own_tab_index: own_tab, ..self }.rebuilt(panes).retried()
    }

    /// The calls due on such a pane update.
    pub open spec fn update_calls(
        self,
        own_tab: Option<usize>,
        panes: Seq<PaneView>,
    ) -> Seq<HostCallView> {
        StateView { own_tab_index: own_tab, ..self }.rebuilt(panes).retry_calls()
    }

    /// The state after a request to toggle `target`: if there is no pane of that name yet, the
    /// toggle waits for it.
    pub open spec fn requested(self, target: Seq<char>) -> Self {
        if self.pane_map.contains_key(target) {
            self.toggled(target)
        } else {
            StateView { pending_target: Some(target), ..self }
        }
    }

    /// The state after a message: a message named `toggle` with a payload requests a toggle of
    /// the pane that the payload names; any other message is ignored.
    pub open spec fn piped(self, name: Seq<char>, payload: Option<Seq<char>>) -> Self {
        if name == "toggle"@ && payload is Some {
            self.requested(payload->0)
        } else {
            self
        }
    }

    /// The calls due on a message.
    pub open spec fn pipe_calls(self, name: Seq<char>, payload: Option<Seq<char>>) -> Seq<
        HostCallView,
    > {
        if name == "toggle"@ && payload is Some {
            calls_for(self.toggle_actions(payload->0))
        } else {
            Seq::empty()
        }
    }
}

} // verus!
