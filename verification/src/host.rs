//! What passes between the plugin and its host: events and messages in, calls out.

use crate::pane::{PaneId, PaneManifest};
use vstd::prelude::*;

verus! {

/// A change of what is shown, as the toggle logic asks for it.
#[derive(Debug, Clone, Copy, PartialEq, Eq, Structural)]
pub enum PaneAction {
    ShowPaneWithId(PaneId),
    HideFloatingLayer,
}

/// A permission that the plugin asks the user for.
#[derive(Debug, Clone, Copy, PartialEq, Eq, Structural)]
pub enum PermissionType {
    ReadApplicationState,
    ChangeApplicationState,
}

/// The answer to a request for permissions.
#[derive(Debug, Clone, Copy, PartialEq, Eq, Structural)]
pub enum PermissionStatus {
    Granted,
    Denied,
}

/// A kind of event that the plugin subscribes to.
#[derive(Debug, Clone, Copy, PartialEq, Eq, Structural)]
pub enum EventType {
    PermissionRequestResult,
    PaneUpdate,
}

/// An event, as the host reports it.
#[derive(Debug)]
pub enum Event {
    /// The user has answered the request for permissions.
    PermissionRequestResult(PermissionStatus),
    /// The panes have changed. `plugin_id` is the number of the plugin's own pane.
    PaneUpdate { manifest: PaneManifest, plugin_id: u32 },
    /// Any event that the plugin does not handle.
    Other,
}

/// A message to the plugin, sent by a keybind.
#[derive(Debug)]
pub struct PipeMessage {
    pub name: String,
    pub payload: Option<String>,
}

/// A call that the host is to carry out.
#[derive(Debug, PartialEq, Eq)]
pub enum HostCall {
    RequestPermission(Vec<PermissionType>),
    Subscribe(Vec<EventType>),
    /// Hide the floating layer of a tab, or of the current tab.
    HideFloatingPanes { tab_id: Option<usize> },
    ShowPaneWithId { pane_id: PaneId, should_float_if_hidden: bool, should_focus_pane: bool },
}

/// The mathematical content of a [`HostCall`].
pub enum HostCallView {
    RequestPermission(Seq<PermissionType>),
    Subscribe(Seq<EventType>),
    HideFloatingPanes { tab_id: Option<usize> },
    ShowPaneWithId { pane_id: PaneId, should_float_if_hidden: bool, should_focus_pane: bool },
}

impl View for HostCall {
    type V = HostCallView;

    open spec fn view(&self) -> HostCallView {
        match self {
            HostCall::RequestPermission(permissions) => HostCallView::RequestPermission(
                permissions@,
            ),
            HostCall::Subscribe(events) => HostCallView::Subscribe(events@),
            HostCall::HideFloatingPanes { tab_id } => HostCallView::HideFloatingPanes {
                tab_id: *tab_id,
            },
            HostCall::ShowPaneWithId { pane_id, should_float_if_hidden, should_focus_pane } =>
                HostCallView::ShowPaneWithId {
                    pane_id: *pane_id,
                    should_float_if_hidden: *should_float_if_hidden,
                    should_focus_pane: *should_focus_pane,
                },
        }
    }
}

/// The mathematical content of a list of host calls.
pub open spec fn call_views(calls: Seq<HostCall>) -> Seq<HostCallView> {
    calls.map_values(|call: HostCall| call@)
}

/// The plugin's answer to an event or a message.
#[derive(Debug, PartialEq, Eq)]
pub struct Reaction {
    /// Whether the plugin's own pane is to be drawn again.
    pub render: bool,
    /// The calls to carry out, in order.
    pub calls: Vec<HostCall>,
}

/// The host call that carries out an action: a pane is shown floating and gets the focus, and
/// the layer that is hidden is that of the current tab.
pub open spec fn call_for(action: PaneAction) -> HostCallView {
    match action {
        PaneAction::HideFloatingLayer => HostCallView::HideFloatingPanes { tab_id: None },
        PaneAction::ShowPaneWithId(pane_id) => HostCallView::ShowPaneWithId {
            pane_id,
            should_float_if_hidden: true,
            should_focus_pane: true,
        },
    }
}

/// The host calls that carry out some actions, in the same order.
pub open spec fn calls_for(actions: Seq<PaneAction>) -> Seq<HostCallView> {
    actions.map_values(|action: PaneAction| call_for(action))
}

/// The host calls that carry out some actions, in the same order.
pub fn host_calls(actions: &Vec<PaneAction>) -> (calls: Vec<HostCall>)
    ensures
        call_views(calls@) == calls_for(actions@),
        calls@.len() == actions@.len(),
        forall|i: int|
            0 <= i < actions@.len() ==> (match #[trigger] actions@[i] {
                PaneAction::ShowPaneWithId(id) => calls@[i] == (HostCall::ShowPaneWithId {
                    pane_id: id,
                    should_float_if_hidden: true,
                    should_focus_pane: true,
                }),
                PaneAction::HideFloatingLayer => calls@[i] == (HostCall::HideFloatingPanes {
                    tab_id: None,
                }),
            }),
{
    let mut calls: Vec<HostCall> = Vec::new();
    let mut i: usize = 0;
    while i < actions.len()
        invariant
            i <= actions@.len(),
            calls@.len() == i,
            forall|j: int|
                0 <= j < i ==> (match #[trigger] actions@[j] {
                    PaneAction::ShowPaneWithId(id) => calls@[j] == (HostCall::ShowPaneWithId {
                        pane_id: id,
                        should_float_if_hidden: true,
                        should_focus_pane: true,
                    }),
                    PaneAction::HideFloatingLayer => calls@[j] == (HostCall::HideFloatingPanes {
                        tab_id: None,
                    }),
                }),
            call_views(calls@) =~= calls_for(actions@).take(i as int),
        decreases actions@.len() - i,
    {
        let ghost before = calls@;
        let call = match actions[i] {
            PaneAction::HideFloatingLayer => HostCall::HideFloatingPanes { tab_id: None },
            PaneAction::ShowPaneWithId(pane_id) => HostCall::ShowPaneWithId {
                pane_id,
                should_float_if_hidden: true,
                should_focus_pane: true,
            },
        };
        calls.push(call);
        assert(call_views(calls@) =~= call_views(before).push(call@));
        i += 1;
    }
    assert(calls_for(actions@).take(actions@.len() as int) =~= calls_for(actions@));
    calls
}

} // verus!
