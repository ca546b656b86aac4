//! The decision logic of a headless Zellij plugin that shows and hides named
//! floating panes.
//!
//! The host reports events and messages; [`State`] takes them and answers with
//! the calls that the host is to carry out.

pub mod behaviour;
pub mod config;
pub mod host;
pub mod laws;
pub mod model;
pub mod names;
pub mod pane;
pub mod state;

pub use crate::host::{
    Event, EventType, HostCall, PaneAction, PermissionStatus, PermissionType, PipeMessage,
    Reaction,
};
pub use crate::names::NameMap;
pub use crate::pane::{make_pane_id, PaneId, PaneInfo, PaneManifest};
pub use crate::state::State;
