//! The snapshot of a session that the server gives to its clients.

use vstd::prelude::*;

verus! {

/// A session as it stands: its workspaces, tabs, panes, layouts and agents, each as the record
/// type that describes one.
///
/// This is an answer to a client. What is written to disk is another type, which has no token:
/// a token that could be read back would make a replayed session look like a live one.
#[derive(Debug, Clone, PartialEq)]
pub struct SessionSnapshot<Workspace, Tab, Pane, Layout, Agent> {
    pub version: String,
    pub protocol: u32,
    pub focused_workspace_id: Option<String>,
    pub focused_tab_id: Option<String>,
    pub focused_pane_id: Option<String>,
    pub workspaces: Vec<Workspace>,
    pub tabs: Vec<Tab>,
    pub panes: Vec<Pane>,
    pub layouts: Vec<Layout>,
    pub agents: Vec<Agent>,
    /// The server incarnation that the snapshot was taken from. `None` says that there is no
    /// token, and is never given out as an empty one.
    ///
    /// It is here and not with the agents alone because a client must be able to ask which
    /// incarnation it talks to when there is no agent, or none any more.
    pub server_epoch: Option<String>,
}

} // verus!
