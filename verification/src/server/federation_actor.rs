//! Commands of a federation connection, serviced one at a time against the live
//! session and the single-controller lease.
//!
//! [`dispatch`] decides what a command changes in the lease and in the mount's
//! size claims, and which [`FederationAction`] is left to perform. The
//! `*_outcome` functions turn what the session answered into the reply.

use vstd::prelude::*;

use crate::idset::IdSet;
use crate::server::federation_lease::AcceptEpoch;
use crate::server::federation_lease::Admission;
use crate::server::federation_lease::ConnId;
use crate::server::federation_lease::FederationLease;
use crate::server::federation_lease::Phase;
use crate::server::federation_lease::Slot;
use crate::text;

verus! {

/// Which way a split divides its pane.
#[derive(Debug, Clone, Copy, PartialEq, Eq, Structural)]
pub enum SplitDirection {
    Right,
    Down,
}

/// A request of a federation connection. Lease-bearing requests carry the
/// connection's `(epoch, connid)`.
#[derive(Debug)]
pub enum FederationCommand {
    /// Reserve the single-controller slot.
    AcquireController { epoch: AcceptEpoch, connid: ConnId },
    /// Promote the reservation and return the snapshot with its event cursor.
    Mount { epoch: AcceptEpoch, connid: ConnId },
    /// Give the lease back at the end of the connection.
    Release { epoch: AcceptEpoch, connid: ConnId },
    /// A fresh snapshot and cursor, without touching the lease.
    Snapshot,
    /// Events strictly after a sequence number.
    EventsAfter(u64),
    /// A subscription to one terminal's raw output.
    SubscribeOutput(String),
    /// The scrollback history of one terminal.
    ScrollbackReplay(String),
    /// Input for a terminal; dropped unless sent by the mounted controller.
    SendInput { epoch: AcceptEpoch, connid: ConnId, terminal_id: String, bytes: Vec<u8> },
    /// A new terminal size; dropped unless sent by the mounted controller.
    Resize { epoch: AcceptEpoch, connid: ConnId, terminal_id: String, cols: u16, rows: u16 },
    /// Make a terminal's child repaint; dropped unless sent by the mounted
    /// controller.
    NudgeRedraw { epoch: AcceptEpoch, connid: ConnId, terminal_id: String },
    /// The mount stopped mirroring a terminal and gives its size back.
    ReleaseTerminalSize { epoch: AcceptEpoch, connid: ConnId, terminal_id: String },
    /// The status of every agent.
    AgentStatuses,
    /// Split a pane of this host. The ratio is carried as the bits of the
    /// number that the peer sent.
    SplitPane {
        target_pane_id: String,
        direction: SplitDirection,
        ratio_bits: Option<u32>,
        focus: bool,
    },
    /// Close a pane of this host.
    ClosePane { target_pane_id: String },
    /// Close exactly one workspace of this host.
    CloseWorkspaceRemote { epoch: AcceptEpoch, connid: ConnId, target_workspace_id: String },
    /// Close exactly one tab of this host.
    CloseTabRemote { epoch: AcceptEpoch, connid: ConnId, target_tab_id: String },
    /// Create a workspace on this host.
    CreateWorkspace { epoch: AcceptEpoch, connid: ConnId, label: Option<String> },
    /// Create a tab in a workspace that this host published.
    CreateTab {
        epoch: AcceptEpoch,
        connid: ConnId,
        target_workspace_id: String,
        label: Option<String>,
    },
}

/// What a label looks like between quotes, as the standard library's debug
/// format writes it.
pub uninterp spec fn debug_label(label: Option<Seq<char>>) -> Seq<char>;

/// The debug format of an optional text: `core::fmt::Debug` for
/// `Option<String>`. Its escapes are left to the standard library; the contract
/// only names the result as a function of the label.
#[verifier::external_body]
fn debug_label_text(label: &Option<String>) -> (text: String)
    ensures
        text@ == debug_label(text::text_of(*label)),
{
    format!("{label:?}")
}

/// A connection in a log line.
pub open spec fn connection_text(epoch: AcceptEpoch, connid: ConnId) -> Seq<char> {
    "(e"@ + text::decimal(epoch as nat) + ", c"@ + text::decimal(connid as nat) + ")"@
}

fn push_connection(line: &mut String, epoch: AcceptEpoch, connid: ConnId)
    ensures
        final(line)@ == old(line)@ + connection_text(epoch, connid),
{
    line.append("(e");
    line.append(text::decimal_text(epoch).as_str());
    line.append(", c");
    line.append(text::decimal_text(connid).as_str());
    line.append(")");
    assert(line@ =~= old(line)@ + connection_text(epoch, connid));
}

/// `name(target)`.
fn call_text(name: &str, target: &str) -> (line: String)
    ensures
        line@ == name@ + "("@ + target@ + ")"@,
{
    let mut line = name.to_owned();
    line.append("(");
    line.append(target);
    line.append(")");
    line
}

impl FederationCommand {
    /// The command in a log line: its name and its plain fields, never the
    /// bytes it carries.
    pub open spec fn log_text(self) -> Seq<char> {
        match self {
            FederationCommand::AcquireController { epoch, connid } => "AcquireController"@
                + connection_text(epoch, connid),
            FederationCommand::Mount { epoch, connid } => "Mount"@ + connection_text(epoch, connid),
            FederationCommand::Release { epoch, connid } => "Release"@ + connection_text(
                epoch,
                connid,
            ),
            FederationCommand::Snapshot => "Snapshot"@,
            FederationCommand::EventsAfter(since) => "EventsAfter"@ + "("@ + text::decimal(
                since as nat,
            ) + ")"@,
            FederationCommand::SubscribeOutput(id) => "SubscribeOutput"@ + "("@ + id@ + ")"@,
            FederationCommand::ScrollbackReplay(id) => "ScrollbackReplay"@ + "("@ + id@ + ")"@,
            FederationCommand::SendInput { terminal_id, bytes, .. } => "SendInput("@ + terminal_id@
                + ", "@ + text::decimal(bytes@.len()) + " bytes)"@,
            FederationCommand::Resize { terminal_id, cols, rows, .. } => "Resize("@ + terminal_id@
                + ", "@ + text::decimal(cols as nat) + "x"@ + text::decimal(rows as nat) + ")"@,
            FederationCommand::NudgeRedraw { terminal_id, .. } => "NudgeRedraw"@ + "("@
                + terminal_id@ + ")"@,
            FederationCommand::ReleaseTerminalSize { terminal_id, .. } => "ReleaseTerminalSize"@
                + "("@ + terminal_id@ + ")"@,
            FederationCommand::AgentStatuses => "AgentStatuses"@,
            FederationCommand::SplitPane { target_pane_id, .. } => "SplitPane"@ + "("@
                + target_pane_id@ + ")"@,
            FederationCommand::ClosePane { target_pane_id } => "ClosePane"@ + "("@
                + target_pane_id@ + ")"@,
            FederationCommand::CloseWorkspaceRemote { target_workspace_id, .. } =>
                "CloseWorkspaceRemote"@ + "("@ + target_workspace_id@ + ")"@,
            FederationCommand::CloseTabRemote { target_tab_id, .. } => "CloseTabRemote"@ + "("@
                + target_tab_id@ + ")"@,
            FederationCommand::CreateWorkspace { label, .. } => "CreateWorkspace"@ + "("@
                + debug_label(text::text_of(label)) + ")"@,
            FederationCommand::CreateTab { epoch, connid, .. } => "CreateTab"@ + connection_text(
                epoch,
                connid,
            ),
        }
    }

    /// The command as a log line.
    pub fn describe(&self) -> (line: String)
        ensures
            line@ == self.log_text(),
    {
        match self {
            FederationCommand::AcquireController { epoch, connid } => {
                let mut line = "AcquireController".to_owned();
                push_connection(&mut line, *epoch, *connid);
                line
            },
            FederationCommand::Mount { epoch, connid } => {
                let mut line = "Mount".to_owned();
                push_connection(&mut line, *epoch, *connid);
                line
            },
            FederationCommand::Release { epoch, connid } => {
                let mut line = "Release".to_owned();
                push_connection(&mut line, *epoch, *connid);
                line
            },
            FederationCommand::Snapshot => "Snapshot".to_owned(),
            FederationCommand::EventsAfter(since) => {
                call_text("EventsAfter", text::decimal_text(*since).as_str())
            },
            FederationCommand::SubscribeOutput(id) => call_text("SubscribeOutput", id.as_str()),
            FederationCommand::ScrollbackReplay(id) => call_text("ScrollbackReplay", id.as_str()),
            FederationCommand::SendInput { terminal_id, bytes, .. } => {
                let mut line = "SendInput(".to_owned();
                line.append(terminal_id.as_str());
                line.append(", ");
                line.append(text::decimal_text(bytes.len() as u64).as_str());
                line.append(" bytes)");
                line
            },
            FederationCommand::Resize { terminal_id, cols, rows, .. } => {
                let mut line = "Resize(".to_owned();
                line.append(terminal_id.as_str());
                line.append(", ");
                line.append(text::decimal_text(*cols as u64).as_str());
                line.append("x");
                line.append(text::decimal_text(*rows as u64).as_str());
                line.append(")");
                line
            },
            FederationCommand::NudgeRedraw { terminal_id, .. } => {
                call_text("NudgeRedraw", terminal_id.as_str())
            },
            FederationCommand::ReleaseTerminalSize { terminal_id, .. } => {
                call_text("ReleaseTerminalSize", terminal_id.as_str())
            },
            FederationCommand::AgentStatuses => "AgentStatuses".to_owned(),
            FederationCommand::SplitPane { target_pane_id, .. } => {
                call_text("SplitPane", target_pane_id.as_str())
            },
            FederationCommand::ClosePane { target_pane_id } => {
                call_text("ClosePane", target_pane_id.as_str())
            },
            FederationCommand::CloseWorkspaceRemote { target_workspace_id, .. } => {
                call_text("CloseWorkspaceRemote", target_workspace_id.as_str())
            },
            FederationCommand::CloseTabRemote { target_tab_id, .. } => {
                call_text("CloseTabRemote", target_tab_id.as_str())
            },
            FederationCommand::CreateWorkspace { label, .. } => {
                call_text("CreateWorkspace", debug_label_text(label).as_str())
            },
            FederationCommand::CreateTab { epoch, connid, .. } => {
                let mut line = "CreateTab".to_owned();
                push_connection(&mut line, *epoch, *connid);
                line
            },
        }
    }
}

/// A workspace this host published under its own id.
#[derive(Debug)]
pub struct PublishedWorkspace {
    pub id: String,
    /// Whether the workspace only mirrors one of a third host.
    pub mirrored: bool,
}

/// What the session knows about the target of a command.
#[derive(Debug)]
pub struct HostFacts {
    /// The terminals of the session.
    pub terminal_ids: Vec<String>,
    /// The terminal id that the command's terminal target resolves to.
    pub resolved_terminal: Option<String>,
    /// Whether the command's terminal target has a live runtime.
    pub target_is_live: bool,
    /// The workspaces of the session, under the ids it published.
    pub workspaces: Vec<PublishedWorkspace>,
}

impl HostFacts {
    /// The terminal of the session that the command's target names.
    pub open spec fn owned_terminal(self) -> Option<Seq<char>> {
        match self.resolved_terminal {
            Some(id) => if exists|i: int|
                0 <= i < self.terminal_ids@.len() && self.terminal_ids@[i]@ == id@ {
                Some(id@)
            } else {
                None
            },
            None => None,
        }
    }

    /// Whether the workspace at `i` is the first with the id `target`.
    pub open spec fn is_workspace_at(self, target: Seq<char>, i: int) -> bool {
        &&& 0 <= i < self.workspaces@.len()
        &&& self.workspaces@[i].id@ == target
        &&& forall|j: int| 0 <= j < i ==> self.workspaces@[j].id@ != target
    }

    /// Whether this host published `target` for one of its workspaces.
    pub open spec fn publishes(self, target: Seq<char>) -> bool {
        exists|i: int| 0 <= i < self.workspaces@.len() && self.workspaces@[i].id@ == target
    }

    /// Whether `target` is published for a mirror of a third host's workspace.
    pub open spec fn publishes_mirror(self, target: Seq<char>) -> bool {
        exists|i: int| self.is_workspace_at(target, i) && self.workspaces@[i].mirrored
    }

    fn find_workspace(&self, target: &str) -> (at: Option<usize>)
        ensures
            at is Some <==> self.publishes(target@),
            at matches Some(i) ==> self.is_workspace_at(target@, i as int) && (
            self.publishes_mirror(target@) <==> self.workspaces@[i as int].mirrored),
    {
        let mut i: usize = 0;
        while i < self.workspaces.len()
            invariant
                i <= self.workspaces.len(),
                forall|j: int| 0 <= j < i ==> self.workspaces@[j].id@ != target@,
            decreases self.workspaces.len() - i,
        {
            if text::same_text(self.workspaces[i].id.as_str(), target) {
                assert(self.is_workspace_at(target@, i as int));
                assert forall|k: int| self.is_workspace_at(target@, k) implies k == i by {
                    if k < i {
                        assert(self.workspaces@[k].id@ != target@);
                    }
                    if i < k {
                        assert(self.workspaces@[i as int].id@ != target@);
                    }
                }
                return Some(i);
            }
            i = i + 1;
        }
        None
    }
}

/// What a right click in a new pane does.
#[derive(Debug, Clone, Copy, PartialEq, Eq, Structural)]
pub enum RightClickPolicy {
    /// What the session does by default.
    Default,
}

/// A method of the session's own interface, as a federation command calls it.
#[derive(Debug)]
pub enum ApiMethod {
    AgentList,
    SessionSnapshot,
    PaneSplit {
        workspace_id: Option<String>,
        target_pane_id: Option<String>,
        direction: SplitDirection,
        ratio_bits: Option<u32>,
        cwd: Option<String>,
        focus: bool,
        right_click: RightClickPolicy,
        env: Vec<(String, String)>,
    },
    PaneClose { pane_id: String },
    WorkspaceCreate {
        source_workspace_id: Option<String>,
        cwd: Option<String>,
        focus: bool,
        label: Option<String>,
        env: Vec<(String, String)>,
    },
    TabCreate {
        workspace_id: Option<String>,
        cwd: Option<String>,
        focus: bool,
        label: Option<String>,
        env: Vec<(String, String)>,
    },
}

#[derive(Debug)]
pub struct ApiRequest {
    pub id: String,
    pub method: ApiMethod,
}

/// What is left to do for a command once the lease and the claims are settled.
#[derive(Debug)]
pub enum FederationAction {
    /// Nothing, and nobody waits for a reply.
    Done,
    /// Reply with the admission's outcome.
    ReplyAdmission(Admission),
    /// Reply that nothing was mounted.
    ReplyNotMounted,
    /// Run the request and reply with its snapshot and the cursor, as a mount.
    ReplyMounted(ApiRequest),
    /// Run the request and reply with its snapshot and the cursor.
    ReplySnapshot(ApiRequest),
    /// Reply with the events after a sequence number.
    ReplyEventsAfter(u64),
    /// Reply with a subscription to a terminal's output.
    ReplySubscription(String),
    /// Reply with a terminal's scrollback.
    ReplyScrollback(String),
    /// Hand bytes to a live terminal.
    SendInput { terminal_id: String, bytes: Vec<u8> },
    /// Resize a live terminal and make its child repaint.
    Resize {
        terminal_id: String,
        rows: u16,
        cols: u16,
        cell_width_px: u32,
        cell_height_px: u32,
    },
    /// Make a live terminal's child repaint.
    NudgeRedraw { terminal_id: String },
    /// Run the request and reply with [`agent_statuses`].
    ReplyAgentStatuses(ApiRequest),
    /// Run the request and reply with [`split_outcome`].
    ReplySplit(ApiRequest),
    /// Run the request and reply with [`close_pane_outcome`].
    ReplyClosedPane(ApiRequest),
    /// Close this workspace and reply with the outcome.
    CloseWorkspace { target_workspace_id: String },
    /// Close this tab and reply with the outcome.
    CloseTab { target_tab_id: String },
    /// Run the request and reply with [`create_workspace_outcome`].
    ReplyCreatedWorkspace(ApiRequest),
    /// Run the request and reply with [`create_tab_outcome`].
    ReplyCreatedTab(ApiRequest),
    /// Reply with this refusal.
    ReplyRefused(String),
}

pub const NOT_THE_CONTROLLER: &'static str = "not the mounted controller";

pub const WORKSPACE_NOT_FOUND: &'static str =
    "workspace_not_found: this host has no workspace with that id";

pub const TAB_CREATE_REDIRECTED: &'static str = "tab_create_redirected: this host redirected the create onto a host it mounts, so no tab was created here";

/// Whether an action is the refusal that reads `reason`.
pub open spec fn refuses(action: FederationAction, reason: Seq<char>) -> bool {
    action matches FederationAction::ReplyRefused(text) && text@ == reason
}

/// Whether a request creates a workspace under `label`, with this host's own
/// defaults for everything else.
pub open spec fn creates_workspace(request: ApiRequest, label: Option<String>) -> bool {
    &&& request.id@ == "federation-create-workspace"@
    &&& request.method matches ApiMethod::WorkspaceCreate {
        source_workspace_id,
        cwd,
        focus,
        label: sent,
        env,
    }
    &&& source_workspace_id is None
    &&& cwd is None
    &&& !focus
    &&& sent == label
    &&& env@.len() == 0
}

/// Whether a request creates a tab under `label` in the workspace `target`,
/// with this host's own defaults for everything else.
pub open spec fn creates_tab(
    request: ApiRequest,
    target: Seq<char>,
    label: Option<String>,
) -> bool {
    &&& request.id@ == "federation-create-tab"@
    &&& request.method matches ApiMethod::TabCreate { workspace_id, cwd, focus, label: sent, env }
    &&& text::text_of(workspace_id) == Some(target)
    &&& cwd is None
    &&& !focus
    &&& sent == label
    &&& env@.len() == 0
}

/// Whether a request splits `target` as the peer asked.
pub open spec fn splits_pane(
    request: ApiRequest,
    target: String,
    wanted: SplitDirection,
    ratio: Option<u32>,
    wanted_focus: bool,
) -> bool {
    &&& request.id@ == "federation-split-pane"@
    &&& request.method matches ApiMethod::PaneSplit {
        workspace_id,
        target_pane_id,
        direction,
        ratio_bits,
        cwd,
        focus,
        right_click,
        env,
    }
    &&& workspace_id is None
    &&& target_pane_id == Some(target)
    &&& direction == wanted
    &&& ratio_bits == ratio
    &&& cwd is None
    &&& focus == wanted_focus
    &&& right_click == RightClickPolicy::Default
    &&& env@.len() == 0
}

/// The action that a command leaves, given the lease it met and what the
/// session knows of its target.
pub open spec fn action_for(
    lease: FederationLease,
    host: HostFacts,
    command: FederationCommand,
    action: FederationAction,
) -> bool {
    match command {
        FederationCommand::AcquireController { epoch, .. } => action
            == FederationAction::ReplyAdmission(lease.admission(epoch)),
        FederationCommand::Mount { epoch, connid } => if lease.mountable(epoch, connid) {
            action matches FederationAction::ReplyMounted(request) && request.id@
                == "federation-snapshot"@ && request.method == ApiMethod::SessionSnapshot
        } else {
            action == FederationAction::ReplyNotMounted
        },
        FederationCommand::Release { .. } => action == FederationAction::Done,
        FederationCommand::Snapshot => action matches FederationAction::ReplySnapshot(request)
            && request.id@ == "federation-snapshot"@ && request.method
            == ApiMethod::SessionSnapshot,
        FederationCommand::EventsAfter(since) => action == FederationAction::ReplyEventsAfter(
            since,
        ),
        FederationCommand::SubscribeOutput(id) => action == FederationAction::ReplySubscription(id),
        FederationCommand::ScrollbackReplay(id) => action == FederationAction::ReplyScrollback(id),
        FederationCommand::SendInput { epoch, connid, terminal_id, bytes } => if lease.is_controller(
            epoch,
            connid,
        ) && host.target_is_live {
            action == (FederationAction::SendInput { terminal_id, bytes })
        } else {
            action == FederationAction::Done
        },
        FederationCommand::Resize { epoch, connid, terminal_id, cols, rows } =>
            if lease.is_controller(epoch, connid) && host.target_is_live {
                action == (FederationAction::Resize {
                    terminal_id,
                    rows,
                    cols,
                    cell_width_px: 0,
                    cell_height_px: 0,
                })
            } else {
                action == FederationAction::Done
            },
        FederationCommand::NudgeRedraw { epoch, connid, terminal_id } => if lease.is_controller(
            epoch,
            connid,
        ) && host.target_is_live {
            action == (FederationAction::NudgeRedraw { terminal_id })
        } else {
            action == FederationAction::Done
        },
        FederationCommand::ReleaseTerminalSize { .. } => action == FederationAction::Done,
        FederationCommand::AgentStatuses => action matches FederationAction::ReplyAgentStatuses(
            request,
        ) && request.id@ == "federation-agent-list"@ && request.method == ApiMethod::AgentList,
        FederationCommand::SplitPane { target_pane_id, direction, ratio_bits, focus } =>
            action matches FederationAction::ReplySplit(request) && splits_pane(
                request,
                target_pane_id,
                direction,
                ratio_bits,
                focus,
            ),
        FederationCommand::ClosePane { target_pane_id } =>
            action matches FederationAction::ReplyClosedPane(request) && request.id@
                == "federation-close-pane"@ && request.method == (ApiMethod::PaneClose {
                pane_id: target_pane_id,
            }),
        FederationCommand::CloseWorkspaceRemote { epoch, connid, target_workspace_id } =>
            if lease.is_controller(epoch, connid) {
                action == (FederationAction::CloseWorkspace { target_workspace_id })
            } else {
                refuses(action, NOT_THE_CONTROLLER@)
            },
        FederationCommand::CloseTabRemote { epoch, connid, target_tab_id } =>
            if lease.is_controller(epoch, connid) {
                action == (FederationAction::CloseTab { target_tab_id })
            } else {
                refuses(action, NOT_THE_CONTROLLER@)
            },
        FederationCommand::CreateWorkspace { epoch, connid, label } => if lease.is_controller(
            epoch,
            connid,
        ) {
            action matches FederationAction::ReplyCreatedWorkspace(request) && creates_workspace(
                request,
                label,
            )
        } else {
            refuses(action, NOT_THE_CONTROLLER@)
        },
        FederationCommand::CreateTab { epoch, connid, target_workspace_id, label } =>
            if !lease.is_controller(epoch, connid) {
                refuses(action, NOT_THE_CONTROLLER@)
            } else if !host.publishes(target_workspace_id@) {
                refuses(action, WORKSPACE_NOT_FOUND@)
            } else if host.publishes_mirror(target_workspace_id@) {
                refuses(action, TAB_CREATE_REDIRECTED@)
            } else {
                action matches FederationAction::ReplyCreatedTab(request) && creates_tab(
                    request,
                    target_workspace_id@,
                    label,
                )
            },
    }
}

/// The lease after a command was serviced.
pub open spec fn lease_after(lease: FederationLease, command: FederationCommand) -> FederationLease {
    match command {
        FederationCommand::AcquireController { epoch, connid } => lease.after(
            crate::server::federation_lease::LeaseStep::Acquire { epoch, connid },
        ),
        FederationCommand::Mount { epoch, connid } => lease.after(
            crate::server::federation_lease::LeaseStep::Mount { epoch, connid },
        ),
        FederationCommand::Release { epoch, connid } => lease.after(
            crate::server::federation_lease::LeaseStep::Release { epoch, connid },
        ),
        _ => lease,
    }
}

/// The size claims after a command was serviced, before they follow the lease.
pub open spec fn claims_driven(
    claims: Set<Seq<char>>,
    lease: FederationLease,
    host: HostFacts,
    command: FederationCommand,
) -> Set<Seq<char>> {
    match command {
        FederationCommand::Resize { epoch, connid, .. } | FederationCommand::NudgeRedraw {
            epoch,
            connid,
            ..
        } => match host.owned_terminal() {
            Some(id) => if lease.is_controller(epoch, connid) && host.target_is_live {
                claims.insert(id)
            } else {
                claims
            },
            None => claims,
        },
        FederationCommand::ReleaseTerminalSize { epoch, connid, .. } => match host.owned_terminal() {
            Some(id) => if lease.is_controller(epoch, connid) {
                claims.remove(id)
            } else {
                claims
            },
            None => claims,
        },
        _ => claims,
    }
}

/// The size claims once they follow the lease: without a mounted controller
/// there are none.
pub open spec fn claims_under(claims: Set<Seq<char>>, lease: FederationLease) -> Set<Seq<char>> {
    if exists|epoch: AcceptEpoch, connid: ConnId| lease.is_controller(epoch, connid) {
        claims
    } else {
        Set::empty()
    }
}

/// Drop every size claim once no controller is mounted. Called after every
/// change of the lease, so that ownership never outlives the mount.
pub fn sync_terminal_size_ownership(claims: &mut IdSet, lease: &FederationLease)
    requires
        old(claims).wf(),
    ensures
        final(claims).wf(),
        final(claims)@ == claims_under(old(claims)@, *lease),
{
    if !lease.has_mounted_controller() {
        claims.clear();
    }
}

fn resolve_owned_terminal_id(host: &HostFacts) -> (id: Option<String>)
    ensures
        text::text_of(id) == host.owned_terminal(),
{
    match &host.resolved_terminal {
        Some(resolved) => match text::position_of(&host.terminal_ids, resolved.as_str()) {
            Some(_) => Some(resolved.clone()),
            None => None,
        },
        None => None,
    }
}

/// Record that the mounted controller drives the size of the command's target.
pub fn claim_terminal_size(claims: &mut IdSet, host: &HostFacts)
    requires
        old(claims).wf(),
    ensures
        final(claims).wf(),
        final(claims)@ == (match host.owned_terminal() {
            Some(id) => old(claims)@.insert(id),
            None => old(claims)@,
        }),
{
    if let Some(id) = resolve_owned_terminal_id(host) {
        claims.insert(id);
    }
}

/// Drop the claim on the command's target: the host may size it again.
pub fn release_terminal_size(claims: &mut IdSet, host: &HostFacts)
    requires
        old(claims).wf(),
    ensures
        final(claims).wf(),
        final(claims)@ == (match host.owned_terminal() {
            Some(id) => old(claims)@.remove(id),
            None => old(claims)@,
        }),
{
    if let Some(id) = resolve_owned_terminal_id(host) {
        claims.remove(id.as_str());
    }
}

fn snapshot_request() -> (request: ApiRequest)
    ensures
        request.id@ == "federation-snapshot"@,
        request.method == ApiMethod::SessionSnapshot,
{
    ApiRequest { id: "federation-snapshot".to_owned(), method: ApiMethod::SessionSnapshot }
}

fn refusal(reason: &str) -> (action: FederationAction)
    ensures
        refuses(action, reason@),
{
    FederationAction::ReplyRefused(reason.to_owned())
}

fn dispatch_command(
    claims: &mut IdSet,
    lease: &mut FederationLease,
    host: &HostFacts,
    command: FederationCommand,
) -> (action: FederationAction)
    requires
        old(claims).wf(),
    ensures
        action_for(*old(lease), *host, command, action),
        *final(lease) == lease_after(*old(lease), command),
        final(claims).wf(),
        final(claims)@ == claims_driven(old(claims)@, *old(lease), *host, command),
        old(lease).wf() ==> final(lease).wf(),
{
    match command {
        FederationCommand::AcquireController { epoch, connid } => {
            FederationAction::ReplyAdmission(lease.try_acquire(epoch, connid))
        },
        FederationCommand::Mount { epoch, connid } => {
            if !lease.try_mount(epoch, connid) {
                return FederationAction::ReplyNotMounted;
            }
            FederationAction::ReplyMounted(snapshot_request())
        },
        FederationCommand::Release { epoch, connid } => {
            let _ = lease.release(epoch, connid);
            FederationAction::Done
        },
        FederationCommand::Snapshot => FederationAction::ReplySnapshot(snapshot_request()),
        FederationCommand::EventsAfter(since) => FederationAction::ReplyEventsAfter(since),
        FederationCommand::SubscribeOutput(id) => FederationAction::ReplySubscription(id),
        FederationCommand::ScrollbackReplay(id) => FederationAction::ReplyScrollback(id),
        FederationCommand::SendInput { epoch, connid, terminal_id, bytes } => {
            if !lease.is_mounted_controller(epoch, connid) {
                return FederationAction::Done;
            }
            if host.target_is_live {
                FederationAction::SendInput { terminal_id, bytes }
            } else {
                FederationAction::Done
            }
        },
        FederationCommand::Resize { epoch, connid, terminal_id, cols, rows } => {
            if !lease.is_mounted_controller(epoch, connid) {
                return FederationAction::Done;
            }
            if host.target_is_live {
                claim_terminal_size(claims, host);
                FederationAction::Resize {
                    terminal_id,
                    rows,
                    cols,
                    cell_width_px: 0,
                    cell_height_px: 0,
                }
            } else {
                FederationAction::Done
            }
        },
        FederationCommand::NudgeRedraw { epoch, connid, terminal_id } => {
            if !lease.is_mounted_controller(epoch, connid) {
                return FederationAction::Done;
            }
            if host.target_is_live {
                claim_terminal_size(claims, host);
                FederationAction::NudgeRedraw { terminal_id }
            } else {
                FederationAction::Done
            }
        },
        FederationCommand::ReleaseTerminalSize { epoch, connid, terminal_id: _ } => {
            if !lease.is_mounted_controller(epoch, connid) {
                return FederationAction::Done;
            }
            release_terminal_size(claims, host);
            FederationAction::Done
        },
        FederationCommand::AgentStatuses => FederationAction::ReplyAgentStatuses(
            ApiRequest { id: "federation-agent-list".to_owned(), method: ApiMethod::AgentList },
        ),
        FederationCommand::SplitPane { target_pane_id, direction, ratio_bits, focus } => {
            FederationAction::ReplySplit(
                ApiRequest {
                    id: "federation-split-pane".to_owned(),
                    method: ApiMethod::PaneSplit {
                        workspace_id: None,
                        target_pane_id: Some(target_pane_id),
                        direction,
                        ratio_bits,
                        cwd: None,
                        focus,
                        right_click: RightClickPolicy::Default,
                        env: Vec::new(),
                    },
                },
            )
        },
        FederationCommand::ClosePane { target_pane_id } => {
            FederationAction::ReplyClosedPane(
                ApiRequest {
                    id: "federation-close-pane".to_owned(),
                    method: ApiMethod::PaneClose { pane_id: target_pane_id },
                },
            )
        },
        FederationCommand::CloseWorkspaceRemote { epoch, connid, target_workspace_id } => {
            if !lease.is_mounted_controller(epoch, connid) {
                return refusal(NOT_THE_CONTROLLER);
            }
            FederationAction::CloseWorkspace { target_workspace_id }
        },
        FederationCommand::CloseTabRemote { epoch, connid, target_tab_id } => {
            if !lease.is_mounted_controller(epoch, connid) {
                return refusal(NOT_THE_CONTROLLER);
            }
            FederationAction::CloseTab { target_tab_id }
        },
        FederationCommand::CreateWorkspace { epoch, connid, label } => {
            if !lease.is_mounted_controller(epoch, connid) {
                return refusal(NOT_THE_CONTROLLER);
            }
            FederationAction::ReplyCreatedWorkspace(
                ApiRequest {
                    id: "federation-create-workspace".to_owned(),
                    method: ApiMethod::WorkspaceCreate {
                        source_workspace_id: None,
                        cwd: None,
                        focus: false,
                        label,
                        env: Vec::new(),
                    },
                },
            )
        },
        FederationCommand::CreateTab { epoch, connid, target_workspace_id, label } => {
            if !lease.is_mounted_controller(epoch, connid) {
                return refusal(NOT_THE_CONTROLLER);
            }
            // The peer's id is matched exactly: this host acts only on ids that
            // it issued, never on a positional shorthand.
            let at = match host.find_workspace(target_workspace_id.as_str()) {
                Some(at) => at,
                None => {
                    return refusal(WORKSPACE_NOT_FOUND);
                },
            };
            // A mirrored workspace would forward the create to a third host.
            if host.workspaces[at].mirrored {
                return refusal(TAB_CREATE_REDIRECTED);
            }
            FederationAction::ReplyCreatedTab(
                ApiRequest {
                    id: "federation-create-tab".to_owned(),
                    method: ApiMethod::TabCreate {
                        workspace_id: Some(host.workspaces[at].id.clone()),
                        cwd: None,
                        focus: false,
                        label,
                        env: Vec::new(),
                    },
                },
            )
        },
    }
}

/// Service one command against the lease and the mount's size claims.
pub fn dispatch(
    claims: &mut IdSet,
    lease: &mut FederationLease,
    host: &HostFacts,
    command: FederationCommand,
) -> (action: FederationAction)
    requires
        old(claims).wf(),
    ensures
        action_for(*old(lease), *host, command, action),
        *final(lease) == lease_after(*old(lease), command),
        final(claims).wf(),
        final(claims)@ == claims_under(
            claims_driven(old(claims)@, *old(lease), *host, command),
            *final(lease),
        ),
        old(lease).wf() ==> final(lease).wf(),
{
    let action = dispatch_command(claims, lease, host, command);
    sync_terminal_size_ownership(claims, lease);
    action
}

/// How an agent is doing.
#[derive(Debug, Clone, Copy, PartialEq, Eq, Structural)]
pub enum AgentStatus {
    Idle,
    Working,
    Blocked,
    Done,
    Unknown,
}

/// An agent as the session lists it.
#[derive(Debug)]
pub struct AgentEntry {
    pub terminal_id: String,
    pub agent_status: AgentStatus,
    /// The label of the identified agent.
    pub agent: Option<String>,
}

/// A successful answer of the session, as far as a federation reply reads it.
/// `S` is the session's snapshot.
#[derive(Debug)]
pub enum SuccessResult<S> {
    AgentList { agents: Vec<AgentEntry> },
    SessionSnapshot { snapshot: S },
    PaneInfo { pane_id: String, terminal_id: String },
    WorkspaceCreated {
        workspace_id: String,
        tab_id: String,
        pane_id: String,
        terminal_id: String,
    },
    /// The create was forwarded to a host that this one mounts.
    WorkspaceCreateRequested { origin: String },
    TabCreated { workspace_id: String, tab_id: String, pane_id: String, terminal_id: String },
    /// The create was forwarded to a host that this one mounts.
    TabCreateRequested { origin: String },
    /// Any other success.
    Other,
}

/// The ids of what a create made: workspace, tab, pane and terminal.
pub type CreatedIds = (String, String, String, String);

/// A live event as the session's event hub keeps it.
#[derive(Debug)]
pub struct EventEnvelope<K> {
    pub event: K,
}

/// The snapshot of a session's answer, or the empty one where the answer holds
/// none.
pub fn session_snapshot<S>(success: Option<SuccessResult<S>>, empty: S) -> (snapshot: S)
    ensures
        snapshot == (match success {
            Some(SuccessResult::SessionSnapshot { snapshot }) => snapshot,
            _ => empty,
        }),
{
    match success {
        Some(SuccessResult::SessionSnapshot { snapshot }) => snapshot,
        _ => empty,
    }
}

/// The events of a slice, each with its sequence number.
pub fn event_kinds<K>(events: Vec<(u64, EventEnvelope<K>)>) -> (kinds: Vec<(u64, K)>)
    ensures
        kinds@ == events@.map_values(|event: (u64, EventEnvelope<K>)| (event.0, event.1.event)),
{
    let mut kinds: Vec<(u64, K)> = Vec::new();
    for event in iter: events
        invariant
            iter.seq() == events@,
            kinds@ == events@.take(iter.index()).map_values(
                |event: (u64, EventEnvelope<K>)| (event.0, event.1.event),
            ),
    {
        proof {
            assert(events@.take(iter.index() + 1) =~= events@.take(iter.index()).push(
                events@[iter.index()],
            ));
        }
        let (seq, envelope) = event;
        kinds.push((seq, envelope.event));
    }
    assert(events@.take(events@.len() as int) =~= events@);
    kinds
}

/// The bytes that seed a newly opened mirror: the terminal's history, or
/// nothing for an unknown terminal or one without history.
pub fn scrollback_replay(runtime: Option<Option<String>>) -> (replay: Vec<u8>)
    ensures
        replay@ == (match runtime {
            Some(Some(history)) => vstd::utf8::encode_utf8(history@),
            _ => Seq::empty(),
        }),
{
    match runtime {
        Some(Some(history)) => history.as_str().as_bytes_vec(),
        _ => Vec::new(),
    }
}

/// The status of every agent in a session's answer; none where the answer is
/// not an agent list.
pub fn agent_statuses<S>(
    success: Option<SuccessResult<S>>,
) -> (statuses: Vec<(String, AgentStatus, Option<String>)>)
    ensures
        statuses@ == (match success {
            Some(SuccessResult::AgentList { agents }) => agents@.map_values(
                |agent: AgentEntry| (agent.terminal_id, agent.agent_status, agent.agent),
            ),
            _ => Seq::empty(),
        }),
{
    let mut statuses: Vec<(String, AgentStatus, Option<String>)> = Vec::new();
    match success {
        Some(SuccessResult::AgentList { agents }) => {
            let ghost all = agents@;
            for agent in iter: agents
                invariant
                    iter.seq() == all,
                    statuses@ == all.take(iter.index()).map_values(
                        |agent: AgentEntry| (agent.terminal_id, agent.agent_status, agent.agent),
                    ),
            {
                proof {
                    assert(all.take(iter.index() + 1) =~= all.take(iter.index()).push(
                        all[iter.index()],
                    ));
                }
                statuses.push((agent.terminal_id, agent.agent_status, agent.agent));
            }
            assert(all.take(all.len() as int) =~= all);
            statuses
        },
        _ => statuses,
    }
}

/// The texts of a reply, for contracts.
pub open spec fn split_view(
    outcome: Result<(String, String), String>,
) -> Result<(Seq<char>, Seq<char>), Seq<char>> {
    match outcome {
        Ok((pane_id, terminal_id)) => Ok((pane_id@, terminal_id@)),
        Err(reason) => Err(reason@),
    }
}

/// What a split replies: the new pane and its terminal, or why there is none.
pub open spec fn split_reply_view<S>(
    success: Option<SuccessResult<S>>,
    message: Option<Seq<char>>,
) -> Result<(Seq<char>, Seq<char>), Seq<char>> {
    match success {
        Some(SuccessResult::PaneInfo { pane_id, terminal_id }) => Ok((pane_id@, terminal_id@)),
        _ => Err(
            match message {
                Some(message) => message,
                None => "pane split failed"@,
            },
        ),
    }
}

/// The reply to a split, given the session's success or its error message.
pub fn split_reply<S>(
    success: Option<SuccessResult<S>>,
    message: Option<String>,
) -> (outcome: Result<(String, String), String>)
    ensures
        split_view(outcome) == split_reply_view(success, text::text_of(message)),
{
    match success {
        Some(SuccessResult::PaneInfo { pane_id, terminal_id }) => Ok((pane_id, terminal_id)),
        _ => match message {
            Some(message) => Err(message),
            None => Err("pane split failed".to_owned()),
        },
    }
}

/// The reply to a split, given the session's answer: `success` is what the
/// answer means, `response` its text.
pub fn split_outcome<S>(
    success: Option<SuccessResult<S>>,
    response: &str,
) -> (outcome: Result<(String, String), String>)
    ensures
        split_view(outcome) == split_reply_view(
            success,
            crate::json::json_text_at(response@, "error"@, "message"@),
        ),
{
    let message = crate::json::text_at(response, "error", "message");
    split_reply(success, message)
}

fn text_or(found: Option<String>, default: &str) -> (text: String)
    ensures
        text@ == (match text::text_of(found) {
            Some(found) => found,
            None => default@,
        }),
{
    match found {
        Some(found) => found,
        None => default.to_owned(),
    }
}

/// `found`, or `default` where there is none.
pub open spec fn or_default(found: Option<Seq<char>>, default: Seq<char>) -> Seq<char> {
    match found {
        Some(found) => found,
        None => default,
    }
}

/// What closing a pane replies. A failure starts with the session's own error
/// code, so that the peer classifies it without reading the message.
pub open spec fn close_pane_reply_view(
    closed: bool,
    code: Option<Seq<char>>,
    message: Option<Seq<char>>,
) -> Result<(), Seq<char>> {
    if closed {
        Ok(())
    } else {
        Err(
            or_default(code, "pane_close_failed"@) + ": "@ + or_default(
                message,
                "pane close failed"@,
            ),
        )
    }
}

/// The texts of a reply without a value, for contracts.
pub open spec fn unit_view(outcome: Result<(), String>) -> Result<(), Seq<char>> {
    match outcome {
        Ok(()) => Ok(()),
        Err(reason) => Err(reason@),
    }
}

/// The reply to a pane close, given the session's success or its error.
pub fn close_pane_reply(
    closed: bool,
    code: Option<String>,
    message: Option<String>,
) -> (outcome: Result<(), String>)
    ensures
        unit_view(outcome) == close_pane_reply_view(
            closed,
            text::text_of(code),
            text::text_of(message),
        ),
{
    if closed {
        return Ok(());
    }
    let code = text_or(code, "pane_close_failed");
    let message = text_or(message, "pane close failed");
    Err(text::labelled(code.as_str(), message.as_str()))
}

/// The reply to a pane close, given the session's answer.
pub fn close_pane_outcome<S>(
    success: Option<SuccessResult<S>>,
    response: &str,
) -> (outcome: Result<(), String>)
    ensures
        unit_view(outcome) == close_pane_reply_view(
            success is Some,
            crate::json::json_text_at(response@, "error"@, "code"@),
            crate::json::json_text_at(response@, "error"@, "message"@),
        ),
{
    let code = crate::json::text_at(response, "error", "code");
    let message = crate::json::text_at(response, "error", "message");
    close_pane_reply(success.is_some(), code, message)
}

/// The texts of a create's reply, for contracts.
pub open spec fn created_view(
    outcome: Result<CreatedIds, String>,
) -> Result<(Seq<char>, Seq<char>, Seq<char>, Seq<char>), Seq<char>> {
    match outcome {
        Ok((workspace_id, tab_id, pane_id, terminal_id)) => Ok(
            (workspace_id@, tab_id@, pane_id@, terminal_id@),
        ),
        Err(reason) => Err(reason@),
    }
}

pub const WORKSPACE_CREATE_REDIRECTED: &'static str = "workspace_create_redirected: this host redirected the create onto a host it mounts, so no workspace was created here";

pub const WORKSPACE_CREATE_UNEXPECTED: &'static str = "workspace_create_unexpected_result: this host answered the create with a result carrying no workspace ids";

pub const TAB_CREATE_UNEXPECTED: &'static str = "tab_create_unexpected_result: this host answered the create with a result carrying no tab ids";

/// What a workspace create replies. A failure carries the session's error code
/// and a fixed text, never the session's message: that one may name this host's
/// files.
pub open spec fn create_workspace_reply_view<S>(
    success: Option<SuccessResult<S>>,
    code: Option<Seq<char>>,
) -> Result<(Seq<char>, Seq<char>, Seq<char>, Seq<char>), Seq<char>> {
    match success {
        Some(SuccessResult::WorkspaceCreated { workspace_id, tab_id, pane_id, terminal_id }) => Ok(
            (workspace_id@, tab_id@, pane_id@, terminal_id@),
        ),
        Some(SuccessResult::WorkspaceCreateRequested { .. }) => Err(WORKSPACE_CREATE_REDIRECTED@),
        Some(_) => Err(WORKSPACE_CREATE_UNEXPECTED@),
        None => Err(
            or_default(code, "workspace_create_failed"@) + ": "@
                + "workspace could not be created on the remote host"@,
        ),
    }
}

/// The reply to a workspace create, given the session's success or error code.
pub fn create_workspace_reply<S>(
    success: Option<SuccessResult<S>>,
    code: Option<String>,
) -> (outcome: Result<CreatedIds, String>)
    ensures
        created_view(outcome) == create_workspace_reply_view(success, text::text_of(code)),
{
    match success {
        Some(SuccessResult::WorkspaceCreated { workspace_id, tab_id, pane_id, terminal_id }) => Ok(
            (workspace_id, tab_id, pane_id, terminal_id),
        ),
        Some(SuccessResult::WorkspaceCreateRequested { .. }) => Err(
            WORKSPACE_CREATE_REDIRECTED.to_owned(),
        ),
        Some(_) => Err(WORKSPACE_CREATE_UNEXPECTED.to_owned()),
        None => {
            let code = text_or(code, "workspace_create_failed");
            Err(
                text::labelled(
                    code.as_str(),
                    "workspace could not be created on the remote host",
                ),
            )
        },
    }
}

/// The reply to a workspace create, given the session's answer.
pub fn create_workspace_outcome<S>(
    success: Option<SuccessResult<S>>,
    response: &str,
) -> (outcome: Result<CreatedIds, String>)
    ensures
        created_view(outcome) == create_workspace_reply_view(
            success,
            crate::json::json_text_at(response@, "error"@, "code"@),
        ),
{
    let code = crate::json::text_at(response, "error", "code");
    create_workspace_reply(success, code)
}

/// What a tab create replies. A failure carries the session's error code and a
/// fixed text, never the session's message.
pub open spec fn create_tab_reply_view<S>(
    success: Option<SuccessResult<S>>,
    code: Option<Seq<char>>,
) -> Result<(Seq<char>, Seq<char>, Seq<char>, Seq<char>), Seq<char>> {
    match success {
        Some(SuccessResult::TabCreated { workspace_id, tab_id, pane_id, terminal_id }) => Ok(
            (workspace_id@, tab_id@, pane_id@, terminal_id@),
        ),
        Some(SuccessResult::TabCreateRequested { .. }) => Err(TAB_CREATE_REDIRECTED@),
        Some(_) => Err(TAB_CREATE_UNEXPECTED@),
        None => Err(
            or_default(code, "tab_create_failed"@) + ": "@
                + "tab could not be created on the remote host"@,
        ),
    }
}

/// The reply to a tab create, given the session's success or error code.
pub fn create_tab_reply<S>(
    success: Option<SuccessResult<S>>,
    code: Option<String>,
) -> (outcome: Result<CreatedIds, String>)
    ensures
        created_view(outcome) == create_tab_reply_view(success, text::text_of(code)),
{
    match success {
        Some(SuccessResult::TabCreated { workspace_id, tab_id, pane_id, terminal_id }) => Ok(
            (workspace_id, tab_id, pane_id, terminal_id),
        ),
        Some(SuccessResult::TabCreateRequested { .. }) => Err(TAB_CREATE_REDIRECTED.to_owned()),
        Some(_) => Err(TAB_CREATE_UNEXPECTED.to_owned()),
        None => {
            let code = text_or(code, "tab_create_failed");
            Err(text::labelled(code.as_str(), "tab could not be created on the remote host"))
        },
    }
}

/// The reply to a tab create, given the session's answer.
pub fn create_tab_outcome<S>(
    success: Option<SuccessResult<S>>,
    response: &str,
) -> (outcome: Result<CreatedIds, String>)
    ensures
        created_view(outcome) == create_tab_reply_view(
            success,
            crate::json::json_text_at(response@, "error"@, "code"@),
        ),
{
    let code = crate::json::text_at(response, "error", "code");
    create_tab_reply(success, code)
}

/// The connection a command is gated on, where only the mounted controller may
/// issue it.
pub open spec fn gated_on(command: FederationCommand) -> Option<(AcceptEpoch, ConnId)> {
    match command {
        FederationCommand::SendInput { epoch, connid, .. } => Some((epoch, connid)),
        FederationCommand::Resize { epoch, connid, .. } => Some((epoch, connid)),
        FederationCommand::NudgeRedraw { epoch, connid, .. } => Some((epoch, connid)),
        FederationCommand::ReleaseTerminalSize { epoch, connid, .. } => Some((epoch, connid)),
        FederationCommand::CloseWorkspaceRemote { epoch, connid, .. } => Some((epoch, connid)),
        FederationCommand::CloseTabRemote { epoch, connid, .. } => Some((epoch, connid)),
        FederationCommand::CreateWorkspace { epoch, connid, .. } => Some((epoch, connid)),
        FederationCommand::CreateTab { epoch, connid, .. } => Some((epoch, connid)),
        _ => None,
    }
}

/// A gated command of any connection but the mounted controller changes neither
/// the lease nor a claim, and leaves nothing to do but refuse it.
pub proof fn law_only_the_controller_mutates(
    lease: FederationLease,
    claims: Set<Seq<char>>,
    host: HostFacts,
    command: FederationCommand,
    action: FederationAction,
)
    requires
        gated_on(command) matches Some(caller) && !lease.is_controller(caller.0, caller.1),
        action_for(lease, host, command, action),
    ensures
        lease_after(lease, command) == lease,
        claims_driven(claims, lease, host, command) == claims,
        action == FederationAction::Done || refuses(action, NOT_THE_CONTROLLER@),
{
}

/// Size ownership follows the lease: whatever is serviced, claims are left only
/// while some controller is mounted.
pub proof fn law_ownership_never_outlives_the_mount(
    lease: FederationLease,
    claims: Set<Seq<char>>,
    host: HostFacts,
    command: FederationCommand,
)
    ensures
        ({
            let after = lease_after(lease, command);
            let left = claims_under(claims_driven(claims, lease, host, command), after);
            left != Set::<Seq<char>>::empty() ==> exists|epoch: AcceptEpoch, connid: ConnId|
                after.is_controller(epoch, connid)
        }),
{
}

/// A mount owns only what it drives: one command adds at most the terminal that
/// its own target resolves to.
pub proof fn law_claims_grow_by_the_driven_terminal(
    lease: FederationLease,
    claims: Set<Seq<char>>,
    host: HostFacts,
    command: FederationCommand,
    terminal: Seq<char>,
)
    requires
        claims_under(
            claims_driven(claims, lease, host, command),
            lease_after(lease, command),
        ).contains(terminal),
        !claims.contains(terminal),
    ensures
        host.owned_terminal() == Some(terminal),
        host.target_is_live,
        command is Resize || command is NudgeRedraw,
        gated_on(command) matches Some(caller) && lease.is_controller(caller.0, caller.1),
{
}

/// Giving a terminal's size back undoes driving it.
pub proof fn law_release_undoes_the_claim(
    lease: FederationLease,
    claims: Set<Seq<char>>,
    host: HostFacts,
    resize: FederationCommand,
    release: FederationCommand,
)
    requires
        resize is Resize,
        release is ReleaseTerminalSize,
        gated_on(resize) == gated_on(release),
        gated_on(resize) matches Some(caller) && lease.is_controller(caller.0, caller.1),
        host.owned_terminal() matches Some(id) && !claims.contains(id),
    ensures
        claims_driven(claims_driven(claims, lease, host, resize), lease, host, release) == claims,
{
    let id = host.owned_terminal()->0;
    assert(claims.insert(id).remove(id) =~= claims);
    assert(claims.remove(id) =~= claims);
}

/// The mounted controller is never refused a close: what is left to do is to
/// close exactly the tab, or the workspace, that its command names.
pub proof fn law_the_controller_closes_what_it_names(
    lease: FederationLease,
    host: HostFacts,
    epoch: AcceptEpoch,
    connid: ConnId,
    target: String,
    action: FederationAction,
)
    requires
        lease.slot == (Slot::Held { phase: Phase::Mounted, epoch, connid }),
    ensures
        action_for(
            lease,
            host,
            FederationCommand::CloseTabRemote { epoch, connid, target_tab_id: target },
            action,
        ) ==> action == (FederationAction::CloseTab { target_tab_id: target }),
        action_for(
            lease,
            host,
            FederationCommand::CloseWorkspaceRemote { epoch, connid, target_workspace_id: target },
            action,
        ) ==> action == (FederationAction::CloseWorkspace { target_workspace_id: target }),
{
}

/// A close by any other connection is refused, and the refusal says why.
pub proof fn law_others_close_nothing(
    lease: FederationLease,
    host: HostFacts,
    epoch: AcceptEpoch,
    connid: ConnId,
    target: String,
    command: FederationCommand,
    action: FederationAction,
)
    requires
        lease.slot != (Slot::Held { phase: Phase::Mounted, epoch, connid }),
        command == (FederationCommand::CloseTabRemote { epoch, connid, target_tab_id: target })
            || command == (FederationCommand::CloseWorkspaceRemote {
            epoch,
            connid,
            target_workspace_id: target,
        }),
        action_for(lease, host, command, action),
    ensures
        action matches FederationAction::ReplyRefused(reason) && reason@
            == "not the mounted controller"@,
{
}

/// A command is refused only for a reason that holds: its sender is not the
/// mounted controller; or it wants a tab in a workspace that this host did not
/// publish, or that is a mirror of a third host's.
pub proof fn law_refusals_have_their_reason(
    lease: FederationLease,
    host: HostFacts,
    command: FederationCommand,
    action: FederationAction,
)
    requires
        action_for(lease, host, command, action),
        action is ReplyRefused,
    ensures
        command is CloseTabRemote || command is CloseWorkspaceRemote || command is CreateWorkspace
            || command is CreateTab,
        action->ReplyRefused_0@ == "not the mounted controller"@ || (command is CreateTab && (
        action->ReplyRefused_0@ == "workspace_not_found: this host has no workspace with that id"@
            || action->ReplyRefused_0@
            == "tab_create_redirected: this host redirected the create onto a host it mounts, so no tab was created here"@)),
        command matches FederationCommand::CloseTabRemote { epoch, connid, .. } ==> lease.slot != (
        Slot::Held { phase: Phase::Mounted, epoch, connid }),
        command matches FederationCommand::CloseWorkspaceRemote { epoch, connid, .. }
            ==> lease.slot != (Slot::Held { phase: Phase::Mounted, epoch, connid }),
        command matches FederationCommand::CreateWorkspace { epoch, connid, .. } ==> lease.slot != (
        Slot::Held { phase: Phase::Mounted, epoch, connid }),
        command matches FederationCommand::CreateTab {
            epoch,
            connid,
            target_workspace_id,
            ..
        } ==> {
            ||| lease.slot != (Slot::Held { phase: Phase::Mounted, epoch, connid })
            ||| forall|i: int|
                0 <= i < host.workspaces@.len() ==> (#[trigger] host.workspaces@[i]).id@
                    != target_workspace_id@
            ||| exists|i: int|
                0 <= i < host.workspaces@.len() && (#[trigger] host.workspaces@[i]).id@
                    == target_workspace_id@ && host.workspaces@[i].mirrored
        },
{
    if let FederationCommand::CreateTab { target_workspace_id, .. } = command {
        let target = target_workspace_id@;
        if host.publishes(target) && host.publishes_mirror(target) {
            let i = choose|i: int| host.is_workspace_at(target, i) && host.workspaces@[i].mirrored;
            assert(host.workspaces@[i].id@ == target);
        }
    }
}

/// The mounted controller creates the workspace it asked for: the request that
/// is left to run carries the command's own label. Everything else is left to
/// this host.
pub proof fn law_the_controller_creates_workspaces(
    lease: FederationLease,
    host: HostFacts,
    epoch: AcceptEpoch,
    connid: ConnId,
    label: Option<String>,
    action: FederationAction,
)
    requires
        lease.slot == (Slot::Held { phase: Phase::Mounted, epoch, connid }),
        action_for(
            lease,
            host,
            FederationCommand::CreateWorkspace { epoch, connid, label },
            action,
        ),
    ensures
        action is ReplyCreatedWorkspace,
        ({
            let method = action->ReplyCreatedWorkspace_0.method;
            &&& method is WorkspaceCreate
            &&& method->WorkspaceCreate_label == label
            &&& !method->WorkspaceCreate_focus
            &&& method->WorkspaceCreate_cwd is None
            &&& method->WorkspaceCreate_env@.len() == 0
            &&& method->WorkspaceCreate_source_workspace_id is None
        }),
{
}

/// The mounted controller creates the tab it asked for, in the workspace it
/// names, where that is one of this host's own: the request that is left to run
/// carries the command's own label and the workspace's id.
pub proof fn law_the_controller_creates_tabs(
    lease: FederationLease,
    host: HostFacts,
    epoch: AcceptEpoch,
    connid: ConnId,
    target: String,
    label: Option<String>,
    action: FederationAction,
    at: int,
)
    requires
        lease.slot == (Slot::Held { phase: Phase::Mounted, epoch, connid }),
        0 <= at < host.workspaces@.len(),
        host.workspaces@[at].id@ == target@,
        forall|i: int|
            0 <= i < host.workspaces@.len() && (#[trigger] host.workspaces@[i]).id@ == target@
                ==> !host.workspaces@[i].mirrored,
        action_for(
            lease,
            host,
            FederationCommand::CreateTab { epoch, connid, target_workspace_id: target, label },
            action,
        ),
    ensures
        action is ReplyCreatedTab,
        ({
            let method = action->ReplyCreatedTab_0.method;
            &&& method is TabCreate
            &&& method->TabCreate_workspace_id matches Some(id) && id@ == target@
            &&& method->TabCreate_label == label
            &&& !method->TabCreate_focus
            &&& method->TabCreate_cwd is None
            &&& method->TabCreate_env@.len() == 0
        }),
{
    assert(host.publishes(target@));
    assert(!host.publishes_mirror(target@));
}

/// Input, a new size and a repaint reach the live terminal that the mounted
/// controller's command names, with the command's own bytes and size. From any
/// other connection, or without a live terminal, nothing is done.
pub proof fn law_terminal_commands_reach_their_target(
    lease: FederationLease,
    host: HostFacts,
    epoch: AcceptEpoch,
    connid: ConnId,
    terminal_id: String,
    bytes: Vec<u8>,
    cols: u16,
    rows: u16,
    action: FederationAction,
)
    ensures
        ({
            let driven = host.target_is_live && lease.slot == (Slot::Held {
                phase: Phase::Mounted,
                epoch,
                connid,
            });
            let input = FederationCommand::SendInput { epoch, connid, terminal_id, bytes };
            let resize = FederationCommand::Resize { epoch, connid, terminal_id, cols, rows };
            let nudge = FederationCommand::NudgeRedraw { epoch, connid, terminal_id };
            &&& action_for(lease, host, input, action) && driven ==> {
                &&& action is SendInput
                &&& action->SendInput_terminal_id == terminal_id
                &&& action->SendInput_bytes == bytes
            }
            &&& action_for(lease, host, resize, action) && driven ==> {
                &&& action is Resize
                &&& action->Resize_terminal_id == terminal_id
                &&& action->Resize_cols == cols
                &&& action->Resize_rows == rows
                &&& action->Resize_cell_width_px == 0
                &&& action->Resize_cell_height_px == 0
            }
            &&& action_for(lease, host, nudge, action) && driven ==> {
                &&& action is NudgeRedraw
                &&& action->NudgeRedraw_terminal_id == terminal_id
            }
            &&& !driven && (action_for(lease, host, input, action) || action_for(
                lease,
                host,
                resize,
                action,
            ) || action_for(lease, host, nudge, action)) ==> action is Done
        }),
{
}

/// A split runs as it was asked for: the request names the pane of the command
/// and carries its direction, ratio and focus, so two splits that differ in any
/// of these lead to requests that differ in it. A pane close names the pane of
/// the command.
pub proof fn law_pane_requests_carry_the_command(
    lease: FederationLease,
    host: HostFacts,
    target_pane_id: String,
    direction: SplitDirection,
    ratio_bits: Option<u32>,
    focus: bool,
    action: FederationAction,
)
    ensures
        action_for(
            lease,
            host,
            FederationCommand::SplitPane { target_pane_id, direction, ratio_bits, focus },
            action,
        ) ==> {
            &&& action is ReplySplit
            &&& action->ReplySplit_0.method is PaneSplit
            &&& action->ReplySplit_0.method->PaneSplit_target_pane_id == Some(target_pane_id)
            &&& action->ReplySplit_0.method->PaneSplit_direction == direction
            &&& action->ReplySplit_0.method->PaneSplit_ratio_bits == ratio_bits
            &&& action->ReplySplit_0.method->PaneSplit_focus == focus
            &&& action->ReplySplit_0.method->PaneSplit_workspace_id is None
            &&& action->ReplySplit_0.method->PaneSplit_cwd is None
            &&& action->ReplySplit_0.method->PaneSplit_env@.len() == 0
            &&& action->ReplySplit_0.method->PaneSplit_right_click == RightClickPolicy::Default
        },
        action_for(lease, host, FederationCommand::ClosePane { target_pane_id }, action) ==> {
            &&& action is ReplyClosedPane
            &&& action->ReplyClosedPane_0.method is PaneClose
            &&& action->ReplyClosedPane_0.method->PaneClose_pane_id == target_pane_id
        },
{
}

/// What only reads is answered for exactly what it names, whoever holds the
/// lease.
pub proof fn law_reads_are_answered_for_what_they_name(
    lease: FederationLease,
    host: HostFacts,
    since: u64,
    terminal_id: String,
    action: FederationAction,
)
    ensures
        action_for(lease, host, FederationCommand::EventsAfter(since), action) ==> action
            is ReplyEventsAfter && action->ReplyEventsAfter_0 == since,
        action_for(lease, host, FederationCommand::SubscribeOutput(terminal_id), action) ==> action
            is ReplySubscription && action->ReplySubscription_0 == terminal_id,
        action_for(lease, host, FederationCommand::ScrollbackReplay(terminal_id), action) ==> action
            is ReplyScrollback && action->ReplyScrollback_0 == terminal_id,
        action_for(lease, host, FederationCommand::Snapshot, action) ==> action is ReplySnapshot
            && action->ReplySnapshot_0.method is SessionSnapshot,
        action_for(lease, host, FederationCommand::AgentStatuses, action) ==> action
            is ReplyAgentStatuses && action->ReplyAgentStatuses_0.method is AgentList,
{
}

/// Admission is answered as the lease stands: accepted exactly where it is open,
/// the epoch is current and nobody holds the slot, and then the slot is reserved
/// for the asking connection. Otherwise the answer tells the first obstacle and
/// the lease stays as it is.
pub proof fn law_admission_is_answered_as_the_lease_stands(
    lease: FederationLease,
    host: HostFacts,
    epoch: AcceptEpoch,
    connid: ConnId,
    action: FederationAction,
)
    requires
        action_for(lease, host, FederationCommand::AcquireController { epoch, connid }, action),
    ensures
        ({
            let after = lease_after(lease, FederationCommand::AcquireController { epoch, connid });
            let free = lease.slot == Slot::Free;
            let current = epoch == lease.epoch;
            &&& action is ReplyAdmission
            &&& lease.admission_open && current && free ==> action->ReplyAdmission_0
                == Admission::Accepted && after.slot == (Slot::Held {
                phase: Phase::Reserved,
                epoch,
                connid,
            })
            &&& lease.admission_open && current && !free ==> action->ReplyAdmission_0
                == Admission::Busy && after == lease
            &&& lease.admission_open && !current ==> action->ReplyAdmission_0
                == Admission::StaleEpoch && after == lease
            &&& !lease.admission_open ==> action->ReplyAdmission_0 == Admission::Closed && after
                == lease
            &&& after.epoch == lease.epoch && after.admission_open == lease.admission_open
        }),
{
}

/// A mount succeeds exactly for the connection that holds the current
/// reservation: it becomes the controller and gets a snapshot. Any other mount
/// is told that nothing was mounted, and changes nothing.
pub proof fn law_only_the_reservation_mounts(
    lease: FederationLease,
    host: HostFacts,
    epoch: AcceptEpoch,
    connid: ConnId,
    action: FederationAction,
)
    requires
        action_for(lease, host, FederationCommand::Mount { epoch, connid }, action),
    ensures
        ({
            let after = lease_after(lease, FederationCommand::Mount { epoch, connid });
            let reserved = epoch == lease.epoch && lease.slot == (Slot::Held {
                phase: Phase::Reserved,
                epoch,
                connid,
            });
            &&& reserved ==> after.slot == (Slot::Held { phase: Phase::Mounted, epoch, connid })
                && after.epoch == lease.epoch && after.admission_open == lease.admission_open
            &&& reserved ==> action is ReplyMounted && action->ReplyMounted_0.method
                is SessionSnapshot
            &&& !reserved ==> after == lease && action is ReplyNotMounted
        }),
{
}

/// A release frees the slot exactly where the releasing connection holds it, in
/// whichever phase. Apart from admission, mount and release, no command changes
/// the lease.
pub proof fn law_the_holder_frees_the_slot(
    lease: FederationLease,
    command: FederationCommand,
    epoch: AcceptEpoch,
    connid: ConnId,
)
    ensures
        ({
            let after = lease_after(lease, FederationCommand::Release { epoch, connid });
            let held = lease.slot == (Slot::Held { phase: Phase::Reserved, epoch, connid })
                || lease.slot == (Slot::Held { phase: Phase::Mounted, epoch, connid });
            &&& held ==> after.slot == Slot::Free
            &&& !held ==> after.slot == lease.slot
            &&& after.epoch == lease.epoch && after.admission_open == lease.admission_open
        }),
        !(command is AcquireController || command is Mount || command is Release) ==> lease_after(
            lease,
            command,
        ) == lease,
{
}

/// Sizing or repainting a live terminal of the session claims it for the mounted
/// controller; giving it back drops exactly that claim. Claims on other
/// terminals stay.
pub proof fn law_driving_claims_the_terminal(
    lease: FederationLease,
    claims: Set<Seq<char>>,
    host: HostFacts,
    command: FederationCommand,
    epoch: AcceptEpoch,
    connid: ConnId,
    at: int,
    other: Seq<char>,
)
    requires
        lease.slot == (Slot::Held { phase: Phase::Mounted, epoch, connid }),
        gated_on(command) == Some((epoch, connid)),
        0 <= at < host.terminal_ids@.len(),
        host.resolved_terminal matches Some(id) && host.terminal_ids@[at]@ == id@,
    ensures
        ({
            let id = host.resolved_terminal->0@;
            let left = claims_under(
                claims_driven(claims, lease, host, command),
                lease_after(lease, command),
            );
            &&& (command is Resize || command is NudgeRedraw) && host.target_is_live
                ==> left.contains(id)
            &&& (command is Resize || command is NudgeRedraw) && !host.target_is_live ==> left
                == claims
            &&& command is ReleaseTerminalSize ==> !left.contains(id)
            &&& other != id ==> (left.contains(other) <==> claims.contains(other))
        }),
{
    assert(lease_after(lease, command).is_controller(epoch, connid));
    assert(host.terminal_ids@[at]@ == host.resolved_terminal->0@);
}

/// While a controller is mounted and stays so, no command but these touches a
/// claim.
pub proof fn law_other_commands_leave_the_claims(
    lease: FederationLease,
    claims: Set<Seq<char>>,
    host: HostFacts,
    command: FederationCommand,
    epoch: AcceptEpoch,
    connid: ConnId,
)
    requires
        lease.slot == (Slot::Held { phase: Phase::Mounted, epoch, connid }),
        !(command is Resize || command is NudgeRedraw || command is ReleaseTerminalSize),
        command matches FederationCommand::Release { epoch: by_epoch, connid: by } ==> by_epoch
            != epoch || by != connid,
    ensures
        claims_under(
            claims_driven(claims, lease, host, command),
            lease_after(lease, command),
        ) == claims,
{
    assert(lease_after(lease, command).is_controller(epoch, connid));
}

/// Once the controller's own release frees the slot, no claim is left.
pub proof fn law_release_drops_every_claim(
    lease: FederationLease,
    claims: Set<Seq<char>>,
    host: HostFacts,
    epoch: AcceptEpoch,
    connid: ConnId,
    terminal: Seq<char>,
)
    requires
        lease.slot == (Slot::Held { phase: Phase::Mounted, epoch, connid }),
    ensures
        !claims_under(
            claims_driven(claims, lease, host, FederationCommand::Release { epoch, connid }),
            lease_after(lease, FederationCommand::Release { epoch, connid }),
        ).contains(terminal),
{
}

/// A reply carries the ids of what the session made, whatever else the answer
/// says; and without a success there is never an id in it.
pub proof fn law_replies_carry_what_was_made<S>(
    workspace_id: String,
    tab_id: String,
    pane_id: String,
    terminal_id: String,
    success: Option<SuccessResult<S>>,
    text: Option<Seq<char>>,
)
    ensures
        split_reply_view(
            Some(SuccessResult::<S>::PaneInfo { pane_id, terminal_id }),
            text,
        ) == Ok::<(Seq<char>, Seq<char>), Seq<char>>((pane_id@, terminal_id@)),
        create_workspace_reply_view(
            Some(
                SuccessResult::<S>::WorkspaceCreated { workspace_id, tab_id, pane_id, terminal_id },
            ),
            text,
        ) == Ok::<(Seq<char>, Seq<char>, Seq<char>, Seq<char>), Seq<char>>(
            (workspace_id@, tab_id@, pane_id@, terminal_id@),
        ),
        create_tab_reply_view(
            Some(SuccessResult::<S>::TabCreated { workspace_id, tab_id, pane_id, terminal_id }),
            text,
        ) == Ok::<(Seq<char>, Seq<char>, Seq<char>, Seq<char>), Seq<char>>(
            (workspace_id@, tab_id@, pane_id@, terminal_id@),
        ),
        split_reply_view(success, text) is Ok ==> success matches Some(
            SuccessResult::PaneInfo { .. },
        ),
        create_workspace_reply_view(success, text) is Ok ==> success matches Some(
            SuccessResult::WorkspaceCreated { .. },
        ),
        create_tab_reply_view(success, text) is Ok ==> success matches Some(
            SuccessResult::TabCreated { .. },
        ),
        close_pane_reply_view(true, text, text) is Ok,
        close_pane_reply_view(false, text, text) is Err,
{
}

/// A failed request keeps the session's error code in front of its text. A split
/// reads as the session's message, a pane close as code and message; a create
/// says only that it failed, never how.
pub proof fn law_failures_keep_the_code<S>(code: Seq<char>, message: Seq<char>)
    ensures
        split_reply_view::<S>(None, Some(message)) == Err::<(Seq<char>, Seq<char>), Seq<char>>(
            message,
        ),
        split_reply_view::<S>(None, None) == Err::<(Seq<char>, Seq<char>), Seq<char>>(
            "pane split failed"@,
        ),
        close_pane_reply_view(false, Some(code), Some(message)) == Err::<(), Seq<char>>(
            code + ": "@ + message,
        ),
        close_pane_reply_view(false, None, None) == Err::<(), Seq<char>>(
            "pane_close_failed"@ + ": "@ + "pane close failed"@,
        ),
        create_workspace_reply_view::<S>(None, Some(code)) == Err::<
            (Seq<char>, Seq<char>, Seq<char>, Seq<char>),
            Seq<char>,
        >(code + ": "@ + "workspace could not be created on the remote host"@),
        create_workspace_reply_view::<S>(None, None) == Err::<
            (Seq<char>, Seq<char>, Seq<char>, Seq<char>),
            Seq<char>,
        >(
            "workspace_create_failed"@ + ": "@
                + "workspace could not be created on the remote host"@,
        ),
        create_tab_reply_view::<S>(None, Some(code)) == Err::<
            (Seq<char>, Seq<char>, Seq<char>, Seq<char>),
            Seq<char>,
        >(code + ": "@ + "tab could not be created on the remote host"@),
        create_tab_reply_view::<S>(None, None) == Err::<
            (Seq<char>, Seq<char>, Seq<char>, Seq<char>),
            Seq<char>,
        >("tab_create_failed"@ + ": "@ + "tab could not be created on the remote host"@),
{
}

/// The bytes of an input never reach the log: two inputs for one terminal that
/// are equally long read the same there.
pub proof fn law_input_bytes_are_not_logged(left: FederationCommand, right: FederationCommand)
    requires
        left is SendInput,
        right is SendInput,
        left->SendInput_terminal_id@ == right->SendInput_terminal_id@,
        left->SendInput_bytes@.len() == right->SendInput_bytes@.len(),
    ensures
        left.log_text() == right.log_text(),
{
}

/// A snapshot of the session is the one that was answered, and empty where
/// something else was.
pub proof fn law_snapshots_are_those_answered<S>(
    success: Option<SuccessResult<S>>,
    empty: S,
    snapshot: S,
)
    requires
        call_ensures(session_snapshot::<S>, (success, empty), snapshot),
    ensures
        success is Some && success->0 is SessionSnapshot ==> snapshot
            == success->0->SessionSnapshot_snapshot,
        success is None || !(success->0 is SessionSnapshot) ==> snapshot == empty,
{
}

/// Every event keeps its number and what happened, in order.
pub proof fn law_events_keep_their_numbers<K>(
    events: Vec<(u64, EventEnvelope<K>)>,
    kinds: Vec<(u64, K)>,
)
    requires
        call_ensures(event_kinds::<K>, (events,), kinds),
    ensures
        kinds@.len() == events@.len(),
        forall|i: int|
            0 <= i < kinds@.len() ==> (#[trigger] kinds@[i]).0 == events@[i].0 && kinds@[i].1
                == events@[i].1.event,
{
}

/// A terminal with a history replays it byte for byte; one without replays
/// nothing.
pub proof fn law_histories_are_replayed(runtime: Option<Option<String>>, replay: Vec<u8>)
    requires
        call_ensures(scrollback_replay, (runtime,), replay),
    ensures
        runtime is Some && runtime->0 is Some ==> replay@ == vstd::utf8::encode_utf8(
            runtime->0->0@,
        ),
        runtime is None ==> replay@.len() == 0,
        runtime is Some && runtime->0 is None ==> replay@.len() == 0,
{
}

/// Every agent that is listed is told with its terminal, its status and its name,
/// in order.
pub proof fn law_listed_agents_are_told<S>(
    success: Option<SuccessResult<S>>,
    statuses: Vec<(String, AgentStatus, Option<String>)>,
)
    requires
        call_ensures(agent_statuses::<S>, (success,), statuses),
    ensures
        success is Some && success->0 is AgentList ==> {
            let agents = success->0->agents;
            &&& statuses@.len() == agents@.len()
            &&& forall|i: int|
                0 <= i < statuses@.len() ==> (#[trigger] statuses@[i]).0 == agents@[i].terminal_id
                    && statuses@[i].1 == agents@[i].agent_status && statuses@[i].2
                    == agents@[i].agent
        },
        success is None || !(success->0 is AgentList) ==> statuses@.len() == 0,
{
}

/// What the mounted controller asks to be closed is closed: exactly the tab or the
/// workspace that it names. From anybody else it is refused.
pub proof fn law_closing_is_dispatched(
    claims: &mut IdSet,
    lease: &mut FederationLease,
    host: HostFacts,
    epoch: AcceptEpoch,
    connid: ConnId,
    target: String,
    command: FederationCommand,
    action: FederationAction,
)
    requires
        call_ensures(dispatch, (claims, lease, &host, command), action),
        command == (FederationCommand::CloseTabRemote { epoch, connid, target_tab_id: target })
            || command == (FederationCommand::CloseWorkspaceRemote {
            epoch,
            connid,
            target_workspace_id: target,
        }),
    ensures
        *final(lease) == *old(lease),
        ({
            let controller = old(lease).slot == (Slot::Held {
                phase: Phase::Mounted,
                epoch,
                connid,
            });
            &&& controller && command is CloseTabRemote ==> action == (FederationAction::CloseTab {
                target_tab_id: target,
            })
            &&& controller && command is CloseWorkspaceRemote ==> action == (
            FederationAction::CloseWorkspace { target_workspace_id: target })
            &&& !controller ==> action is ReplyRefused && action->ReplyRefused_0@
                == "not the mounted controller"@
        }),
{
    let controller = old(lease).slot == (Slot::Held { phase: Phase::Mounted, epoch, connid });
    if controller {
        law_the_controller_closes_what_it_names(*old(lease), host, epoch, connid, target, action);
    } else {
        law_others_close_nothing(*old(lease), host, epoch, connid, target, command, action);
    }
}

/// What the mounted controller sends to a live terminal reaches that terminal as it
/// was sent; from anybody else, or for a terminal that is gone, nothing is done.
pub proof fn law_driving_is_dispatched(
    claims: &mut IdSet,
    lease: &mut FederationLease,
    host: HostFacts,
    epoch: AcceptEpoch,
    connid: ConnId,
    terminal_id: String,
    bytes: Vec<u8>,
    cols: u16,
    rows: u16,
    command: FederationCommand,
    action: FederationAction,
)
    requires
        call_ensures(dispatch, (claims, lease, &host, command), action),
        command == (FederationCommand::SendInput { epoch, connid, terminal_id, bytes }) || command
            == (FederationCommand::Resize { epoch, connid, terminal_id, cols, rows }) || command
            == (FederationCommand::NudgeRedraw { epoch, connid, terminal_id }),
    ensures
        ({
            let driven = host.target_is_live && old(lease).slot == (Slot::Held {
                phase: Phase::Mounted,
                epoch,
                connid,
            });
            &&& driven && command is SendInput ==> action == (FederationAction::SendInput {
                terminal_id,
                bytes,
            })
            &&& driven && command is Resize ==> action == (FederationAction::Resize {
                terminal_id,
                rows,
                cols,
                cell_width_px: 0,
                cell_height_px: 0,
            })
            &&& driven && command is NudgeRedraw ==> action == (FederationAction::NudgeRedraw {
                terminal_id,
            })
            &&& !driven ==> action is Done
        }),
{
    law_terminal_commands_reach_their_target(
        *old(lease),
        host,
        epoch,
        connid,
        terminal_id,
        bytes,
        cols,
        rows,
        action,
    );
}

/// A split and a close of a pane are asked for as they were commanded.
pub proof fn law_pane_commands_are_dispatched(
    claims: &mut IdSet,
    lease: &mut FederationLease,
    host: HostFacts,
    command: FederationCommand,
    action: FederationAction,
)
    requires
        call_ensures(dispatch, (claims, lease, &host, command), action),
    ensures
        command is SplitPane ==> {
            let method = action->ReplySplit_0.method;
            &&& action is ReplySplit
            &&& method is PaneSplit
            &&& method->PaneSplit_target_pane_id == Some(command->SplitPane_target_pane_id)
            &&& method->PaneSplit_direction == command->SplitPane_direction
            &&& method->PaneSplit_ratio_bits == command->SplitPane_ratio_bits
            &&& method->PaneSplit_focus == command->SplitPane_focus
        },
        command is ClosePane ==> {
            &&& action is ReplyClosedPane
            &&& action->ReplyClosedPane_0.method is PaneClose
            &&& action->ReplyClosedPane_0.method->PaneClose_pane_id
                == command->ClosePane_target_pane_id
        },
        command is EventsAfter ==> action == FederationAction::ReplyEventsAfter(
            command->EventsAfter_0,
        ),
        command is SubscribeOutput ==> action == FederationAction::ReplySubscription(
            command->SubscribeOutput_0,
        ),
        command is ScrollbackReplay ==> action == FederationAction::ReplyScrollback(
            command->ScrollbackReplay_0,
        ),
{
    if command is SplitPane {
        law_pane_requests_carry_the_command(
            *old(lease),
            host,
            command->SplitPane_target_pane_id,
            command->SplitPane_direction,
            command->SplitPane_ratio_bits,
            command->SplitPane_focus,
            action,
        );
    }
}

/// The lease changes as its commands say: a free slot is reserved, a reservation is
/// mounted, and the holder frees it. Every other command leaves it as it is.
pub proof fn law_dispatch_moves_the_lease(
    claims: &mut IdSet,
    lease: &mut FederationLease,
    host: HostFacts,
    command: FederationCommand,
    action: FederationAction,
)
    requires
        call_ensures(dispatch, (claims, lease, &host, command), action),
    ensures
        final(lease).epoch == old(lease).epoch,
        final(lease).admission_open == old(lease).admission_open,
        command is AcquireController ==> {
            let free = old(lease).admission_open && old(lease).slot is Free
                && command->AcquireController_epoch == old(lease).epoch;
            &&& free ==> action == FederationAction::ReplyAdmission(Admission::Accepted)
                && final(lease).slot == (Slot::Held {
                phase: Phase::Reserved,
                epoch: command->AcquireController_epoch,
                connid: command->AcquireController_connid,
            })
            &&& !free ==> final(lease).slot == old(lease).slot && action is ReplyAdmission && !(
            action->ReplyAdmission_0 is Accepted)
        },
        command is Mount ==> {
            let reserved = command->Mount_epoch == old(lease).epoch && old(lease).slot == (
            Slot::Held {
                phase: Phase::Reserved,
                epoch: command->Mount_epoch,
                connid: command->Mount_connid,
            });
            &&& reserved ==> action is ReplyMounted && final(lease).slot == (Slot::Held {
                phase: Phase::Mounted,
                epoch: command->Mount_epoch,
                connid: command->Mount_connid,
            })
            &&& !reserved ==> action is ReplyNotMounted && final(lease).slot == old(lease).slot
        },
        command is Release ==> {
            let holds = old(lease).slot is Held && old(lease).slot->epoch == command->Release_epoch
                && old(lease).slot->connid == command->Release_connid;
            &&& holds ==> final(lease).slot is Free
            &&& !holds ==> final(lease).slot == old(lease).slot
        },
        !(command is AcquireController) && !(command is Mount) && !(command is Release)
            ==> *final(lease) == *old(lease),
{
}

/// What a create made is replied by all its numbers. A create that went on to
/// another host, and an answer that names nothing, are failures, each with its own
/// reason; every other failure keeps its code.
pub proof fn law_creates_are_replied<S>(
    success: Option<SuccessResult<S>>,
    code: Option<String>,
    workspace: Result<CreatedIds, String>,
    tab: Result<CreatedIds, String>,
)
    ensures
        call_ensures(create_workspace_reply::<S>, (success, code), workspace) ==> {
            let made = success is Some && success->0 is WorkspaceCreated;
            let redirected = success is Some && success->0 is WorkspaceCreateRequested;
            &&& workspace is Ok <==> made
            &&& made ==> {
                let ids = workspace->Ok_0;
                &&& ids.0@ == success->0->WorkspaceCreated_workspace_id@
                &&& ids.1@ == success->0->WorkspaceCreated_tab_id@
                &&& ids.2@ == success->0->WorkspaceCreated_pane_id@
                &&& ids.3@ == success->0->WorkspaceCreated_terminal_id@
            }
            &&& redirected ==> workspace->Err_0@ == WORKSPACE_CREATE_REDIRECTED@
            &&& success is Some && !made && !redirected ==> workspace->Err_0@
                == WORKSPACE_CREATE_UNEXPECTED@
            &&& success is None && code is Some ==> workspace->Err_0@ == code->0@ + ": "@
                + "workspace could not be created on the remote host"@
        },
        call_ensures(create_tab_reply::<S>, (success, code), tab) ==> {
            let made = success is Some && success->0 is TabCreated;
            let redirected = success is Some && success->0 is TabCreateRequested;
            &&& tab is Ok <==> made
            &&& made ==> {
                let ids = tab->Ok_0;
                &&& ids.0@ == success->0->TabCreated_workspace_id@
                &&& ids.1@ == success->0->TabCreated_tab_id@
                &&& ids.2@ == success->0->TabCreated_pane_id@
                &&& ids.3@ == success->0->TabCreated_terminal_id@
            }
            &&& redirected ==> tab->Err_0@ == TAB_CREATE_REDIRECTED@
            &&& success is Some && !made && !redirected ==> tab->Err_0@ == TAB_CREATE_UNEXPECTED@
            &&& success is None && code is Some ==> tab->Err_0@ == code->0@ + ": "@
                + "tab could not be created on the remote host"@
        },
{
}

/// A split is replied by the pane and the terminal that it made, or by why it made
/// none; a pane that was closed is replied by nothing, and one that was not by its
/// code and message.
pub proof fn law_pane_commands_are_replied<S>(
    success: Option<SuccessResult<S>>,
    closed: bool,
    code: Option<String>,
    message: Option<String>,
    split: Result<(String, String), String>,
    close: Result<(), String>,
)
    ensures
        call_ensures(split_reply::<S>, (success, message), split) ==> {
            let made = success is Some && success->0 is PaneInfo;
            &&& split is Ok <==> made
            &&& made ==> split->Ok_0.0@ == success->0->PaneInfo_pane_id@ && split->Ok_0.1@
                == success->0->PaneInfo_terminal_id@
            &&& !made && message is Some ==> split->Err_0@ == message->0@
            &&& !made && message is None ==> split->Err_0@ == "pane split failed"@
        },
        call_ensures(close_pane_reply, (closed, code, message), close) ==> {
            &&& close is Ok <==> closed
            &&& !closed && code is Some && message is Some ==> close->Err_0@ == code->0@ + ": "@
                + message->0@
        },
{
}

} // verus!
