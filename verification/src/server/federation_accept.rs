//! One federation connection: its frames, its outbound queue, its mount, its
//! clipboard staging, and what each inbound frame leads to.
//!
//! Threads, sockets and channels are the caller's. Here stands what they decide
//! with: the bounded outbound queue that fails fast, the routing of inbound
//! frames, the polling of events and agent statuses, and the order of teardown.

use vstd::prelude::*;

use crate::idset::IdSet;
use crate::server::client_accept;
use crate::server::client_accept::{AcceptOutcome, AcceptStep};
use crate::server::federation_actor;
use crate::server::federation_actor::AgentStatus;
use crate::server::federation_actor::FederationCommand;
use crate::server::federation_actor::SplitDirection;
use crate::server::federation_fault::FirstCauseCell;
use crate::server::federation_fault::TunnelExit;
use crate::server::federation_lease::AcceptEpoch;
use crate::server::federation_lease::Admission;
use crate::server::federation_lease::ConnId;
use crate::server::federation_lease::FederationLease;
use crate::text;

verus! {

/// How long a connection has to complete its handshake, in seconds.
pub const FEDERATION_HANDSHAKE_TIMEOUT_SECS: u64 = 4;

/// The mount generation stamped on every outbound terminal and agent frame.
pub const MOUNT_GENERATION: u64 = 1;

/// Poll cadence of the outbound side, in milliseconds.
pub const OUTBOUND_POLL_INTERVAL_MS: u64 = 25;

/// Agent statuses are polled once every so many event ticks.
pub const AGENT_STATUS_POLL_DIVISOR: u32 = 4;

/// Depth of the bounded outbound queue.
pub const EGRESS_QUEUE_CAP: usize = 1024;

/// How many stage requests one connection may have in the system at once,
/// counting the one being staged.
pub const MAX_CONCURRENT_STAGES: usize = 2;

/// What two peers can agree on.
#[derive(Debug, Clone, Copy, PartialEq, Eq, Structural)]
pub enum Capability {
    ScrollbackReplay,
    AgentStatus,
    FileStaging,
}

/// Why a clipboard payload was not staged.
#[derive(Debug, Clone, Copy, PartialEq, Eq, Structural)]
pub enum ClipboardStageFailure {
    /// The payload is not decodable.
    InvalidPayload,
    /// Too many requests are in the system; retry.
    Busy,
    /// There is no staging directory, or its path is no text.
    StagingUnavailable,
    /// The file could not be written.
    WriteFailed,
    /// The payload is too large.
    TooLarge,
}

#[derive(Debug)]
pub struct ClipboardStageRequest {
    pub request_id: u64,
    pub payload_base64: String,
    pub original_filename: String,
}

#[derive(Debug)]
pub enum ClipboardStageResponse {
    Staged { request_id: u64, path: String },
    Failed { request_id: u64, failure: ClipboardStageFailure },
}

#[derive(Debug)]
pub struct SplitPaneRequest {
    pub request_id: u64,
    pub target_pane_id: String,
    pub direction: SplitDirection,
    pub ratio_bits: Option<u32>,
    pub focus: bool,
}

#[derive(Debug)]
pub enum SplitPaneResponse {
    Created { request_id: u64, new_pane_id: String, new_terminal_id: String },
    Failed { request_id: u64, reason: String },
}

/// A snapshot of the session, with the cursor that events resume from.
#[derive(Debug)]
pub struct MountSnapshot<S> {
    pub server_instance_id: String,
    pub snapshot: S,
    pub cursor: u64,
}

#[derive(Debug)]
pub enum TerminalChannelMessage {
    Open { terminal_id: String, mount_generation: u64, replay: Vec<u8> },
    Output { terminal_id: String, mount_generation: u64, bytes: Vec<u8> },
    Input { terminal_id: String, mount_generation: u64, bytes: Vec<u8> },
    Resize { terminal_id: String, mount_generation: u64, cols: u16, rows: u16 },
    Close { terminal_id: String, mount_generation: u64 },
}

#[derive(Debug)]
pub enum EventChannelMessage<K> {
    /// The events `from + 1 ..= to` are lost.
    Gap { from: u64, to: u64 },
    Frame { source_seq: u64, kind: K },
}

#[derive(Debug)]
pub struct AgentStatusMessage {
    pub terminal_id: String,
    pub mount_generation: u64,
    pub status: AgentStatus,
    pub agent: Option<String>,
}

/// The opening frame of a link.
#[derive(Debug)]
pub struct Handshake {
    pub federation_protocol_version: u32,
    pub capabilities: Vec<Capability>,
    pub server_instance_id: String,
}

#[derive(Debug)]
pub enum HandshakeResponse {
    Accept { agreed_capabilities: Vec<Capability> },
    Reject { reason: String },
}

/// One frame of a federation link. `K` is the kind of an event and `S` a
/// session snapshot.
#[derive(Debug)]
pub enum FederationMessage<K, S> {
    Handshake(Handshake),
    HandshakeResponse(HandshakeResponse),
    MountSnapshot(MountSnapshot<S>),
    Terminal(TerminalChannelMessage),
    Event(EventChannelMessage<K>),
    AgentStatus(AgentStatusMessage),
    Fault(TunnelExit),
    SplitPaneRequest(SplitPaneRequest),
    SplitPaneResponse(SplitPaneResponse),
    SnapshotRequest,
    SnapshotResponse(MountSnapshot<S>),
    ClipboardStageRequest(ClipboardStageRequest),
    ClipboardStageResponse(ClipboardStageResponse),
    /// A frame that this side never acts on.
    Other,
}

// ---------------------------------------------------------------------------
// Frames
// ---------------------------------------------------------------------------

/// The body length that a frame header claims: its second half, least
/// significant byte first.
pub open spec fn header_len(header: Seq<u8>) -> nat {
    (header[4] + 256 * header[5] + 65536 * header[6] + 16777216 * header[7]) as nat
}

/// The body length of a frame, from its eight header bytes. A length over the
/// largest channel cap is refused before anything is allocated for it.
pub fn frame_body_len(header: &[u8; 8], max: usize) -> (len: Result<usize, String>)
    requires
        max <= u64::MAX,
    ensures
        len is Ok <==> header_len(header@) <= max,
        len matches Ok(len) ==> len == header_len(header@),
        len matches Err(complaint) ==> complaint@ == "federation frame size "@ + text::decimal(
            header_len(header@),
        ) + " exceeds the largest channel cap "@ + text::decimal(max as nat),
{
    let claimed: u64 = header[4] as u64 + 256 * (header[5] as u64) + 65536 * (header[6] as u64)
        + 16777216 * (header[7] as u64);
    assert(claimed == header_len(header@));
    if claimed > max as u64 {
        let mut complaint = "federation frame size ".to_owned();
        complaint.append(text::decimal_text(claimed).as_str());
        complaint.append(" exceeds the largest channel cap ");
        complaint.append(text::decimal_text(max as u64).as_str());
        return Err(complaint);
    }
    Ok(claimed as usize)
}

/// Whether a decoded frame respects the cap of its own channel.
pub fn check_channel_cap(claimed_len: usize, channel_cap: usize) -> (checked: Result<(), String>)
    ensures
        checked is Ok <==> claimed_len <= channel_cap,
        checked matches Err(complaint) ==> complaint@ == "federation frame size "@ + text::decimal(
            claimed_len as nat,
        ) + " exceeds its channel's cap "@ + text::decimal(channel_cap as nat),
{
    if claimed_len > channel_cap {
        let mut complaint = "federation frame size ".to_owned();
        complaint.append(text::decimal_text(claimed_len as u64).as_str());
        complaint.append(" exceeds its channel's cap ");
        complaint.append(text::decimal_text(channel_cap as u64).as_str());
        return Err(complaint);
    }
    Ok(())
}

// ---------------------------------------------------------------------------
// Accepting and mounting
// ---------------------------------------------------------------------------

/// What this host offers to a peer.
pub fn federation_capabilities() -> (offered: Vec<Capability>)
    ensures
        offered@ == seq![
            Capability::ScrollbackReplay,
            Capability::AgentStatus,
            Capability::FileStaging,
        ],
{
    let offered = vec![
        Capability::ScrollbackReplay,
        Capability::AgentStatus,
        Capability::FileStaging,
    ];
    assert(offered@ =~= seq![
        Capability::ScrollbackReplay,
        Capability::AgentStatus,
        Capability::FileStaging,
    ]);
    offered
}

/// Decide what becomes of a connection of a peer that was accepted. It is served
/// under its id and the epoch that is current.
pub fn accept_pending_federation_connections(
    next_id: &mut u64,
    outcome: AcceptOutcome,
) -> (step: AcceptStep)
    ensures
        *final(next_id) == client_accept::id_after(*old(next_id), outcome),
        step == client_accept::step_for(*old(next_id), outcome),
{
    client_accept::accept_step(next_id, outcome)
}

/// Whether to go on dropping connections while none are taken: until nobody waits
/// or accepting fails.
pub fn reject_pending_federation_connections(outcome: AcceptOutcome) -> (again: bool)
    ensures
        again == (outcome is Accepted),
{
    match outcome {
        AcceptOutcome::Accepted { .. } => true,
        AcceptOutcome::WouldBlock | AcceptOutcome::Failed => false,
    }
}

/// What the opening frame of a link leads to: a handshake to negotiate, or the
/// end of a link that did not open with one.
pub fn opening_handshake<K, S>(first: Option<FederationMessage<K, S>>) -> (peer: Option<Handshake>)
    ensures
        peer == (match first {
            Some(FederationMessage::Handshake(peer)) => Some(peer),
            _ => None,
        }),
{
    match first {
        Some(FederationMessage::Handshake(peer)) => Some(peer),
        _ => None,
    }
}

/// The reply to a handshake once it was negotiated.
pub fn handshake_reply<K, S>(negotiated: Result<Vec<Capability>, String>) -> (reply:
    FederationMessage<K, S>)
    ensures
        reply == FederationMessage::<K, S>::HandshakeResponse(
            match negotiated {
                Ok(agreed_capabilities) => HandshakeResponse::Accept { agreed_capabilities },
                Err(reason) => HandshakeResponse::Reject { reason },
            },
        ),
{
    match negotiated {
        Ok(agreed_capabilities) => FederationMessage::HandshakeResponse(
            HandshakeResponse::Accept { agreed_capabilities },
        ),
        Err(reason) => FederationMessage::HandshakeResponse(HandshakeResponse::Reject { reason }),
    }
}

/// Where a connection stands on its way to a mounted session.
#[derive(Debug, Clone, Copy, PartialEq, Eq, Structural)]
pub enum MountState {
    /// The admission was asked for.
    Acquiring,
    /// The slot is reserved and the mount was asked for.
    Reserved,
    /// The mount succeeded and its snapshot is being written.
    Opening,
    /// The session runs.
    Running,
    /// The connection is over.
    Closed,
}

/// What happened to a connection that is mounting.
#[derive(Debug)]
pub enum MountEvent<S> {
    /// The admission was answered.
    Admitted(Admission),
    /// The mount was answered, with a snapshot and its cursor if it succeeded.
    Mounted(Option<(S, u64)>),
    /// The snapshot is on the wire.
    SnapshotWritten,
    /// The session's loop is gone, or a write failed.
    Failed,
    /// The running session ended.
    Ended,
}

/// What a mounting connection does next.
#[derive(Debug)]
pub enum MountAction<S> {
    /// Ask for the mount.
    Mount,
    /// Write the snapshot, as the first frame after the handshake.
    WriteSnapshot { snapshot: S, cursor: u64 },
    /// Run the session in both directions.
    Run,
    /// Give the reservation back and close.
    ReleaseAndClose,
    /// Close; nothing was reserved.
    Close,
}

impl MountState {
    /// Whether the connection holds the single-controller slot.
    pub open spec fn holds_the_slot(self) -> bool {
        self is Reserved || self is Opening || self is Running
    }
}

/// The next state and action of a connection that is mounting. Once the slot is
/// reserved, every way out gives it back.
pub open spec fn mount_transition<S>(state: MountState, event: MountEvent<S>) -> (
    MountState,
    MountAction<S>,
) {
    match (state, event) {
        (MountState::Acquiring, MountEvent::Admitted(Admission::Accepted)) => (
            MountState::Reserved,
            MountAction::Mount,
        ),
        (MountState::Reserved, MountEvent::Mounted(Some((snapshot, cursor)))) => (
            MountState::Opening,
            MountAction::WriteSnapshot { snapshot, cursor },
        ),
        (MountState::Opening, MountEvent::SnapshotWritten) => (
            MountState::Running,
            MountAction::Run,
        ),
        (state, _) => if state.holds_the_slot() {
            (MountState::Closed, MountAction::ReleaseAndClose)
        } else {
            (MountState::Closed, MountAction::Close)
        },
    }
}

/// Take a mounting connection one step further.
pub fn mount_step<S>(state: MountState, event: MountEvent<S>) -> (next: (
    MountState,
    MountAction<S>,
))
    ensures
        next == mount_transition(state, event),
{
    match state {
        MountState::Acquiring => match event {
            MountEvent::Admitted(Admission::Accepted) => (MountState::Reserved, MountAction::Mount),
            _ => (MountState::Closed, MountAction::Close),
        },
        MountState::Reserved => match event {
            MountEvent::Mounted(Some((snapshot, cursor))) => (
                MountState::Opening,
                MountAction::WriteSnapshot { snapshot, cursor },
            ),
            _ => (MountState::Closed, MountAction::ReleaseAndClose),
        },
        MountState::Opening => match event {
            MountEvent::SnapshotWritten => (MountState::Running, MountAction::Run),
            _ => (MountState::Closed, MountAction::ReleaseAndClose),
        },
        MountState::Running => (MountState::Closed, MountAction::ReleaseAndClose),
        MountState::Closed => (MountState::Closed, MountAction::Close),
    }
}

/// A reserved slot is given back exactly when the connection closes, and never
/// when nothing was reserved.
pub proof fn law_reservation_is_always_released<S>(state: MountState, event: MountEvent<S>)
    ensures
        ({
            let (next, action) = mount_transition(state, event);
            &&& action is ReleaseAndClose <==> state.holds_the_slot() && next is Closed
            &&& next is Closed <==> action is ReleaseAndClose || action is Close
            &&& action is WriteSnapshot ==> state is Reserved
            &&& action is Run ==> state is Opening
        }),
{
}

// ---------------------------------------------------------------------------
// The outbound queue
// ---------------------------------------------------------------------------

/// The outbound side of a connection: the bounded queue that one writer drains,
/// and how the connection is faring.
#[derive(Debug)]
pub struct Egress<K, S> {
    pub queue: Vec<FederationMessage<K, S>>,
    pub capacity: usize,
    pub writer_gone: bool,
    pub first_cause: FirstCauseCell,
    pub shutdown: bool,
}

/// An outbound side, for contracts.
pub struct EgressView<K, S> {
    pub queue: Seq<FederationMessage<K, S>>,
    pub capacity: usize,
    pub writer_gone: bool,
    pub first_cause: FirstCauseCell,
    pub shutdown: bool,
}

impl<K, S> EgressView<K, S> {
    /// Whether one more frame is taken.
    pub open spec fn accepts(self) -> bool {
        !self.writer_gone && self.queue.len() < self.capacity
    }

    /// The outbound side after a frame was offered: taken, or refused. A full
    /// queue ends the connection.
    pub open spec fn offered(self, message: FederationMessage<K, S>) -> EgressView<K, S> {
        if self.writer_gone {
            self
        } else if self.queue.len() < self.capacity {
            EgressView { queue: self.queue.push(message), ..self }
        } else {
            EgressView {
                first_cause: self.first_cause.after_all(seq![TunnelExit::EgressOverflow]),
                shutdown: true,
                ..self
            }
        }
    }

    /// Whether all of `messages` are taken.
    pub open spec fn accepts_all(self, messages: Seq<FederationMessage<K, S>>) -> bool {
        messages.len() == 0 || !self.writer_gone && self.queue.len() + messages.len()
            <= self.capacity
    }

    /// The outbound side after `messages` were offered in turn, up to the first
    /// that is refused.
    pub open spec fn offered_all(
        self,
        messages: Seq<FederationMessage<K, S>>,
    ) -> EgressView<K, S>
        decreases messages.len(),
    {
        if messages.len() == 0 {
            self
        } else if self.accepts() {
            self.offered(messages[0]).offered_all(messages.drop_first())
        } else {
            self.offered(messages[0])
        }
    }
}

/// Offering more than one frame in a row.
proof fn lemma_offered_all_push<K, S>(
    egress: EgressView<K, S>,
    messages: Seq<FederationMessage<K, S>>,
    last: FederationMessage<K, S>,
)
    requires
        egress.accepts_all(messages),
    ensures
        egress.offered_all(messages.push(last)) == egress.offered_all(messages).offered(last),
        egress.offered_all(messages).queue == egress.queue + messages,
        egress.offered_all(messages).writer_gone == egress.writer_gone,
        egress.offered_all(messages).capacity == egress.capacity,
    decreases messages.len(),
{
    if messages.len() > 0 {
        let next = egress.offered(messages[0]);
        lemma_offered_all_push(next, messages.drop_first(), last);
        assert(messages.push(last).drop_first() =~= messages.drop_first().push(last));
        assert(next.queue + messages.drop_first() =~= egress.queue + messages);
    } else {
        assert(messages.push(last).drop_first() =~= Seq::<FederationMessage<K, S>>::empty());
        assert(egress.queue + messages =~= egress.queue);
        assert(egress.offered(last).offered_all(messages.push(last).drop_first())
            == egress.offered(last));
    }
}

/// Frames after a refused one are not offered.
proof fn lemma_offered_all_stops<K, S>(
    egress: EgressView<K, S>,
    taken: Seq<FederationMessage<K, S>>,
    refused: FederationMessage<K, S>,
    rest: Seq<FederationMessage<K, S>>,
)
    requires
        egress.accepts_all(taken),
        !egress.offered_all(taken).accepts(),
    ensures
        egress.offered_all(taken.push(refused) + rest) == egress.offered_all(taken).offered(
            refused,
        ),
        !egress.accepts_all(taken.push(refused) + rest),
    decreases taken.len(),
{
    let all = taken.push(refused) + rest;
    if taken.len() > 0 {
        lemma_offered_all_push(egress, taken, refused);
        let next = egress.offered(taken[0]);
        lemma_offered_all_stops(next, taken.drop_first(), refused, rest);
        assert(all.drop_first() =~= taken.drop_first().push(refused) + rest);
        assert(all[0] == taken[0]);
    } else {
        assert(all[0] == refused);
    }
}

impl<K, S> Egress<K, S> {
    pub open spec fn view(&self) -> EgressView<K, S> {
        EgressView {
            queue: self.queue@,
            capacity: self.capacity,
            writer_gone: self.writer_gone,
            first_cause: self.first_cause,
            shutdown: self.shutdown,
        }
    }

    /// An empty outbound side of the given depth.
    pub fn new(capacity: usize) -> (egress: Egress<K, S>)
        ensures
            egress@.queue == Seq::<FederationMessage<K, S>>::empty(),
            egress@.capacity == capacity,
            !egress@.writer_gone,
            egress@.first_cause.cause is None,
            !egress@.shutdown,
    {
        Egress {
            queue: Vec::new(),
            capacity,
            writer_gone: false,
            first_cause: FirstCauseCell::new(),
            shutdown: false,
        }
    }

    /// Take the next frame to write.
    pub fn next_outbound(&mut self) -> (next: Option<FederationMessage<K, S>>)
        ensures
            next is Some <==> old(self)@.queue.len() > 0,
            next matches Some(message) ==> message == old(self)@.queue[0] && final(self)@ == (
            EgressView { queue: old(self)@.queue.drop_first(), ..old(self)@ }),
            next is None ==> final(self)@ == old(self)@,
    {
        if self.queue.len() == 0 {
            None
        } else {
            let message = self.queue.remove(0);
            assert(self.queue@ =~= old(self).queue@.drop_first());
            Some(message)
        }
    }

    /// A write failed: the writer is gone, which is recorded, and teardown is
    /// signalled.
    pub fn writer_failed(&mut self)
        ensures
            final(self)@ == (EgressView {
                writer_gone: true,
                first_cause: old(self)@.first_cause.after_all(seq![TunnelExit::WriterFailed]),
                shutdown: true,
                ..old(self)@
            }),
    {
        let _ = self.first_cause.set(TunnelExit::WriterFailed);
        self.writer_gone = true;
        self.shutdown = true;
    }
}

/// Offer one frame to the writer. A full queue means that the peer drains more
/// slowly than this side produces: the connection fails fast instead of
/// buffering without bound. `false` tells the caller to stop.
pub fn enqueue_outbound<K, S>(
    egress: &mut Egress<K, S>,
    message: FederationMessage<K, S>,
) -> (taken: bool)
    ensures
        taken == old(egress)@.accepts(),
        final(egress)@ == old(egress)@.offered(message),
{
    if egress.writer_gone {
        return false;
    }
    if egress.queue.len() < egress.capacity {
        egress.queue.push(message);
        true
    } else {
        let _ = egress.first_cause.set(TunnelExit::EgressOverflow);
        egress.shutdown = true;
        false
    }
}

/// The queue never holds more than its depth, and what was taken stays in the
/// order in which it was offered.
pub proof fn law_egress_is_bounded_and_ordered<K, S>(
    egress: EgressView<K, S>,
    messages: Seq<FederationMessage<K, S>>,
)
    requires
        egress.queue.len() <= egress.capacity,
    ensures
        egress.offered_all(messages).queue.len() <= egress.capacity,
        egress.queue.is_prefix_of(egress.offered_all(messages).queue),
        egress.offered_all(messages).queue.subrange(
            egress.queue.len() as int,
            egress.offered_all(messages).queue.len() as int,
        ).is_prefix_of(messages),
        egress.accepts_all(messages) ==> egress.offered_all(messages).queue == egress.queue
            + messages,
    decreases messages.len(),
{
    if messages.len() > 0 && egress.accepts() {
        let next = egress.offered(messages[0]);
        law_egress_is_bounded_and_ordered(next, messages.drop_first());
        let end = next.offered_all(messages.drop_first()).queue;
        let tail = end.subrange(next.queue.len() as int, end.len() as int);
        let taken = end.subrange(egress.queue.len() as int, end.len() as int);
        assert(taken[0] == next.queue[egress.queue.len() as int]);
        assert(taken =~= seq![messages[0]] + tail);
        assert(messages =~= seq![messages[0]] + messages.drop_first());
        assert forall|i: int| 0 <= i < taken.len() implies taken[i] == messages[i] by {
            if i > 0 {
                assert(tail[i - 1] == messages.drop_first()[i - 1]);
            }
        }
        assert(taken =~= messages.subrange(0, taken.len() as int));
        assert(egress.queue =~= end.subrange(0, egress.queue.len() as int));
        assert(next.queue + messages.drop_first() =~= egress.queue + messages);
    } else {
        let end = egress.offered_all(messages).queue;
        assert(end =~= egress.queue);
        assert(end.subrange(egress.queue.len() as int, end.len() as int) =~= messages.subrange(
            0,
            0,
        ));
        assert(messages.len() == 0 ==> egress.queue + messages =~= egress.queue);
    }
}

// ---------------------------------------------------------------------------
// Inbound frames
// ---------------------------------------------------------------------------

/// What reading the link brought.
#[derive(Debug)]
pub enum Inbound<K, S> {
    /// The peer closed the link.
    End,
    /// The link is broken.
    Broken,
    Frame(FederationMessage<K, S>),
}

/// What an inbound frame leads to.
#[derive(Debug)]
pub enum ReaderAction {
    /// Stop reading; `failed` where the link broke.
    Stop { failed: bool },
    /// Hand a command to the session; nobody waits for a reply.
    Forward(FederationCommand),
    /// Open the mirror of a terminal; see [`open_terminal`].
    OpenTerminal { terminal_id: String },
    /// Stop the terminal's output pump, then hand the command to the session.
    CloseTerminal { terminal_id: String, command: FederationCommand },
    /// Ask the session to split, then answer with [`split_pane_response`].
    Split { request_id: u64, command: FederationCommand },
    /// Ask the session for a snapshot, then answer with [`snapshot_response`].
    Snapshot,
    /// Admit or refuse a stage request; see [`handle_clipboard_stage_request`].
    Stage(ClipboardStageRequest),
    /// Nothing to do.
    Ignore,
}

/// The action for an inbound terminal frame of the connection `(epoch, connid)`.
pub open spec fn terminal_action(
    message: TerminalChannelMessage,
    epoch: AcceptEpoch,
    connid: ConnId,
) -> ReaderAction {
    match message {
        TerminalChannelMessage::Input { terminal_id, bytes, .. } => ReaderAction::Forward(
            FederationCommand::SendInput { epoch, connid, terminal_id, bytes },
        ),
        TerminalChannelMessage::Resize { terminal_id, cols, rows, .. } => ReaderAction::Forward(
            FederationCommand::Resize { epoch, connid, terminal_id, cols, rows },
        ),
        TerminalChannelMessage::Open { terminal_id, .. } => ReaderAction::OpenTerminal {
            terminal_id,
        },
        TerminalChannelMessage::Close { terminal_id, .. } => ReaderAction::CloseTerminal {
            terminal_id,
            command: FederationCommand::ReleaseTerminalSize { epoch, connid, terminal_id },
        },
        TerminalChannelMessage::Output { .. } => ReaderAction::Ignore,
    }
}

/// Route one inbound terminal frame.
pub fn handle_terminal_inbound(
    message: TerminalChannelMessage,
    epoch: AcceptEpoch,
    connid: ConnId,
) -> (action: ReaderAction)
    ensures
        action == terminal_action(message, epoch, connid),
{
    match message {
        TerminalChannelMessage::Input { terminal_id, bytes, .. } => ReaderAction::Forward(
            FederationCommand::SendInput { epoch, connid, terminal_id, bytes },
        ),
        TerminalChannelMessage::Resize { terminal_id, cols, rows, .. } => ReaderAction::Forward(
            FederationCommand::Resize { epoch, connid, terminal_id, cols, rows },
        ),
        TerminalChannelMessage::Open { terminal_id, .. } => ReaderAction::OpenTerminal {
            terminal_id,
        },
        TerminalChannelMessage::Close { terminal_id, .. } => {
            let released = terminal_id.clone();
            ReaderAction::CloseTerminal {
                terminal_id,
                command: FederationCommand::ReleaseTerminalSize {
                    epoch,
                    connid,
                    terminal_id: released,
                },
            }
        },
        TerminalChannelMessage::Output { .. } => ReaderAction::Ignore,
    }
}

/// The action for whatever reading the link brought.
pub open spec fn inbound_action<K, S>(
    inbound: Inbound<K, S>,
    epoch: AcceptEpoch,
    connid: ConnId,
) -> ReaderAction {
    match inbound {
        Inbound::End => ReaderAction::Stop { failed: false },
        Inbound::Broken => ReaderAction::Stop { failed: true },
        Inbound::Frame(FederationMessage::Fault(_)) => ReaderAction::Stop { failed: false },
        Inbound::Frame(FederationMessage::Terminal(message)) => terminal_action(
            message,
            epoch,
            connid,
        ),
        Inbound::Frame(FederationMessage::SplitPaneRequest(request)) => ReaderAction::Split {
            request_id: request.request_id,
            command: FederationCommand::SplitPane {
                target_pane_id: request.target_pane_id,
                direction: request.direction,
                ratio_bits: request.ratio_bits,
                focus: request.focus,
            },
        },
        Inbound::Frame(FederationMessage::ClipboardStageRequest(request)) => ReaderAction::Stage(
            request,
        ),
        Inbound::Frame(FederationMessage::SnapshotRequest) => ReaderAction::Snapshot,
        Inbound::Frame(_) => ReaderAction::Ignore,
    }
}

/// The cause that an inbound end of the connection records.
pub open spec fn inbound_cause<K, S>(inbound: Inbound<K, S>) -> Option<TunnelExit> {
    match inbound {
        Inbound::End | Inbound::Broken => Some(TunnelExit::PeerClosed),
        Inbound::Frame(FederationMessage::Fault(cause)) => Some(cause),
        Inbound::Frame(_) => None,
    }
}

/// Take what reading the link brought one step further: the end of the link and
/// a peer's fault are recorded as causes, everything else is routed.
pub fn reader_step<K, S>(
    inbound: Inbound<K, S>,
    epoch: AcceptEpoch,
    connid: ConnId,
    first_cause: &mut FirstCauseCell,
) -> (action: ReaderAction)
    ensures
        action == inbound_action(inbound, epoch, connid),
        *final(first_cause) == (match inbound_cause(inbound) {
            Some(cause) => old(first_cause).after_all(seq![cause]),
            None => *old(first_cause),
        }),
        action is Stop <==> inbound_cause(inbound) is Some,
{
    match inbound {
        Inbound::End => {
            let _ = first_cause.set(TunnelExit::PeerClosed);
            ReaderAction::Stop { failed: false }
        },
        Inbound::Broken => {
            let _ = first_cause.set(TunnelExit::PeerClosed);
            ReaderAction::Stop { failed: true }
        },
        Inbound::Frame(FederationMessage::Terminal(message)) => handle_terminal_inbound(
            message,
            epoch,
            connid,
        ),
        Inbound::Frame(FederationMessage::Fault(cause)) => {
            let _ = first_cause.set(cause);
            ReaderAction::Stop { failed: false }
        },
        Inbound::Frame(FederationMessage::SplitPaneRequest(request)) => {
            let SplitPaneRequest { request_id, target_pane_id, direction, ratio_bits, focus } =
                request;
            ReaderAction::Split {
                request_id,
                command: FederationCommand::SplitPane {
                    target_pane_id,
                    direction,
                    ratio_bits,
                    focus,
                },
            }
        },
        Inbound::Frame(FederationMessage::ClipboardStageRequest(request)) => ReaderAction::Stage(
            request,
        ),
        Inbound::Frame(FederationMessage::SnapshotRequest) => ReaderAction::Snapshot,
        Inbound::Frame(_) => ReaderAction::Ignore,
    }
}

/// What came back from the session.
#[derive(Debug)]
pub enum Reply<T> {
    /// The session's loop is gone.
    LoopGone,
    /// The request was taken, and its reply dropped.
    Dropped,
    Answered(T),
}

/// The frame that answers a split request. A session that is gone answers as a
/// failure instead of dropping the request.
pub fn split_pane_response(
    request_id: u64,
    reply: Reply<Result<(String, String), String>>,
) -> (response: SplitPaneResponse)
    ensures
        match reply {
            Reply::Answered(Ok((new_pane_id, new_terminal_id))) => response
                == (SplitPaneResponse::Created { request_id, new_pane_id, new_terminal_id }),
            Reply::Answered(Err(reason)) => response == (SplitPaneResponse::Failed {
                request_id,
                reason,
            }),
            Reply::LoopGone => response matches SplitPaneResponse::Failed { request_id: id, reason }
                && id == request_id && reason@ == "server event loop is gone"@,
            Reply::Dropped => response matches SplitPaneResponse::Failed { request_id: id, reason }
                && id == request_id && reason@ == "federation split-pane reply dropped"@,
        },
{
    match reply {
        Reply::Answered(Ok((new_pane_id, new_terminal_id))) => SplitPaneResponse::Created {
            request_id,
            new_pane_id,
            new_terminal_id,
        },
        Reply::Answered(Err(reason)) => SplitPaneResponse::Failed { request_id, reason },
        Reply::LoopGone => SplitPaneResponse::Failed {
            request_id,
            reason: "server event loop is gone".to_owned(),
        },
        Reply::Dropped => SplitPaneResponse::Failed {
            request_id,
            reason: "federation split-pane reply dropped".to_owned(),
        },
    }
}

/// The frame that answers a snapshot request; the empty snapshot at cursor zero
/// where the session is gone.
pub fn snapshot_response<S>(
    server_instance_id: &String,
    reply: Reply<(S, u64)>,
    empty: S,
) -> (response: MountSnapshot<S>)
    ensures
        response.server_instance_id == *server_instance_id,
        response.snapshot == (match reply {
            Reply::Answered(answer) => answer.0,
            _ => empty,
        }),
        response.cursor == (match reply {
            Reply::Answered(answer) => answer.1,
            _ => 0,
        }),
{
    let server_instance_id = server_instance_id.clone();
    match reply {
        Reply::Answered((snapshot, cursor)) => MountSnapshot {
            server_instance_id,
            snapshot,
            cursor,
        },
        _ => MountSnapshot { server_instance_id, snapshot: empty, cursor: 0 },
    }
}

// ---------------------------------------------------------------------------
// Mirrored terminals
// ---------------------------------------------------------------------------

/// The opening frame of a mirrored terminal.
pub open spec fn open_frame<K, S>(terminal_id: String, replay: Vec<u8>) -> FederationMessage<K, S> {
    FederationMessage::Terminal(
        TerminalChannelMessage::Open { terminal_id, mount_generation: MOUNT_GENERATION, replay },
    )
}

/// Open the mirror of a terminal once the session answered: `subscribed` tells
/// whether it knows the terminal, `replay` is its scrollback. The opening frame
/// is queued before the pump starts; then the child is asked to repaint, by the
/// command that is returned. Nothing happens for a terminal that is open
/// already or that the session does not know, and no pump starts where the
/// opening frame is refused.
pub fn open_terminal<K, S>(
    egress: &mut Egress<K, S>,
    pumps: &mut IdSet,
    terminal_id: String,
    subscribed: bool,
    replay: Vec<u8>,
    epoch: AcceptEpoch,
    connid: ConnId,
) -> (repaint: Option<FederationCommand>)
    requires
        old(pumps).wf(),
    ensures
        final(pumps).wf(),
        ({
            let wanted = !old(pumps)@.contains(terminal_id@) && subscribed;
            let opened = wanted && old(egress)@.accepts();
            &&& final(egress)@ == if wanted {
                old(egress)@.offered(open_frame(terminal_id, replay))
            } else {
                old(egress)@
            }
            &&& final(pumps)@ == if opened {
                old(pumps)@.insert(terminal_id@)
            } else {
                old(pumps)@
            }
            &&& repaint == if opened {
                Some(FederationCommand::NudgeRedraw { epoch, connid, terminal_id })
            } else {
                None
            }
        }),
{
    if pumps.contains(terminal_id.as_str()) {
        return None;
    }
    if !subscribed {
        return None;
    }
    let frame = FederationMessage::Terminal(
        TerminalChannelMessage::Open {
            terminal_id: terminal_id.clone(),
            mount_generation: MOUNT_GENERATION,
            replay,
        },
    );
    if !enqueue_outbound(egress, frame) {
        return None;
    }
    pumps.insert(terminal_id.clone());
    Some(FederationCommand::NudgeRedraw { epoch, connid, terminal_id })
}

/// The frame that carries a terminal's live output.
pub open spec fn output_frame<K, S>(terminal_id: String, bytes: Vec<u8>) -> FederationMessage<K, S> {
    FederationMessage::Terminal(
        TerminalChannelMessage::Output { terminal_id, mount_generation: MOUNT_GENERATION, bytes },
    )
}

/// One turn of a terminal's output pump: stream what has gathered, and tell
/// whether to go on. A stopped pump streams nothing more.
pub fn output_pump_turn<K, S>(
    egress: &mut Egress<K, S>,
    stopped: bool,
    terminal_id: &String,
    bytes: Vec<u8>,
) -> (running: bool)
    ensures
        ({
            let idle = stopped || old(egress)@.shutdown;
            &&& running == (!idle && (bytes@.len() == 0 || old(egress)@.accepts()))
            &&& final(egress)@ == if idle || bytes@.len() == 0 {
                old(egress)@
            } else {
                old(egress)@.offered(output_frame(*terminal_id, bytes))
            }
        }),
{
    if stopped || egress.shutdown {
        return false;
    }
    if bytes.len() == 0 {
        return true;
    }
    let frame = FederationMessage::Terminal(
        TerminalChannelMessage::Output {
            terminal_id: terminal_id.clone(),
            mount_generation: MOUNT_GENERATION,
            bytes,
        },
    );
    enqueue_outbound(egress, frame)
}

// ---------------------------------------------------------------------------
// Clipboard staging
// ---------------------------------------------------------------------------

/// The staging side of a connection. It exists only where both peers agreed on
/// file staging, so a host that did not agree has no way to answer.
#[derive(Debug)]
pub struct StagingChannel {
    /// Requests that wait for the worker.
    pub jobs: Vec<ClipboardStageRequest>,
    /// Permits held by requests that wait or are being staged.
    pub live: usize,
    pub worker_gone: bool,
}

impl StagingChannel {
    /// Every waiting request holds a permit, and no more permits are out than
    /// may be.
    pub open spec fn wf(self) -> bool {
        self.jobs@.len() <= self.live <= MAX_CONCURRENT_STAGES
    }

    /// Whether one more request is admitted.
    pub open spec fn admits(self) -> bool {
        self.live < MAX_CONCURRENT_STAGES && !self.worker_gone && self.jobs@.len()
            < MAX_CONCURRENT_STAGES
    }

    /// The staging side of a new connection, or none where staging was not
    /// agreed on.
    pub fn for_agreed(agreed: &Vec<Capability>) -> (staging: Option<StagingChannel>)
        ensures
            staging is Some <==> agreed@.contains(Capability::FileStaging),
            staging matches Some(staging) ==> staging.wf() && staging.jobs@.len() == 0
                && staging.live == 0 && !staging.worker_gone,
    {
        let mut i: usize = 0;
        while i < agreed.len()
            invariant
                i <= agreed.len(),
                forall|j: int| 0 <= j < i ==> agreed@[j] != Capability::FileStaging,
            decreases agreed.len() - i,
        {
            if agreed[i] == Capability::FileStaging {
                return Some(StagingChannel { jobs: Vec::new(), live: 0, worker_gone: false });
            }
            i = i + 1;
        }
        None
    }

    /// Hand the next waiting request to the worker. Its permit stays out until
    /// [`StagingChannel::finish`].
    pub fn next_job(&mut self) -> (job: Option<ClipboardStageRequest>)
        requires
            old(self).wf(),
        ensures
            final(self).wf(),
            final(self).live == old(self).live,
            final(self).worker_gone == old(self).worker_gone,
            job is Some <==> old(self).jobs@.len() > 0,
            job matches Some(job) ==> job == old(self).jobs@[0] && final(self).jobs@ == old(
                self,
            ).jobs@.drop_first(),
            job is None ==> final(self).jobs@ == old(self).jobs@,
    {
        if self.jobs.len() == 0 {
            None
        } else {
            let job = self.jobs.remove(0);
            assert(self.jobs@ =~= old(self).jobs@.drop_first());
            Some(job)
        }
    }

    /// The worker is done with a request: its permit returns.
    pub fn finish(&mut self)
        requires
            old(self).wf(),
            old(self).jobs@.len() < old(self).live,
        ensures
            final(self).wf(),
            final(self).live == old(self).live - 1,
            final(self).jobs@ == old(self).jobs@,
            final(self).worker_gone == old(self).worker_gone,
    {
        self.live = self.live - 1;
    }
}

/// The frame that refuses a stage request for now.
pub open spec fn busy_frame<K, S>(request_id: u64) -> FederationMessage<K, S> {
    FederationMessage::ClipboardStageResponse(
        ClipboardStageResponse::Failed { request_id, failure: ClipboardStageFailure::Busy },
    )
}

/// Admit a stage request and queue it for the worker, or refuse it. A refused
/// request leaves no permit behind. Where staging was not agreed on, the request
/// is dropped without an answer.
pub fn handle_clipboard_stage_request<K, S>(
    egress: &mut Egress<K, S>,
    staging: &mut Option<StagingChannel>,
    request: ClipboardStageRequest,
)
    requires
        *old(staging) matches Some(staging) ==> staging.wf(),
    ensures
        *final(staging) is Some <==> *old(staging) is Some,
        *final(staging) matches Some(staging) ==> staging.wf(),
        match *old(staging) {
            None => final(egress)@ == old(egress)@,
            Some(before) => {
                let after = (*final(staging))->0;
                if before.admits() {
                    &&& after.jobs@ == before.jobs@.push(request)
                    &&& after.live == before.live + 1
                    &&& after.worker_gone == before.worker_gone
                    &&& final(egress)@ == old(egress)@
                } else {
                    &&& after == before
                    &&& final(egress)@ == old(egress)@.offered(busy_frame(request.request_id))
                }
            },
        },
{
    let request_id: u64 = request.request_id;
    match staging {
        None => {},
        Some(channel) => {
            if channel.live >= MAX_CONCURRENT_STAGES || channel.worker_gone || channel.jobs.len()
                >= MAX_CONCURRENT_STAGES {
                let _ = enqueue_outbound(
                    egress,
                    FederationMessage::ClipboardStageResponse(
                        ClipboardStageResponse::Failed {
                            request_id,
                            failure: ClipboardStageFailure::Busy,
                        },
                    ),
                );
            } else {
                channel.live = channel.live + 1;
                channel.jobs.push(request);
            }
        },
    }
}

/// What the staging worker does with a request.
#[derive(Debug)]
pub enum StagingStep {
    /// The connection is shutting down: nothing is written or answered.
    Skip,
    /// Write the bytes under a name of the host's choosing.
    Write { request_id: u64, original_filename: String, bytes: Vec<u8> },
    /// Answer without touching a file.
    Answer(ClipboardStageResponse),
}

/// Decide what becomes of a request once its payload was decoded, or could not
/// be. A payload that does not decode is answered before any file is touched.
pub fn staging_step_with(
    shutdown: bool,
    request_id: u64,
    original_filename: String,
    decoded: Option<Vec<u8>>,
) -> (step: StagingStep)
    ensures
        step == if shutdown {
            StagingStep::Skip
        } else {
            match decoded {
                Some(bytes) => StagingStep::Write { request_id, original_filename, bytes },
                None => StagingStep::Answer(
                    ClipboardStageResponse::Failed {
                        request_id,
                        failure: ClipboardStageFailure::InvalidPayload,
                    },
                ),
            }
        },
{
    if shutdown {
        return StagingStep::Skip;
    }
    match decoded {
        Some(bytes) => StagingStep::Write { request_id, original_filename, bytes },
        None => StagingStep::Answer(
            ClipboardStageResponse::Failed {
                request_id,
                failure: ClipboardStageFailure::InvalidPayload,
            },
        ),
    }
}

/// Decide what becomes of a request that the worker took from the queue.
pub fn staging_step(shutdown: bool, request: ClipboardStageRequest) -> (step: StagingStep)
    ensures
        shutdown ==> step == StagingStep::Skip,
        !shutdown ==> match crate::encoding::base64_bytes(request.payload_base64@) {
            Some(payload) => step matches StagingStep::Write { request_id, original_filename, bytes }
                && request_id == request.request_id && original_filename
                == request.original_filename && bytes@ == payload,
            None => step == StagingStep::Answer(
                ClipboardStageResponse::Failed {
                    request_id: request.request_id,
                    failure: ClipboardStageFailure::InvalidPayload,
                },
            ),
        },
{
    let ClipboardStageRequest { request_id, payload_base64, original_filename } = request;
    let decoded = crate::encoding::base64_decode(payload_base64.as_str());
    staging_step_with(shutdown, request_id, original_filename, decoded)
}

/// The answer to a request whose file was written, or not. A path that is no
/// text cannot be answered with.
pub fn staged_response(
    request_id: u64,
    written: Result<Option<String>, ClipboardStageFailure>,
) -> (response: ClipboardStageResponse)
    ensures
        response == (match written {
            Ok(Some(path)) => ClipboardStageResponse::Staged { request_id, path },
            Ok(None) => ClipboardStageResponse::Failed {
                request_id,
                failure: ClipboardStageFailure::StagingUnavailable,
            },
            Err(failure) => ClipboardStageResponse::Failed { request_id, failure },
        }),
{
    match written {
        Ok(Some(path)) => ClipboardStageResponse::Staged { request_id, path },
        Ok(None) => ClipboardStageResponse::Failed {
            request_id,
            failure: ClipboardStageFailure::StagingUnavailable,
        },
        Err(failure) => ClipboardStageResponse::Failed { request_id, failure },
    }
}

// ---------------------------------------------------------------------------
// The ticker
// ---------------------------------------------------------------------------

/// Count one event tick, and tell whether agent statuses are due with it.
pub fn next_tick(tick: &mut u32) -> (agents_due: bool)
    ensures
        *final(tick) == if *old(tick) == u32::MAX {
            0u32
        } else {
            (*old(tick) + 1) as u32
        },
        agents_due == (*final(tick) % AGENT_STATUS_POLL_DIVISOR == 0),
{
    *tick = if *tick == u32::MAX {
        0
    } else {
        *tick + 1
    };
    *tick % AGENT_STATUS_POLL_DIVISOR == 0
}

/// The frames of a slice of events after `cursor`: the gap before the first of
/// them, if there is one, and one frame for each.
pub open spec fn event_frames<K, S>(cursor: u64, events: Seq<(u64, K)>) -> Seq<
    FederationMessage<K, S>,
> {
    let frames = Seq::new(
        events.len(),
        |i: int|
            FederationMessage::<K, S>::Event(
                EventChannelMessage::Frame { source_seq: events[i].0, kind: events[i].1 },
            ),
    );
    if events.len() > 0 && events[0].0 != cursor + 1 {
        seq![
            FederationMessage::<K, S>::Event(
                EventChannelMessage::Gap { from: cursor, to: (events[0].0 - 1) as u64 },
            ),
        ] + frames
    } else {
        frames
    }
}

/// Stream the events that the session has after `cursor`, and advance it. No
/// events at all, or a frame that is refused, leave the cursor where it was;
/// `false` tells the ticker to stop.
pub fn poll_events<K, S>(
    egress: &mut Egress<K, S>,
    cursor: &mut u64,
    events: Option<Vec<(u64, K)>>,
) -> (running: bool)
    requires
        *old(cursor) < u64::MAX,
        events matches Some(events) ==> events@.len() > 0 ==> events@[0].0 > 0,
    ensures
        match events {
            None => !running && final(egress)@ == old(egress)@ && *final(cursor) == *old(cursor),
            Some(events) => {
                let frames = event_frames(*old(cursor), events@);
                &&& running == old(egress)@.accepts_all(frames)
                &&& final(egress)@ == old(egress)@.offered_all(frames)
                &&& *final(cursor) == if running && events@.len() > 0 {
                    events@.last().0
                } else {
                    *old(cursor)
                }
            },
        },
{
    let list = match events {
        Some(list) => list,
        None => {
            return false;
        },
    };
    let ghost frames = event_frames::<K, S>(*cursor, list@);
    let ghost start = egress@;
    if list.len() == 0 {
        assert(frames =~= Seq::empty());
        return true;
    }
    let first_seq: u64 = list[0].0;
    let last_seq: u64 = list[list.len() - 1].0;
    let ghost mut sent: Seq<FederationMessage<K, S>> = Seq::empty();
    if first_seq != *cursor + 1 {
        let gap = FederationMessage::Event(
            EventChannelMessage::Gap { from: *cursor, to: first_seq - 1 },
        );
        let taken = enqueue_outbound(egress, gap);
        proof {
            lemma_offered_all_push(start, sent, gap);
            if !taken {
                lemma_offered_all_stops(start, sent, gap, frames.drop_first());
                assert(sent.push(gap) + frames.drop_first() =~= frames);
            }
            sent = sent.push(gap);
        }
        if !taken {
            return false;
        }
    }
    let ghost lead = sent;
    let ghost all = list@;
    assert(start.offered_all(Seq::<FederationMessage<K, S>>::empty()) == start);
    for event in iter: list
        invariant
            iter.seq() == all,
            lead.len() <= 1,
            frames.len() == lead.len() + all.len(),
            frames.take(lead.len() as int) =~= lead,
            forall|i: int|
                0 <= i < all.len() ==> frames[lead.len() + i] == FederationMessage::<K, S>::Event(
                    EventChannelMessage::Frame { source_seq: all[i].0, kind: all[i].1 },
                ),
            sent =~= frames.take(lead.len() + iter.index()),
            start == old(egress)@,
            start.accepts_all(sent),
            egress@ == start.offered_all(sent),
            frames == event_frames::<K, S>(*old(cursor), all),
            *cursor == *old(cursor),
            events matches Some(given) && given@ == all,
    {
        let ghost at = lead.len() + iter.index();
        let (seq, kind) = event;
        let frame = FederationMessage::Event(EventChannelMessage::Frame { source_seq: seq, kind });
        let taken = enqueue_outbound(egress, frame);
        proof {
            assert(frame == frames[at]);
            lemma_offered_all_push(start, sent, frame);
            if !taken {
                lemma_offered_all_stops(start, sent, frame, frames.skip(at + 1));
                assert(sent.push(frame) + frames.skip(at + 1) =~= frames);
            }
            assert(sent.push(frame) =~= frames.take(at + 1));
            sent = sent.push(frame);
        }
        if !taken {
            return false;
        }
    }
    assert(sent =~= frames);
    *cursor = last_seq;
    true
}

/// Events stream without a loss or a repetition: a slice that follows the
/// cursor directly is streamed without a gap, a later one is preceded by the gap
/// that ends right before it, and the frames carry the events' own numbers in
/// order.
pub proof fn law_event_stream_is_contiguous<K, S>(cursor: u64, events: Seq<(u64, K)>)
    requires
        events.len() > 0,
        events[0].0 > 0,
    ensures
        ({
            let frames = event_frames::<K, S>(cursor, events);
            let lead = frames.len() - events.len();
            &&& events[0].0 == cursor + 1 ==> lead == 0
            &&& events[0].0 != cursor + 1 ==> lead == 1 && frames[0] == FederationMessage::<
                K,
                S,
            >::Event(EventChannelMessage::Gap { from: cursor, to: (events[0].0 - 1) as u64 })
            &&& forall|i: int|
                0 <= i < events.len() ==> frames[lead + i] == FederationMessage::<K, S>::Event(
                    EventChannelMessage::Frame { source_seq: events[i].0, kind: events[i].1 },
                )
        }),
{
}

/// What was last streamed of an agent.
pub type KnownStatus = (AgentStatus, Option<Seq<char>>);

/// The agent statuses that the peer has seen, by terminal.
#[derive(Debug)]
pub struct SeenStatuses {
    pub entries: Vec<(String, AgentStatus, Option<String>)>,
}

impl SeenStatuses {
    /// No terminal is listed twice.
    pub open spec fn wf(self) -> bool {
        forall|i: int, j: int|
            0 <= i < j < self.entries@.len() ==> self.entries@[i].0@ != self.entries@[j].0@
    }

    pub open spec fn has_at(self, terminal: Seq<char>, i: int) -> bool {
        0 <= i < self.entries@.len() && self.entries@[i].0@ == terminal
    }

    pub open spec fn view(&self) -> Map<Seq<char>, KnownStatus> {
        Map::new(
            |terminal: Seq<char>| exists|i: int| self.has_at(terminal, i),
            |terminal: Seq<char>|
                {
                    let i = choose|i: int| self.has_at(terminal, i);
                    (self.entries@[i].1, text::text_of(self.entries@[i].2))
                },
        )
    }

    proof fn lemma_value_at(self, i: int)
        requires
            self.wf(),
            0 <= i < self.entries@.len(),
        ensures
            self@.contains_key(self.entries@[i].0@),
            self@[self.entries@[i].0@] == (
                self.entries@[i].1,
                text::text_of(self.entries@[i].2),
            ),
    {
        let terminal = self.entries@[i].0@;
        assert(self.has_at(terminal, i));
        let j = choose|j: int| self.has_at(terminal, j);
        assert(self.has_at(terminal, j));
        assert(i == j);
    }

    pub fn new() -> (seen: SeenStatuses)
        ensures
            seen.wf(),
            seen@ == Map::<Seq<char>, KnownStatus>::empty(),
    {
        let seen = SeenStatuses { entries: Vec::new() };
        assert(seen@ =~= Map::<Seq<char>, KnownStatus>::empty());
        seen
    }

    fn find(&self, terminal_id: &str) -> (at: Option<usize>)
        requires
            self.wf(),
        ensures
            at is Some <==> self@.contains_key(terminal_id@),
            at matches Some(i) ==> self.has_at(terminal_id@, i as int) && self@[terminal_id@] == (
                self.entries@[i as int].1,
                text::text_of(self.entries@[i as int].2),
            ),
    {
        let mut i: usize = 0;
        while i < self.entries.len()
            invariant
                self.wf(),
                i <= self.entries.len(),
                forall|j: int| 0 <= j < i ==> self.entries@[j].0@ != terminal_id@,
            decreases self.entries.len() - i,
        {
            if text::same_text(self.entries[i].0.as_str(), terminal_id) {
                proof {
                    self.lemma_value_at(i as int);
                }
                return Some(i);
            }
            i = i + 1;
        }
        None
    }

    /// Whether exactly this status of the terminal was seen.
    pub fn knows(&self, terminal_id: &str, status: AgentStatus, agent: &Option<String>) -> (known:
        bool)
        requires
            self.wf(),
        ensures
            known == (self@.contains_key(terminal_id@) && self@[terminal_id@] == (
                status,
                text::text_of(*agent),
            )),
    {
        match self.find(terminal_id) {
            Some(at) => {
                let seen = &self.entries[at];
                seen.1 == status && match (&seen.2, agent) {
                    (Some(left), Some(right)) => text::same_text(left.as_str(), right.as_str()),
                    (None, None) => true,
                    _ => false,
                }
            },
            None => false,
        }
    }

    /// Record a status of the terminal.
    pub fn record(&mut self, terminal_id: String, status: AgentStatus, agent: Option<String>)
        requires
            old(self).wf(),
        ensures
            final(self).wf(),
            final(self)@ == old(self)@.insert(terminal_id@, (status, text::text_of(agent))),
    {
        let ghost before = *self;
        match self.find(terminal_id.as_str()) {
            Some(at) => {
                self.entries.set(at, (terminal_id, status, agent));
                proof {
                    self.lemma_same_elsewhere(before, at as int);
                }
            },
            None => {
                self.entries.push((terminal_id, status, agent));
                proof {
                    let at = self.entries@.len() - 1;
                    assert forall|i: int| 0 <= i < at implies #[trigger] self.entries@[i].0@
                        != terminal_id@ by {
                        if self.entries@[i].0@ == terminal_id@ {
                            before.lemma_value_at(i);
                        }
                    }
                    self.lemma_same_elsewhere(before, at);
                }
            },
        }
    }

    /// Two tables that differ only at `at` map every other terminal alike.
    proof fn lemma_same_elsewhere(self, before: SeenStatuses, at: int)
        requires
            self.wf(),
            before.wf(),
            0 <= at < self.entries@.len(),
            self.entries@ == before.entries@.update(at, self.entries@[at]) && at
                < before.entries@.len() && before.entries@[at].0@ == self.entries@[at].0@
                || self.entries@ == before.entries@.push(self.entries@[at]) && at
                == before.entries@.len(),
        ensures
            self@ == before@.insert(
                self.entries@[at].0@,
                (self.entries@[at].1, text::text_of(self.entries@[at].2)),
            ),
    {
        let id = self.entries@[at].0@;
        let value = (self.entries@[at].1, text::text_of(self.entries@[at].2));
        self.lemma_value_at(at);
        let wanted = before@.insert(id, value);
        assert forall|terminal: Seq<char>|
            #![trigger self@.contains_key(terminal)]
            #![trigger wanted.contains_key(terminal)]
            self@.contains_key(terminal) == wanted.contains_key(terminal) && (self@.contains_key(
                terminal,
            ) ==> self@[terminal] == wanted[terminal]) by {
            if terminal != id {
                if self@.contains_key(terminal) {
                    let i = choose|i: int| self.has_at(terminal, i);
                    assert(self.has_at(terminal, i));
                    assert(before.has_at(terminal, i));
                    self.lemma_value_at(i);
                    before.lemma_value_at(i);
                }
                if before@.contains_key(terminal) {
                    let i = choose|i: int| before.has_at(terminal, i);
                    assert(before.has_at(terminal, i));
                    assert(self.has_at(terminal, i));
                    self.lemma_value_at(i);
                    before.lemma_value_at(i);
                }
            }
        }
        assert(self@.dom() =~= wanted.dom());
        assert(self@ =~= wanted);
    }
}

/// The outcome of one poll of agent statuses: each status that differs from what
/// was seen of its terminal is streamed and remembered, up to the first frame
/// that is refused. The last component tells whether to go on.
pub open spec fn statuses_polled<K, S>(
    egress: EgressView<K, S>,
    seen: Map<Seq<char>, KnownStatus>,
    statuses: Seq<(String, AgentStatus, Option<String>)>,
) -> (EgressView<K, S>, Map<Seq<char>, KnownStatus>, bool)
    decreases statuses.len(),
{
    if statuses.len() == 0 {
        (egress, seen, true)
    } else {
        let (terminal_id, status, agent) = statuses[0];
        let known = (status, text::text_of(agent));
        if seen.contains_key(terminal_id@) && seen[terminal_id@] == known {
            statuses_polled(egress, seen, statuses.drop_first())
        } else {
            let frame = FederationMessage::<K, S>::AgentStatus(
                AgentStatusMessage {
                    terminal_id,
                    mount_generation: MOUNT_GENERATION,
                    status,
                    agent,
                },
            );
            if egress.accepts() {
                statuses_polled(
                    egress.offered(frame),
                    seen.insert(terminal_id@, known),
                    statuses.drop_first(),
                )
            } else {
                (egress.offered(frame), seen.insert(terminal_id@, known), false)
            }
        }
    }
}

/// Stream the agent statuses that changed since the last poll; `false` tells the
/// ticker to stop.
pub fn poll_agent_statuses<K, S>(
    egress: &mut Egress<K, S>,
    seen: &mut SeenStatuses,
    statuses: Option<Vec<(String, AgentStatus, Option<String>)>>,
) -> (running: bool)
    requires
        old(seen).wf(),
    ensures
        final(seen).wf(),
        match statuses {
            None => !running && final(egress)@ == old(egress)@ && final(seen)@ == old(seen)@,
            Some(statuses) => (final(egress)@, final(seen)@, running) == statuses_polled(
                old(egress)@,
                old(seen)@,
                statuses@,
            ),
        },
{
    let list = match statuses {
        Some(list) => list,
        None => {
            return false;
        },
    };
    let ghost all = list@;
    assert(all.skip(0) =~= all);
    for entry in iter: list
        invariant
            iter.seq() == all,
            statuses matches Some(given) && given@ == all,
            seen.wf(),
            statuses_polled(old(egress)@, old(seen)@, all) == statuses_polled(
                egress@,
                seen@,
                all.skip(iter.index()),
            ),
    {
        proof {
            let rest = all.skip(iter.index());
            assert(rest[0] == all[iter.index()]);
            assert(rest.drop_first() =~= all.skip(iter.index() + 1));
        }
        let (terminal_id, status, agent) = entry;
        if !seen.knows(terminal_id.as_str(), status, &agent) {
            seen.record(terminal_id.clone(), status, agent.clone());
            let frame = FederationMessage::AgentStatus(
                AgentStatusMessage {
                    terminal_id,
                    mount_generation: MOUNT_GENERATION,
                    status,
                    agent,
                },
            );
            if !enqueue_outbound(egress, frame) {
                return false;
            }
        }
    }
    assert(all.skip(all.len() as int) =~= Seq::empty());
    true
}

/// Whether every status of the slice is what was seen of its terminal.
pub open spec fn all_seen(
    seen: Map<Seq<char>, KnownStatus>,
    statuses: Seq<(String, AgentStatus, Option<String>)>,
) -> bool {
    forall|i: int| #![trigger statuses[i]]
        0 <= i < statuses.len() ==> seen.contains_key(statuses[i].0@) && seen[statuses[i].0@] == (
            statuses[i].1,
            text::text_of(statuses[i].2),
        )
}

/// A poll that finds nothing changed streams nothing.
pub proof fn law_unchanged_statuses_are_silent<K, S>(
    egress: EgressView<K, S>,
    seen: Map<Seq<char>, KnownStatus>,
    statuses: Seq<(String, AgentStatus, Option<String>)>,
)
    requires
        all_seen(seen, statuses),
    ensures
        statuses_polled(egress, seen, statuses) == (egress, seen, true),
    decreases statuses.len(),
{
    if statuses.len() > 0 {
        let rest = statuses.drop_first();
        assert(statuses[0] == statuses[0]);
        assert forall|i: int| #![trigger rest[i]] 0 <= i < rest.len() implies seen.contains_key(
            rest[i].0@,
        ) && seen[rest[i].0@] == (rest[i].1, text::text_of(rest[i].2)) by {
            assert(rest[i] == statuses[i + 1]);
        }
        law_unchanged_statuses_are_silent(egress, seen, rest);
    }
}

/// After a poll that went through, every status of it has been seen: polling the
/// same statuses again would stream nothing. Each terminal is listed once.
pub proof fn law_polled_statuses_are_seen<K, S>(
    egress: EgressView<K, S>,
    seen: Map<Seq<char>, KnownStatus>,
    statuses: Seq<(String, AgentStatus, Option<String>)>,
)
    requires
        statuses_polled(egress, seen, statuses).2,
        forall|i: int, j: int|
            0 <= i < j < statuses.len() ==> statuses[i].0@ != statuses[j].0@,
    ensures
        all_seen(statuses_polled(egress, seen, statuses).1, statuses),
        forall|terminal: Seq<char>|
            #![trigger statuses_polled(egress, seen, statuses).1.contains_key(terminal)]
            (forall|i: int| 0 <= i < statuses.len() ==> statuses[i].0@ != terminal) ==> (
            statuses_polled(egress, seen, statuses).1.contains_key(terminal)
                == seen.contains_key(terminal) && (seen.contains_key(terminal)
                ==> statuses_polled(egress, seen, statuses).1[terminal] == seen[terminal])),
    decreases statuses.len(),
{
    if statuses.len() > 0 {
        let (terminal_id, status, agent) = statuses[0];
        let known = (status, text::text_of(agent));
        let rest = statuses.drop_first();
        let frame = FederationMessage::<K, S>::AgentStatus(
            AgentStatusMessage {
                terminal_id,
                mount_generation: MOUNT_GENERATION,
                status,
                agent,
            },
        );
        let unchanged = seen.contains_key(terminal_id@) && seen[terminal_id@] == known;
        let egress2 = if unchanged {
            egress
        } else {
            egress.offered(frame)
        };
        let seen2 = if unchanged {
            seen
        } else {
            seen.insert(terminal_id@, known)
        };
        assert forall|i: int, j: int| 0 <= i < j < rest.len() implies rest[i].0@ != rest[j].0@ by {
            assert(rest[i] == statuses[i + 1] && rest[j] == statuses[j + 1]);
        }
        law_polled_statuses_are_seen(egress2, seen2, rest);
        let end = statuses_polled(egress, seen, statuses).1;
        assert(end == statuses_polled(egress2, seen2, rest).1);
        assert forall|i: int| 0 <= i < rest.len() implies rest[i].0@ != terminal_id@ by {
            assert(rest[i] == statuses[i + 1]);
        }
        assert(end.contains_key(terminal_id@) == seen2.contains_key(terminal_id@));
        assert forall|i: int| #![trigger statuses[i]] 0 <= i < statuses.len() implies
            end.contains_key(statuses[i].0@) && end[statuses[i].0@] == (
            statuses[i].1,
            text::text_of(statuses[i].2),
        ) by {
            if i > 0 {
                assert(rest[i - 1] == statuses[i]);
            }
        }
        assert forall|terminal: Seq<char>|
            #![trigger end.contains_key(terminal)]
            (forall|i: int| 0 <= i < statuses.len() ==> statuses[i].0@ != terminal) implies (
        end.contains_key(terminal) == seen.contains_key(terminal) && (seen.contains_key(terminal)
            ==> end[terminal] == seen[terminal])) by {
            assert(statuses[0].0@ != terminal);
            assert forall|i: int| 0 <= i < rest.len() implies rest[i].0@ != terminal by {
                assert(rest[i] == statuses[i + 1]);
            }
            assert(end.contains_key(terminal) == seen2.contains_key(terminal));
        }
    }
}

// ---------------------------------------------------------------------------
// Teardown
// ---------------------------------------------------------------------------

/// One step of ending a connection.
#[derive(Debug)]
pub enum TeardownStep {
    /// Signal every subordinate to stop.
    SignalShutdown,
    /// Stop a terminal's output pump and wait for it.
    StopPump(String),
    /// Wait for the ticker.
    JoinTicker,
    /// Drop the staging queue and the worker's way to answer. The worker itself
    /// is not waited for: it may be stuck in a write.
    RevokeStaging,
    /// Tell the peer why, if the queue still takes it.
    SendFault(TunnelExit),
    /// Drop the last handle on the outbound queue.
    CloseQueue,
    /// Wait for the writer.
    JoinWriter,
}

/// How a connection ends: producers first, then the queue, then the writer that
/// waits for the queue to close. A fault, but not a clean end, is told to the
/// peer.
pub open spec fn teardown_steps(
    pumps: Seq<String>,
    staging: bool,
    cause: Option<TunnelExit>,
) -> Seq<TeardownStep> {
    seq![TeardownStep::SignalShutdown] + pumps.map_values(
        |terminal_id: String| TeardownStep::StopPump(terminal_id),
    ) + seq![TeardownStep::JoinTicker] + (if staging {
        seq![TeardownStep::RevokeStaging]
    } else {
        seq![]
    }) + (match cause {
        Some(cause) => if cause == TunnelExit::PeerClosed {
            seq![]
        } else {
            seq![TeardownStep::SendFault(cause)]
        },
        None => seq![],
    }) + seq![TeardownStep::CloseQueue, TeardownStep::JoinWriter]
}

/// Plan the end of a connection.
pub fn teardown_plan(pumps: IdSet, staging: bool, cause: Option<TunnelExit>) -> (plan: Vec<
    TeardownStep,
>)
    ensures
        plan@ == teardown_steps(pumps.ids@, staging, cause),
{
    let mut plan: Vec<TeardownStep> = Vec::new();
    plan.push(TeardownStep::SignalShutdown);
    let ghost all = pumps.ids@;
    for terminal_id in iter: pumps.ids
        invariant
            iter.seq() == all,
            plan@ =~= seq![TeardownStep::SignalShutdown] + all.take(iter.index()).map_values(
                |terminal_id: String| TeardownStep::StopPump(terminal_id),
            ),
    {
        proof {
            assert(all.take(iter.index() + 1) =~= all.take(iter.index()).push(all[iter.index()]));
        }
        plan.push(TeardownStep::StopPump(terminal_id));
    }
    assert(all.take(all.len() as int) =~= all);
    plan.push(TeardownStep::JoinTicker);
    if staging {
        plan.push(TeardownStep::RevokeStaging);
    }
    if let Some(cause) = cause {
        if !cause.is_clean() {
            plan.push(TeardownStep::SendFault(cause));
        }
    }
    plan.push(TeardownStep::CloseQueue);
    plan.push(TeardownStep::JoinWriter);
    assert(plan@ =~= teardown_steps(all, staging, cause));
    plan
}

/// The writer is waited for last, right after the queue closed: whatever runs,
/// the wait cannot last forever.
pub proof fn law_queue_closes_before_the_writer_is_joined(
    pumps: Seq<String>,
    staging: bool,
    cause: Option<TunnelExit>,
)
    ensures
        ({
            let steps = teardown_steps(pumps, staging, cause);
            &&& steps.last() == TeardownStep::JoinWriter
            &&& steps[steps.len() - 2] == TeardownStep::CloseQueue
            &&& forall|i: int|
                0 <= i < steps.len() - 2 ==> !(steps[i] is JoinWriter) && !(steps[i] is CloseQueue)
            &&& (exists|i: int| 0 <= i < steps.len() && #[trigger] steps[i] is SendFault) ==> (
            cause is Some && cause != Some(TunnelExit::PeerClosed))
        }),
{
}

// ---------------------------------------------------------------------------
// What holds of every connection
// ---------------------------------------------------------------------------

/// A split request reaches the session whole: the command carries the request's
/// own pane, direction, ratio and focus, and the answer goes back under the
/// request's own id.
pub proof fn law_split_requests_are_carried_whole<K, S>(
    request: SplitPaneRequest,
    epoch: AcceptEpoch,
    connid: ConnId,
)
    ensures
        ({
            let action = inbound_action::<K, S>(
                Inbound::Frame(FederationMessage::SplitPaneRequest(request)),
                epoch,
                connid,
            );
            &&& action is Split
            &&& action->Split_request_id == request.request_id
            &&& action->Split_command is SplitPane
            &&& action->Split_command->SplitPane_target_pane_id == request.target_pane_id
            &&& action->Split_command->SplitPane_direction == request.direction
            &&& action->Split_command->SplitPane_ratio_bits == request.ratio_bits
            &&& action->Split_command->SplitPane_focus == request.focus
        }),
{
}

/// From the link to the session's own interface a split keeps what was asked
/// for: two requests that differ in direction, pane, ratio or focus run as
/// requests that differ in it, whatever the lease and the host.
pub proof fn law_different_splits_run_differently<K, S>(
    left: SplitPaneRequest,
    right: SplitPaneRequest,
    epoch: AcceptEpoch,
    connid: ConnId,
    lease: FederationLease,
    host: federation_actor::HostFacts,
    left_action: federation_actor::FederationAction,
    right_action: federation_actor::FederationAction,
)
    requires
        federation_actor::action_for(
            lease,
            host,
            inbound_action::<K, S>(
                Inbound::Frame(FederationMessage::SplitPaneRequest(left)),
                epoch,
                connid,
            )->Split_command,
            left_action,
        ),
        federation_actor::action_for(
            lease,
            host,
            inbound_action::<K, S>(
                Inbound::Frame(FederationMessage::SplitPaneRequest(right)),
                epoch,
                connid,
            )->Split_command,
            right_action,
        ),
    ensures
        ({
            let first = left_action->ReplySplit_0.method;
            let second = right_action->ReplySplit_0.method;
            &&& left_action is ReplySplit && right_action is ReplySplit
            &&& first is PaneSplit && second is PaneSplit
            &&& first->PaneSplit_direction == left.direction
            &&& first->PaneSplit_target_pane_id == Some(left.target_pane_id)
            &&& left.direction != right.direction ==> first->PaneSplit_direction
                != second->PaneSplit_direction
            &&& left.target_pane_id != right.target_pane_id ==> first->PaneSplit_target_pane_id
                != second->PaneSplit_target_pane_id
            &&& left.ratio_bits != right.ratio_bits ==> first->PaneSplit_ratio_bits
                != second->PaneSplit_ratio_bits
            &&& left.focus != right.focus ==> first->PaneSplit_focus != second->PaneSplit_focus
        }),
{
}

/// Terminal frames reach the session whole, under the connection's own epoch and
/// id: input with its bytes, a size with its columns and rows, a close with the
/// release of the terminal's size. Output of the peer is not for this side.
pub proof fn law_terminal_frames_are_carried_whole<K, S>(
    terminal_id: String,
    mount_generation: u64,
    bytes: Vec<u8>,
    cols: u16,
    rows: u16,
    epoch: AcceptEpoch,
    connid: ConnId,
)
    ensures
        ({
            let action = |message: TerminalChannelMessage|
                inbound_action::<K, S>(
                    Inbound::Frame(FederationMessage::Terminal(message)),
                    epoch,
                    connid,
                );
            let input = action(
                TerminalChannelMessage::Input { terminal_id, mount_generation, bytes },
            );
            let resize = action(
                TerminalChannelMessage::Resize { terminal_id, mount_generation, cols, rows },
            );
            let open = action(
                TerminalChannelMessage::Open { terminal_id, mount_generation, replay: bytes },
            );
            let close = action(TerminalChannelMessage::Close { terminal_id, mount_generation });
            let output = action(
                TerminalChannelMessage::Output { terminal_id, mount_generation, bytes },
            );
            &&& input is Forward && input->Forward_0 is SendInput
            &&& input->Forward_0->SendInput_epoch == epoch
            &&& input->Forward_0->SendInput_connid == connid
            &&& input->Forward_0->SendInput_terminal_id == terminal_id
            &&& input->Forward_0->SendInput_bytes == bytes
            &&& resize is Forward && resize->Forward_0 is Resize
            &&& resize->Forward_0->Resize_epoch == epoch
            &&& resize->Forward_0->Resize_connid == connid
            &&& resize->Forward_0->Resize_terminal_id == terminal_id
            &&& resize->Forward_0->Resize_cols == cols
            &&& resize->Forward_0->Resize_rows == rows
            &&& open is OpenTerminal && open->OpenTerminal_terminal_id == terminal_id
            &&& close is CloseTerminal && close->CloseTerminal_terminal_id == terminal_id
            &&& close->CloseTerminal_command is ReleaseTerminalSize
            &&& close->CloseTerminal_command->ReleaseTerminalSize_epoch == epoch
            &&& close->CloseTerminal_command->ReleaseTerminalSize_connid == connid
            &&& close->CloseTerminal_command->ReleaseTerminalSize_terminal_id == terminal_id
            &&& output is Ignore
        }),
{
}

/// What the controller types on its mirror reaches the live terminal: an input
/// frame of the mounted connection ends as input for that very terminal with
/// those very bytes.
pub proof fn law_typed_input_reaches_the_terminal<K, S>(
    terminal_id: String,
    mount_generation: u64,
    bytes: Vec<u8>,
    epoch: AcceptEpoch,
    connid: ConnId,
    lease: FederationLease,
    host: federation_actor::HostFacts,
    action: federation_actor::FederationAction,
)
    requires
        lease.is_controller(epoch, connid),
        host.target_is_live,
        federation_actor::action_for(
            lease,
            host,
            inbound_action::<K, S>(
                Inbound::Frame(
                    FederationMessage::Terminal(
                        TerminalChannelMessage::Input { terminal_id, mount_generation, bytes },
                    ),
                ),
                epoch,
                connid,
            )->Forward_0,
            action,
        ),
    ensures
        action is SendInput,
        action->SendInput_terminal_id == terminal_id,
        action->SendInput_bytes == bytes,
{
}

/// Reading stops exactly at the end of the link, at a broken link and at a
/// peer's fault, and only a broken link is a failure. The cause of the end is
/// the peer's own where it told one.
pub proof fn law_reading_stops_at_the_end<K, S>(
    inbound: Inbound<K, S>,
    epoch: AcceptEpoch,
    connid: ConnId,
    cause: TunnelExit,
)
    ensures
        inbound_action(inbound, epoch, connid) is Stop <==> inbound is End || inbound is Broken || (
        inbound is Frame && inbound->Frame_0 is Fault),
        inbound_action(inbound, epoch, connid) is Stop ==> (inbound_action(
            inbound,
            epoch,
            connid,
        )->Stop_failed <==> inbound is Broken),
        inbound is End || inbound is Broken ==> inbound_cause(inbound) == Some(
            TunnelExit::PeerClosed,
        ),
        inbound == Inbound::<K, S>::Frame(FederationMessage::Fault(cause)) ==> inbound_cause(
            inbound,
        ) == Some(cause),
        inbound is Frame && !(inbound->Frame_0 is Fault) ==> inbound_cause(inbound) is None,
{
}

/// Every other request of the peer is taken up: a stage request with all it
/// carries, and a snapshot request.
pub proof fn law_requests_are_taken_up<K, S>(
    request: ClipboardStageRequest,
    epoch: AcceptEpoch,
    connid: ConnId,
)
    ensures
        ({
            let action = inbound_action::<K, S>(
                Inbound::Frame(FederationMessage::ClipboardStageRequest(request)),
                epoch,
                connid,
            );
            action is Stage && action->Stage_0 == request
        }),
        inbound_action::<K, S>(Inbound::Frame(FederationMessage::SnapshotRequest), epoch, connid)
            is Snapshot,
{
}

/// A connection that meets no obstacle runs: once admitted it asks for the
/// mount, once mounted it writes that very snapshot with its cursor, and once
/// that is written the session runs. A connection that is not admitted closes
/// with nothing to give back.
pub proof fn law_an_admitted_connection_runs<S>(
    snapshot: S,
    cursor: u64,
    admission: Admission,
    event: MountEvent<S>,
)
    ensures
        ({
            let admitted = mount_transition(
                MountState::Acquiring,
                MountEvent::<S>::Admitted(Admission::Accepted),
            );
            let mounted = mount_transition(
                admitted.0,
                MountEvent::Mounted(Some((snapshot, cursor))),
            );
            let opened = mount_transition(mounted.0, MountEvent::<S>::SnapshotWritten);
            &&& admitted.1 is Mount
            &&& mounted.1 is WriteSnapshot
            &&& mounted.1->WriteSnapshot_snapshot == snapshot
            &&& mounted.1->WriteSnapshot_cursor == cursor
            &&& opened.1 is Run && opened.0 is Running
            &&& mount_transition(opened.0, event).1 is ReleaseAndClose
            &&& mount_transition(admitted.0, MountEvent::<S>::Mounted(None)).1 is ReleaseAndClose
        }),
        !(admission is Accepted) ==> mount_transition(
            MountState::Acquiring,
            MountEvent::<S>::Admitted(admission),
        ).1 is Close,
{
}

/// A frame is taken exactly where the writer is there and the queue has room,
/// and then it is the last one in the queue and nothing else changes. A full
/// queue keeps what it has and ends the connection, with the overflow as its
/// cause where no earlier one is known. Without a writer nothing changes.
pub proof fn law_a_full_queue_ends_the_connection<K, S>(
    egress: EgressView<K, S>,
    message: FederationMessage<K, S>,
)
    ensures
        ({
            let after = egress.offered(message);
            let room = egress.queue.len() < egress.capacity;
            &&& egress.accepts() <==> !egress.writer_gone && room
            &&& !egress.writer_gone && room ==> {
                &&& after.queue.len() == egress.queue.len() + 1
                &&& after.queue.last() == message
                &&& after.queue.drop_last() == egress.queue
                &&& after.shutdown == egress.shutdown
                &&& after.first_cause == egress.first_cause
                &&& !after.writer_gone
            }
            &&& !egress.writer_gone && !room ==> {
                &&& after.queue == egress.queue
                &&& after.shutdown
                &&& after.first_cause.cause == if egress.first_cause.cause is Some {
                    egress.first_cause.cause
                } else {
                    Some(TunnelExit::EgressOverflow)
                }
                &&& !after.writer_gone
            }
            &&& egress.writer_gone ==> after == egress
            &&& after.capacity == egress.capacity
        }),
{
}

/// The frames of a mirrored terminal name it and carry the bytes they were made
/// of, under the one mount generation; a refusal to stage names its request.
pub proof fn law_frames_carry_what_they_are_made_of<K, S>(
    terminal_id: String,
    bytes: Vec<u8>,
    request_id: u64,
)
    ensures
        open_frame::<K, S>(terminal_id, bytes) == FederationMessage::<K, S>::Terminal(
            TerminalChannelMessage::Open { terminal_id, mount_generation: 1, replay: bytes },
        ),
        output_frame::<K, S>(terminal_id, bytes) == FederationMessage::<K, S>::Terminal(
            TerminalChannelMessage::Output { terminal_id, mount_generation: 1, bytes },
        ),
        busy_frame::<K, S>(request_id) == FederationMessage::<K, S>::ClipboardStageResponse(
            ClipboardStageResponse::Failed { request_id, failure: ClipboardStageFailure::Busy },
        ),
{
}

/// The claimed length of a frame is read from the last four header bytes, least
/// significant first: each byte is one digit of it to the base 256.
pub proof fn law_header_bytes_are_digits(header: Seq<u8>)
    requires
        header.len() == 8,
    ensures
        header_len(header) % 256 == header[4],
        (header_len(header) / 256) % 256 == header[5],
        (header_len(header) / 65536) % 256 == header[6],
        header_len(header) / 16777216 == header[7],
{
    let n = header_len(header) as int;
    let third = header[6] + 256 * header[7];
    let second = header[5] + 256 * third;
    assert(n == 256 * second + header[4]);
    lemma_last_digit(n, second, header[4] as int);
    lemma_last_digit(second, third, header[5] as int);
    lemma_last_digit(third, header[7] as int, header[6] as int);
    assert(n / 65536 == (n / 256) / 256 && n / 16777216 == ((n / 256) / 256) / 256)
        by (nonlinear_arith);
}

proof fn lemma_last_digit(n: int, rest: int, digit: int)
    requires
        n == 256 * rest + digit,
        0 <= digit < 256,
    ensures
        n % 256 == digit,
        n / 256 == rest,
{
}

/// At most two stage requests are in the system at once: a request is admitted
/// exactly while fewer are and the worker is there.
pub proof fn law_two_stages_at_once(staging: StagingChannel)
    requires
        staging.wf(),
    ensures
        staging.live <= 2,
        staging.admits() <==> staging.live < 2 && !staging.worker_gone,
{
}

/// A teardown reaches everyone: shutdown is signalled first, every pump is
/// stopped before the ticker is waited for, staging is revoked exactly where
/// there is any, and the peer is told the cause exactly where it is a fault.
pub proof fn law_teardown_reaches_everyone(
    pumps: Seq<String>,
    staging: bool,
    cause: Option<TunnelExit>,
)
    ensures
        ({
            let steps = teardown_steps(pumps, staging, cause);
            let ticker = pumps.len() as int + 1;
            let revoked = if staging {
                1int
            } else {
                0int
            };
            &&& steps[0] is SignalShutdown
            &&& forall|at: int|
                1 <= at <= pumps.len() ==> #[trigger] steps[at] == TeardownStep::StopPump(
                    pumps[at - 1],
                )
            &&& steps[ticker] is JoinTicker
            &&& staging ==> steps[ticker + 1] is RevokeStaging
            &&& cause is Some && cause != Some(TunnelExit::PeerClosed) ==> steps[ticker + 1
                + revoked] == TeardownStep::SendFault(cause->0) && steps.len() == ticker + 4
                + revoked
            &&& cause is None || cause == Some(TunnelExit::PeerClosed) ==> steps.len() == ticker + 3
                + revoked
        }),
{
}

/// A changed status is streamed: after a poll that went through, the queue holds
/// behind what was there a frame with the terminal, the status and the agent of
/// each entry that differs from what was seen. Each terminal is listed once.
pub proof fn law_changed_statuses_are_streamed<K, S>(
    egress: EgressView<K, S>,
    seen: Map<Seq<char>, KnownStatus>,
    statuses: Seq<(String, AgentStatus, Option<String>)>,
    i: int,
) -> (place: int)
    requires
        statuses_polled(egress, seen, statuses).2,
        0 <= i < statuses.len(),
        !seen.contains_key(statuses[i].0@) || seen[statuses[i].0@] != (
            statuses[i].1,
            text::text_of(statuses[i].2),
        ),
        forall|a: int, b: int| 0 <= a < b < statuses.len() ==> statuses[a].0@ != statuses[b].0@,
    ensures
        egress.queue.len() <= place < statuses_polled(egress, seen, statuses).0.queue.len(),
        statuses_polled(egress, seen, statuses).0.queue[place] == FederationMessage::<
            K,
            S,
        >::AgentStatus(
            AgentStatusMessage {
                terminal_id: statuses[i].0,
                mount_generation: 1,
                status: statuses[i].1,
                agent: statuses[i].2,
            },
        ),
    decreases statuses.len(),
{
    let (terminal_id, status, agent) = statuses[0];
    let known = (status, text::text_of(agent));
    let rest = statuses.drop_first();
    let frame = FederationMessage::<K, S>::AgentStatus(
        AgentStatusMessage { terminal_id, mount_generation: MOUNT_GENERATION, status, agent },
    );
    let unchanged = seen.contains_key(terminal_id@) && seen[terminal_id@] == known;
    let (egress2, seen2) = if unchanged {
        (egress, seen)
    } else {
        (egress.offered(frame), seen.insert(terminal_id@, known))
    };
    assert(statuses_polled(egress, seen, statuses) == statuses_polled(egress2, seen2, rest));
    lemma_polling_keeps_the_queue(egress2, seen2, rest);
    if i == 0 {
        egress.queue.len() as int
    } else {
        assert(rest[i - 1] == statuses[i]);
        assert(statuses[0].0@ != statuses[i].0@);
        assert forall|a: int, b: int| 0 <= a < b < rest.len() implies rest[a].0@ != rest[b].0@ by {
            assert(rest[a] == statuses[a + 1] && rest[b] == statuses[b + 1]);
        }
        law_changed_statuses_are_streamed(egress2, seen2, rest, i - 1)
    }
}

proof fn lemma_polling_keeps_the_queue<K, S>(
    egress: EgressView<K, S>,
    seen: Map<Seq<char>, KnownStatus>,
    statuses: Seq<(String, AgentStatus, Option<String>)>,
)
    ensures
        ({
            let after = statuses_polled(egress, seen, statuses).0.queue;
            &&& egress.queue.len() <= after.len()
            &&& forall|i: int| 0 <= i < egress.queue.len() ==> after[i] == egress.queue[i]
        }),
    decreases statuses.len(),
{
    if statuses.len() > 0 {
        let (terminal_id, status, agent) = statuses[0];
        let known = (status, text::text_of(agent));
        let frame = FederationMessage::<K, S>::AgentStatus(
            AgentStatusMessage { terminal_id, mount_generation: MOUNT_GENERATION, status, agent },
        );
        if seen.contains_key(terminal_id@) && seen[terminal_id@] == known {
            lemma_polling_keeps_the_queue(egress, seen, statuses.drop_first());
        } else if egress.accepts() {
            lemma_polling_keeps_the_queue(
                egress.offered(frame),
                seen.insert(terminal_id@, known),
                statuses.drop_first(),
            );
        }
    }
}

/// Events stream to the end: where the queue has room for the whole slice, all
/// of it is in the queue afterwards, in order, behind what was there.
pub proof fn law_events_stream_in_order<K, S>(
    egress: EgressView<K, S>,
    cursor: u64,
    events: Seq<(u64, K)>,
    i: int,
)
    requires
        !egress.writer_gone,
        egress.queue.len() + events.len() + 1 <= egress.capacity,
        0 <= i < events.len(),
    ensures
        ({
            let after = egress.offered_all(event_frames(cursor, events));
            let frame = after.queue[after.queue.len() - events.len() + i];
            &&& after.queue.len() - egress.queue.len() - events.len() == if events[0].0 == cursor
                + 1 {
                0int
            } else {
                1int
            }
            &&& frame is Event && frame->Event_0 is Frame
            &&& frame->Event_0->Frame_source_seq == events[i].0
            &&& frame->Event_0->Frame_kind == events[i].1
        }),
{
    law_egress_is_bounded_and_ordered(egress, event_frames(cursor, events));
}

/// The answer to a split bears the number of its request. It names the new pane
/// and terminal exactly where they were made, and otherwise says why not.
pub proof fn law_splits_are_answered(
    request_id: u64,
    reply: Reply<Result<(String, String), String>>,
    response: SplitPaneResponse,
)
    requires
        call_ensures(split_pane_response, (request_id, reply), response),
    ensures
        response is Created ==> response->Created_request_id == request_id,
        response is Failed ==> response->Failed_request_id == request_id,
        response is Created <==> (reply is Answered && reply->Answered_0 is Ok),
        response is Created ==> response->new_pane_id == reply->Answered_0->Ok_0.0
            && response->new_terminal_id == reply->Answered_0->Ok_0.1,
        reply is Answered && reply->Answered_0 is Err ==> response->reason
            == reply->Answered_0->Err_0,
        reply is LoopGone ==> response->reason@ == "server event loop is gone"@,
        reply is Dropped ==> response->reason@ == "federation split-pane reply dropped"@,
{
}

/// A mount tells what the server answered and up to which event; where it did not
/// answer, it tells an empty session from the first event on.
pub proof fn law_a_mount_tells_the_answer<S>(
    server_instance_id: String,
    reply: Reply<(S, u64)>,
    empty: S,
    response: MountSnapshot<S>,
)
    requires
        call_ensures(snapshot_response::<S>, (&server_instance_id, reply, empty), response),
    ensures
        response.server_instance_id == server_instance_id,
        reply is Answered ==> response.snapshot == reply->Answered_0.0 && response.cursor
            == reply->Answered_0.1,
        !(reply is Answered) ==> response.snapshot == empty && response.cursor == 0,
{
}

/// Files are staged for those who agreed to it, and for nobody else.
pub proof fn law_staging_is_agreed_to(agreed: Vec<Capability>, staging: Option<StagingChannel>)
    requires
        call_ensures(StagingChannel::for_agreed, (&agreed,), staging),
    ensures
        staging is Some <==> exists|i: int|
            0 <= i < agreed@.len() && agreed@[i] == Capability::FileStaging,
        staging is Some ==> staging->0.jobs@.len() == 0 && staging->0.live == 0
            && !staging->0.worker_gone,
{
    if staging is Some {
        let i = agreed@.index_of(Capability::FileStaging);
        assert(agreed@[i] == Capability::FileStaging);
    }
}

/// What was sent to be staged is written under its name, unless the server shuts
/// down; what cannot be read is refused.
pub proof fn law_sent_files_are_written(
    shutdown: bool,
    request: ClipboardStageRequest,
    decoded: Option<Vec<u8>>,
    step: StagingStep,
)
    ensures
        call_ensures(
            staging_step_with,
            (shutdown, request.request_id, request.original_filename, decoded),
            step,
        ) ==> {
            &&& shutdown ==> step is Skip
            &&& !shutdown && decoded is Some ==> {
                &&& step is Write
                &&& step->Write_request_id == request.request_id
                &&& step->original_filename == request.original_filename
                &&& step->bytes == decoded->0
            }
            &&& !shutdown && decoded is None ==> {
                &&& step is Answer
                &&& step->Answer_0 is Failed
                &&& step->Answer_0->Failed_request_id == request.request_id
                &&& step->Answer_0->failure is InvalidPayload
            }
        },
        call_ensures(staging_step, (shutdown, request), step) ==> {
            let sent = crate::encoding::base64_bytes(request.payload_base64@);
            &&& shutdown ==> step is Skip
            &&& !shutdown && sent is Some ==> {
                &&& step is Write
                &&& step->Write_request_id == request.request_id
                &&& step->original_filename == request.original_filename
                &&& step->bytes@ == sent->0
            }
            &&& !shutdown && sent is None ==> {
                &&& step is Answer
                &&& step->Answer_0 is Failed
                &&& step->Answer_0->Failed_request_id == request.request_id
                &&& step->Answer_0->failure is InvalidPayload
            }
        },
{
}

/// The answer to a staged file bears the number of its request, and the path of
/// the file exactly where one was written.
pub proof fn law_staged_files_are_answered(
    request_id: u64,
    written: Result<Option<String>, ClipboardStageFailure>,
    response: ClipboardStageResponse,
)
    requires
        call_ensures(staged_response, (request_id, written), response),
    ensures
        response is Staged <==> (written is Ok && written->Ok_0 is Some),
        response is Staged ==> response->Staged_request_id == request_id && response->path
            == written->Ok_0->0,
        response is Failed ==> response->Failed_request_id == request_id,
        written is Ok && written->Ok_0 is None ==> response->failure is StagingUnavailable,
        written is Err ==> response->failure == written->Err_0,
{
}

/// A peer is taken by the handshake that it opens with, and by nothing else; what
/// was agreed is what it is told.
pub proof fn law_handshakes_open_connections<K, S>(
    first: Option<FederationMessage<K, S>>,
    peer: Option<Handshake>,
    negotiated: Result<Vec<Capability>, String>,
    reply: FederationMessage<K, S>,
)
    ensures
        call_ensures(opening_handshake::<K, S>, (first,), peer) ==> {
            &&& peer is Some <==> (first is Some && first->0 is Handshake)
            &&& peer is Some ==> peer->0 == first->0->Handshake_0
        },
        call_ensures(handshake_reply::<K, S>, (negotiated,), reply) ==> {
            &&& reply is HandshakeResponse
            &&& negotiated is Ok ==> reply->HandshakeResponse_0 is Accept
                && reply->HandshakeResponse_0->agreed_capabilities == negotiated->Ok_0
            &&& negotiated is Err ==> reply->HandshakeResponse_0 is Reject
                && reply->HandshakeResponse_0->reason == negotiated->Err_0
        },
{
}

/// The server offers to replay scrollback, to tell of agents and to stage files,
/// each once.
pub proof fn law_everything_is_offered_once(offered: Vec<Capability>)
    requires
        call_ensures(federation_capabilities, (), offered),
    ensures
        offered@.len() == 3,
        offered@.contains(Capability::ScrollbackReplay),
        offered@.contains(Capability::AgentStatus),
        offered@.contains(Capability::FileStaging),
{
    assert(offered@[0] == Capability::ScrollbackReplay);
    assert(offered@[1] == Capability::AgentStatus);
    assert(offered@[2] == Capability::FileStaging);
}

/// Connections are turned away until there are none left.
pub proof fn law_pending_connections_are_turned_away(outcome: AcceptOutcome, again: bool)
    requires
        call_ensures(reject_pending_federation_connections, (outcome,), again),
    ensures
        again <==> outcome is Accepted,
{
}

/// A request to split is read whole: the pane, the direction, the share and the
/// focus that it names are those that are handed on, under its number.
pub proof fn law_a_read_split_is_handed_on<K, S>(
    request: SplitPaneRequest,
    epoch: AcceptEpoch,
    connid: ConnId,
    first_cause: &mut FirstCauseCell,
    action: ReaderAction,
)
    requires
        call_ensures(
            reader_step::<K, S>,
            (
                Inbound::Frame(FederationMessage::SplitPaneRequest(request)),
                epoch,
                connid,
                first_cause,
            ),
            action,
        ),
    ensures
        action is Split,
        action->Split_request_id == request.request_id,
        action->Split_command is SplitPane,
        action->Split_command->SplitPane_target_pane_id == request.target_pane_id,
        action->Split_command->SplitPane_direction == request.direction,
        action->Split_command->SplitPane_ratio_bits == request.ratio_bits,
        action->Split_command->SplitPane_focus == request.focus,
        *final(first_cause) == *old(first_cause),
{
    law_split_requests_are_carried_whole::<K, S>(request, epoch, connid);
}

/// A terminal frame is read whole: input and sizes are handed on to the terminal
/// that they name, for the connection that they came from.
pub proof fn law_a_read_terminal_frame_is_handed_on(
    message: TerminalChannelMessage,
    epoch: AcceptEpoch,
    connid: ConnId,
    action: ReaderAction,
)
    requires
        call_ensures(handle_terminal_inbound, (message, epoch, connid), action),
    ensures
        message is Input ==> action == ReaderAction::Forward(
            FederationCommand::SendInput {
                epoch,
                connid,
                terminal_id: message->Input_terminal_id,
                bytes: message->Input_bytes,
            },
        ),
        message is Resize ==> action == ReaderAction::Forward(
            FederationCommand::Resize {
                epoch,
                connid,
                terminal_id: message->Resize_terminal_id,
                cols: message->Resize_cols,
                rows: message->Resize_rows,
            },
        ),
        message is Open ==> action is OpenTerminal && action->OpenTerminal_terminal_id
            == message->Open_terminal_id,
        message is Close ==> action == (ReaderAction::CloseTerminal {
            terminal_id: message->Close_terminal_id,
            command: FederationCommand::ReleaseTerminalSize {
                epoch,
                connid,
                terminal_id: message->Close_terminal_id,
            },
        }),
        message is Output ==> action is Ignore,
{
}

/// What waits to be sent is sent in order, each once.
pub proof fn law_outbound_messages_leave_in_order<K, S>(
    egress: &mut Egress<K, S>,
    next: Option<FederationMessage<K, S>>,
)
    requires
        call_ensures(Egress::<K, S>::next_outbound, (egress,), next),
    ensures
        old(egress)@.queue.len() == 0 ==> next is None && final(egress)@ == old(egress)@,
        old(egress)@.queue.len() > 0 ==> {
            &&& next == Some(old(egress)@.queue[0])
            &&& final(egress)@.queue.len() == old(egress)@.queue.len() - 1
            &&& forall|i: int|
                0 <= i < final(egress)@.queue.len() ==> #[trigger] final(egress)@.queue[i] == old(
                    egress,
                )@.queue[i + 1]
        },
{
}

/// Files are staged in the order in which they were sent, each once, and one that
/// is done makes room for another.
pub proof fn law_files_are_staged_in_order(
    channel: &mut StagingChannel,
    job: Option<ClipboardStageRequest>,
    done: &mut StagingChannel,
)
    ensures
        old(channel).wf() && call_ensures(StagingChannel::next_job, (channel,), job) ==> {
            &&& old(channel).jobs@.len() == 0 ==> job is None && final(channel).jobs@.len() == 0
            &&& old(channel).jobs@.len() > 0 ==> {
                &&& job == Some(old(channel).jobs@[0])
                &&& final(channel).jobs@.len() == old(channel).jobs@.len() - 1
                &&& forall|i: int|
                    0 <= i < final(channel).jobs@.len() ==> #[trigger] final(channel).jobs@[i]
                        == old(channel).jobs@[i + 1]
            }
            &&& final(channel).live == old(channel).live
        },
        old(done).wf() && old(done).jobs@.len() < old(done).live && call_ensures(
            StagingChannel::finish,
            (done,),
            (),
        ) ==> final(done).live == old(done).live - 1 && final(done).jobs@ == old(done).jobs@,
{
}

/// The agents are looked at on every fourth tick.
pub proof fn law_agents_are_due_every_fourth_tick(tick: &mut u32, agents_due: bool)
    requires
        call_ensures(next_tick, (tick,), agents_due),
    ensures
        *old(tick) < u32::MAX ==> *final(tick) == *old(tick) + 1,
        *old(tick) == u32::MAX ==> *final(tick) == 0,
        agents_due <==> *final(tick) as int % 4 == 0,
{
}

/// A frame is taken while the writer is there and the queue has room, and then
/// stands last; a full queue ends the connection for that reason, and a writer
/// that failed ends it too.
pub proof fn law_frames_are_queued<K, S>(
    egress: &mut Egress<K, S>,
    message: FederationMessage<K, S>,
    taken: bool,
    failing: &mut Egress<K, S>,
)
    ensures
        call_ensures(enqueue_outbound::<K, S>, (egress, message), taken) ==> {
            let room = old(egress).queue@.len() < old(egress).capacity;
            &&& taken <==> !old(egress).writer_gone && room
            &&& taken ==> final(egress).queue@ == old(egress).queue@.push(message)
                && final(egress).shutdown == old(egress).shutdown
            &&& !taken ==> final(egress).queue@ == old(egress).queue@
            &&& !old(egress).writer_gone && !room ==> final(egress).shutdown
            &&& !old(egress).writer_gone && !room && old(egress).first_cause.cause is None
                ==> final(egress).first_cause.cause == Some(TunnelExit::EgressOverflow)
        },
        call_ensures(Egress::<K, S>::writer_failed, (failing,), ()) ==> {
            &&& final(failing).writer_gone && final(failing).shutdown
            &&& old(failing).first_cause.cause is None ==> final(failing).first_cause.cause == Some(
                TunnelExit::WriterFailed,
            )
            &&& old(failing).first_cause.cause is Some ==> final(failing).first_cause.cause == old(
                failing,
            ).first_cause.cause
            &&& final(failing).queue@ == old(failing).queue@
        },
{
    if call_ensures(enqueue_outbound::<K, S>, (egress, message), taken) {
        law_a_full_queue_ends_the_connection(old(egress)@, message);
    }
}

/// A terminal that the session knows is opened once: its scrollback is queued, its
/// pump starts, and its child is asked to repaint. Otherwise nothing happens.
pub proof fn law_a_known_terminal_is_opened_once<K, S>(
    egress: &mut Egress<K, S>,
    pumps: &mut IdSet,
    terminal_id: String,
    subscribed: bool,
    replay: Vec<u8>,
    epoch: AcceptEpoch,
    connid: ConnId,
    repaint: Option<FederationCommand>,
)
    requires
        call_ensures(
            open_terminal::<K, S>,
            (egress, pumps, terminal_id, subscribed, replay, epoch, connid),
            repaint,
        ),
    ensures
        ({
            let room = !old(egress).writer_gone && old(egress).queue@.len() < old(egress).capacity;
            let wanted = subscribed && !old(pumps)@.contains(terminal_id@);
            &&& wanted && room ==> {
                &&& repaint == Some(FederationCommand::NudgeRedraw { epoch, connid, terminal_id })
                &&& final(pumps)@ == old(pumps)@.insert(terminal_id@)
                &&& final(egress).queue@ == old(egress).queue@.push(
                    FederationMessage::<K, S>::Terminal(
                        TerminalChannelMessage::Open { terminal_id, mount_generation: 1, replay },
                    ),
                )
            }
            &&& !wanted || !room ==> repaint is None && final(pumps)@ == old(pumps)@
                && final(egress).queue@ == old(egress).queue@
            &&& !wanted ==> final(egress).shutdown == old(egress).shutdown
        }),
{
}

/// What gathered in a terminal is streamed byte for byte while its pump runs; a
/// pump that was stopped, or whose connection ended, streams nothing and ends.
pub proof fn law_output_is_streamed<K, S>(
    egress: &mut Egress<K, S>,
    stopped: bool,
    terminal_id: String,
    bytes: Vec<u8>,
    running: bool,
)
    requires
        call_ensures(output_pump_turn::<K, S>, (egress, stopped, &terminal_id, bytes), running),
    ensures
        ({
            let room = !old(egress).writer_gone && old(egress).queue@.len() < old(egress).capacity;
            let idle = stopped || old(egress).shutdown;
            &&& idle ==> !running && final(egress).queue@ == old(egress).queue@
            &&& !idle && bytes@.len() == 0 ==> running && final(egress).queue@ == old(egress).queue@
            &&& !idle && bytes@.len() > 0 ==> (running <==> room)
            &&& !idle && bytes@.len() > 0 && room ==> final(egress).queue@
                == old(egress).queue@.push(
                FederationMessage::<K, S>::Terminal(
                    TerminalChannelMessage::Output { terminal_id, mount_generation: 1, bytes },
                ),
            )
        }),
{
}

/// A file that is sent waits for the worker behind the others while fewer than two
/// are under way, and is refused as busy otherwise; without an agreement it is
/// dropped.
pub proof fn law_sent_files_wait_in_turn<K, S>(
    egress: &mut Egress<K, S>,
    staging: &mut Option<StagingChannel>,
    request: ClipboardStageRequest,
)
    requires
        call_ensures(
            handle_clipboard_stage_request::<K, S>,
            (egress, staging, request),
            (),
        ),
    ensures
        *old(staging) is None ==> *final(staging) is None && final(egress).queue@
            == old(egress).queue@,
        *old(staging) is Some ==> {
            let before = old(staging)->Some_0;
            let after = final(staging)->Some_0;
            let room = before.live < 2 && before.jobs@.len() < 2 && !before.worker_gone;
            let open = !old(egress).writer_gone && old(egress).queue@.len() < old(egress).capacity;
            &&& *final(staging) is Some
            &&& room ==> after.jobs@ == before.jobs@.push(request) && after.live == before.live + 1
                && final(egress).queue@ == old(egress).queue@
            &&& !room ==> after.jobs@ == before.jobs@ && after.live == before.live
            &&& !room && open ==> final(egress).queue@ == old(egress).queue@.push(
                FederationMessage::<K, S>::ClipboardStageResponse(
                    ClipboardStageResponse::Failed {
                        request_id: request.request_id,
                        failure: ClipboardStageFailure::Busy,
                    },
                ),
            )
        },
{
}

/// Events are streamed in order behind what waits, a gap before them being told,
/// and the cursor moves to the last one; where they do not all fit, or there is no
/// answer, the stream ends.
pub proof fn law_events_move_the_cursor<K, S>(
    egress: &mut Egress<K, S>,
    cursor: &mut u64,
    events: Option<Vec<(u64, K)>>,
    running: bool,
    i: int,
)
    requires
        call_ensures(poll_events::<K, S>, (egress, cursor, events), running),
    ensures
        events is None ==> !running && *final(cursor) == *old(cursor) && final(egress).queue@
            == old(egress).queue@,
        events is Some && events->0@.len() == 0 ==> running && *final(cursor) == *old(cursor)
            && final(egress).queue@ == old(egress).queue@,
        events is Some && 0 <= i < events->0@.len() && !old(egress).writer_gone
            && old(egress).queue@.len() + events->0@.len() + 1 <= old(egress).capacity ==> {
            let sent = events->0@;
            let queue = final(egress).queue@;
            let frame = queue[queue.len() - sent.len() + i];
            &&& running
            &&& *final(cursor) == sent.last().0
            &&& frame is Event && frame->Event_0 is Frame
            &&& frame->Event_0->Frame_source_seq == sent[i].0
            &&& frame->Event_0->Frame_kind == sent[i].1
            &&& sent[0].0 == *old(cursor) + 1 ==> queue.len() == old(egress).queue@.len()
                + sent.len()
            &&& sent[0].0 != *old(cursor) + 1 ==> queue.len() == old(egress).queue@.len()
                + sent.len() + 1
        },
{
    if events is Some && 0 <= i < events->0@.len() && !old(egress).writer_gone
        && old(egress).queue@.len() + events->0@.len() + 1 <= old(egress).capacity {
        law_events_stream_in_order::<K, S>(old(egress)@, *old(cursor), events->0@, i);
    }
}

/// A frame may be as long as its channel allows, and no longer.
pub proof fn law_frames_keep_to_their_cap(
    claimed_len: usize,
    channel_cap: usize,
    checked: Result<(), String>,
)
    requires
        call_ensures(check_channel_cap, (claimed_len, channel_cap), checked),
    ensures
        claimed_len <= channel_cap ==> checked is Ok,
        claimed_len > channel_cap ==> checked is Err,
{
}

/// A status that was recorded is the one kept for its terminal, and what is kept for
/// others stays.
pub proof fn law_recorded_statuses_are_kept(
    seen: &mut SeenStatuses,
    terminal_id: String,
    status: AgentStatus,
    agent: Option<String>,
)
    requires
        old(seen).wf(),
        call_ensures(SeenStatuses::record, (seen, terminal_id, status, agent), ()),
    ensures
        final(seen)@.contains_key(terminal_id@),
        final(seen)@[terminal_id@].0 == status,
        forall|other: Seq<char>|
            other != terminal_id@ ==> (#[trigger] final(seen)@.contains_key(other) <==> old(
                seen,
            )@.contains_key(other)),
        forall|other: Seq<char>|
            other != terminal_id@ && old(seen)@.contains_key(other) ==> #[trigger] final(seen)@[other] == old(seen)@[other],
{
}

/// A connection mounts step by step: admitted, mounted, told what is there, and
/// running. Anything else closes it, and gives the slot back where it held it.
pub proof fn law_a_mount_goes_step_by_step<S>(
    state: MountState,
    event: MountEvent<S>,
    next: (MountState, MountAction<S>),
)
    requires
        call_ensures(mount_step::<S>, (state, event), next),
    ensures
        state is Acquiring && event is Admitted && event->Admitted_0 is Accepted ==> next.0
            is Reserved && next.1 is Mount,
        state is Acquiring && event is Admitted && !(event->Admitted_0 is Accepted) ==> next.0
            is Closed && next.1 is Close,
        state is Reserved && event is Mounted && event->Mounted_0 is Some ==> {
            &&& next.0 is Opening
            &&& next.1 is WriteSnapshot
            &&& next.1->snapshot == event->Mounted_0->Some_0.0
            &&& next.1->cursor == event->Mounted_0->Some_0.1
        },
        state is Reserved && event is Mounted && event->Mounted_0 is None ==> next.0 is Closed
            && next.1 is ReleaseAndClose,
        state is Opening && event is SnapshotWritten ==> next.0 is Running && next.1 is Run,
        state is Opening && !(event is SnapshotWritten) ==> next.0 is Closed && next.1
            is ReleaseAndClose,
{
}

} // verus!
