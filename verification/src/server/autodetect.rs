//! Launching without a subcommand: attach to a server that listens, or start one
//! and wait for it.

use vstd::prelude::*;

use crate::text;

verus! {

/// How long a started server may take until its socket answers, in seconds.
pub const SERVER_READY_TIMEOUT_SECS: u64 = 5;

/// How often that is looked at, in milliseconds.
pub const SOCKET_POLL_INTERVAL_MS: u64 = 50;

/// How connecting to a server's socket went.
#[derive(Debug, Clone, Copy, PartialEq, Eq, Structural)]
pub enum ConnectOutcome {
    Connected,
    /// Nobody listens on the socket.
    Refused,
    TimedOut,
    /// The socket went away.
    NotFound,
    /// Anything else, such as a lack of permission.
    Failed,
}

/// Whether a server listens on a socket, given whether its file exists and how
/// connecting to it went.
pub fn is_server_listening(exists: bool, connect: ConnectOutcome) -> (listening: bool)
    ensures
        listening == (exists && connect == ConnectOutcome::Connected),
{
    if !exists {
        return false;
    }
    match connect {
        ConnectOutcome::Connected => true,
        ConnectOutcome::Refused | ConnectOutcome::TimedOut => false,
        ConnectOutcome::NotFound => false,
        ConnectOutcome::Failed => false,
    }
}

/// What waiting for a socket does next.
#[derive(Debug)]
pub enum ReadyStep {
    Ready,
    /// Look again after a while.
    Again,
    /// Give up, with this complaint.
    GiveUp(String),
}

/// What a server that did not become ready is complained about with.
pub open spec fn not_ready_view(timeout_secs: nat, socket: Seq<char>) -> Seq<char> {
    "server did not become ready within "@ + text::decimal(timeout_secs) + "s (socket: "@ + socket
        + ")"@
}

/// Decide how to go on waiting for a socket. After the deadline it is not looked
/// at any more.
pub fn wait_for_server_socket(
    now_ms: u64,
    deadline_ms: u64,
    listening: bool,
    timeout_secs: u64,
    socket: &str,
) -> (step: ReadyStep)
    ensures
        match step {
            ReadyStep::Ready => now_ms < deadline_ms && listening,
            ReadyStep::Again => now_ms < deadline_ms && !listening,
            ReadyStep::GiveUp(complaint) => now_ms >= deadline_ms && complaint@ == not_ready_view(
                timeout_secs as nat,
                socket@,
            ),
        },
{
    if now_ms < deadline_ms {
        if listening {
            ReadyStep::Ready
        } else {
            ReadyStep::Again
        }
    } else {
        let mut complaint = "server did not become ready within ".to_owned();
        complaint.append(text::decimal_text(timeout_secs).as_str());
        complaint.append("s (socket: ");
        complaint.append(socket);
        complaint.append(")");
        ReadyStep::GiveUp(complaint)
    }
}

/// Where a launch stands.
#[derive(Debug, Clone, Copy, PartialEq, Eq, Structural)]
pub enum LaunchState {
    Detecting,
    Spawning,
    Waiting,
    Attaching,
    Failed,
}

/// What happened to a launch.
#[derive(Debug, Clone, Copy, PartialEq, Eq, Structural)]
pub enum LaunchEvent {
    /// Whether a server listens already.
    Detected { listening: bool },
    /// Whether the server process could be started.
    Spawned { started: bool },
    /// Whether the socket became ready in time.
    Waited { ready: bool },
}

/// The next state of a launch.
pub open spec fn launched(state: LaunchState, event: LaunchEvent) -> LaunchState {
    match (state, event) {
        (LaunchState::Detecting, LaunchEvent::Detected { listening }) => if listening {
            LaunchState::Attaching
        } else {
            LaunchState::Spawning
        },
        (LaunchState::Spawning, LaunchEvent::Spawned { started }) => if started {
            LaunchState::Waiting
        } else {
            LaunchState::Failed
        },
        (LaunchState::Waiting, LaunchEvent::Waited { ready }) => if ready {
            LaunchState::Attaching
        } else {
            LaunchState::Failed
        },
        (state, _) => state,
    }
}

/// Take a launch one step further: detect a server, start one if none listens,
/// wait for its socket, attach.
pub fn auto_detect_launch(state: LaunchState, event: LaunchEvent) -> (next: LaunchState)
    ensures
        next == launched(state, event),
{
    match state {
        LaunchState::Detecting => match event {
            LaunchEvent::Detected { listening } => {
                if listening {
                    LaunchState::Attaching
                } else {
                    LaunchState::Spawning
                }
            },
            _ => state,
        },
        LaunchState::Spawning => match event {
            LaunchEvent::Spawned { started } => {
                if started {
                    LaunchState::Waiting
                } else {
                    LaunchState::Failed
                }
            },
            _ => state,
        },
        LaunchState::Waiting => match event {
            LaunchEvent::Waited { ready } => {
                if ready {
                    LaunchState::Attaching
                } else {
                    LaunchState::Failed
                }
            },
            _ => state,
        },
        _ => state,
    }
}

/// A server is started only where none listens, and a client attaches only to
/// one that listens.
pub proof fn law_launch_starts_one_server(state: LaunchState, event: LaunchEvent)
    ensures
        launched(state, event) is Spawning && !(state is Spawning) ==> event == (
        LaunchEvent::Detected { listening: false }),
        launched(state, event) is Attaching && !(state is Attaching) ==> event == (
        LaunchEvent::Detected { listening: true }) || event == (LaunchEvent::Waited {
            ready: true,
        }),
{
}

/// The complaint about a server process that cannot be started.
pub fn spawn_failure(reason: &str) -> (complaint: String)
    ensures
        complaint@ == "failed to spawn herdr server: "@ + reason@,
{
    let mut complaint = "failed to spawn herdr server: ".to_owned();
    complaint.append(reason);
    complaint
}

/// The complaint about an executable that cannot be found.
pub fn executable_failure(reason: &str) -> (complaint: String)
    ensures
        complaint@ == "failed to determine herdr executable path: "@ + reason@,
{
    let mut complaint = "failed to determine herdr executable path: ".to_owned();
    complaint.append(reason);
    complaint
}

/// A launch comes to its end: with a server that listens it attaches at once;
/// without one it starts a server, and attaches once that is ready. It fails
/// where the server cannot be started or does not become ready.
pub proof fn law_a_launch_attaches(listening: bool, started: bool, ready: bool)
    ensures
        ({
            let detected = launched(
                LaunchState::Detecting,
                LaunchEvent::Detected { listening },
            );
            let spawned = launched(detected, LaunchEvent::Spawned { started });
            let waited = launched(spawned, LaunchEvent::Waited { ready });
            &&& listening ==> detected is Attaching && spawned is Attaching && waited is Attaching
            &&& !listening ==> detected is Spawning
            &&& !listening && started ==> spawned is Waiting
            &&& !listening && started && ready ==> waited is Attaching
            &&& !listening && !started ==> spawned is Failed && waited is Failed
            &&& !listening && started && !ready ==> waited is Failed
        }),
{
}

/// A launch whose end is reached stays there.
pub proof fn law_a_launch_ends_once(state: LaunchState, event: LaunchEvent)
    requires
        state is Attaching || state is Failed,
    ensures
        launched(state, event) == state,
{
}

/// A server listens where its socket is there and answers.
pub proof fn law_a_server_that_answers_listens(
    exists: bool,
    connect: ConnectOutcome,
    listening: bool,
)
    requires
        call_ensures(is_server_listening, (exists, connect), listening),
    ensures
        listening ==> exists && connect is Connected,
        exists && connect is Connected ==> listening,
{
}

/// Before the deadline a server is ready as soon as it listens; from the deadline
/// on the wait is given up, listening or not.
pub proof fn law_waiting_ends_at_the_deadline(
    now_ms: u64,
    deadline_ms: u64,
    listening: bool,
    timeout_secs: u64,
    socket: &str,
    step: ReadyStep,
)
    requires
        call_ensures(
            wait_for_server_socket,
            (now_ms, deadline_ms, listening, timeout_secs, socket),
            step,
        ),
    ensures
        now_ms < deadline_ms && listening ==> step is Ready,
        now_ms < deadline_ms && !listening ==> step is Again,
        now_ms >= deadline_ms ==> step is GiveUp,
{
}

/// A complaint says what failed and why.
pub proof fn law_failures_tell_why(reason: &str, spawned: String, found: String)
    ensures
        call_ensures(spawn_failure, (reason,), spawned) ==> reason@.is_suffix_of(spawned@)
            && spawned@.len() == reason@.len() + "failed to spawn herdr server: "@.len(),
        call_ensures(executable_failure, (reason,), found) ==> reason@.is_suffix_of(found@)
            && found@.len() == reason@.len() + "failed to determine herdr executable path: "@.len(),
{
    if call_ensures(spawn_failure, (reason,), spawned) {
        let lead = "failed to spawn herdr server: "@;
        assert(spawned@.subrange(lead.len() as int, spawned@.len() as int) =~= reason@);
    }
    if call_ensures(executable_failure, (reason,), found) {
        let lead = "failed to determine herdr executable path: "@;
        assert(found@.subrange(lead.len() as int, found@.len() as int) =~= reason@);
    }
}

/// A launch looks for a server, starts one where none listens, waits for it, and
/// attaches; what fails ends it.
pub proof fn law_a_launch_goes_step_by_step(
    state: LaunchState,
    event: LaunchEvent,
    next: LaunchState,
)
    requires
        call_ensures(auto_detect_launch, (state, event), next),
    ensures
        state is Detecting && event == (LaunchEvent::Detected { listening: true }) ==> next
            is Attaching,
        state is Detecting && event == (LaunchEvent::Detected { listening: false }) ==> next
            is Spawning,
        state is Spawning && event == (LaunchEvent::Spawned { started: true }) ==> next is Waiting,
        state is Spawning && event == (LaunchEvent::Spawned { started: false }) ==> next is Failed,
        state is Waiting && event == (LaunchEvent::Waited { ready: true }) ==> next is Attaching,
        state is Waiting && event == (LaunchEvent::Waited { ready: false }) ==> next is Failed,
        state is Failed ==> next is Failed,
{
}

} // verus!
