//! A client's first message, and what each later one leads to.

use vstd::prelude::*;

use crate::server::headless::clamp_terminal_size;
use crate::server::headless::ServerEvent;
use crate::server::headless::MIN_CLIENT_COLS;
use crate::server::headless::MIN_CLIENT_ROWS;

verus! {

/// How long a client has for its first message, in seconds. A second less than
/// the deadline that clients rely on, so that overheads fit.
pub const HANDSHAKE_TIMEOUT_SECS: u64 = 4;

/// The largest input a client may send at once, in bytes.
pub const MAX_INPUT_PAYLOAD: usize = 1048576;

/// A message from a client.
#[derive(Debug)]
pub enum ClientMessage {
    Hello { version: u32, cols: u16, rows: u16 },
    Input { data: Vec<u8> },
    Resize { cols: u16, rows: u16 },
    Detach,
}

/// How a client's first message is answered.
#[derive(Debug)]
pub enum HandshakeOutcome {
    /// Welcome the client at this size.
    Welcome { cols: u16, rows: u16 },
    /// Tell the client what is wrong, and close.
    Reject { error: String },
}

/// At least the smallest size of a client.
pub open spec fn at_least(size: u16, min: u16) -> u16 {
    if size < min {
        min
    } else {
        size
    }
}

/// Answer a client's first message; `incompatible` is why its version does not
/// fit, if it does not.
pub fn answer_hello(first: ClientMessage, incompatible: Option<String>) -> (outcome:
    HandshakeOutcome)
    ensures
        match first {
            ClientMessage::Hello { cols, rows, .. } => match incompatible {
                Some(reason) => outcome == (HandshakeOutcome::Reject { error: reason }),
                None => outcome == (HandshakeOutcome::Welcome {
                    cols: at_least(cols, MIN_CLIENT_COLS),
                    rows: at_least(rows, MIN_CLIENT_ROWS),
                }),
            },
            _ => outcome matches HandshakeOutcome::Reject { error } && error@
                == "expected Hello as first message"@,
        },
{
    match first {
        ClientMessage::Hello { cols, rows, .. } => match incompatible {
            Some(reason) => HandshakeOutcome::Reject { error: reason },
            None => {
                let (cols, rows) = clamp_terminal_size(cols, rows);
                HandshakeOutcome::Welcome { cols, rows }
            },
        },
        _ => HandshakeOutcome::Reject { error: "expected Hello as first message".to_owned() },
    }
}

/// What reading from a client brought.
#[derive(Debug)]
pub enum ClientRead {
    Message(ClientMessage),
    /// The connection ended, or what came is no message.
    Ended,
}

/// What a read leads to.
#[derive(Debug)]
pub struct ReadStep {
    /// What to tell the server, if anything.
    pub event: Option<ServerEvent>,
    /// Whether to read on.
    pub reading: bool,
}

/// Take what a client sent one step further. Input over the limit counts as a
/// lost connection, though the reading goes on until the server is gone; a
/// second greeting is passed over.
pub fn client_read_step(client_id: u64, read: ClientRead) -> (step: ReadStep)
    ensures
        step == (match read {
            ClientRead::Ended => ReadStep {
                event: Some(ServerEvent::ClientDisconnected { client_id }),
                reading: false,
            },
            ClientRead::Message(ClientMessage::Input { data }) => ReadStep {
                event: Some(
                    if data@.len() > MAX_INPUT_PAYLOAD {
                        ServerEvent::ClientDisconnected { client_id }
                    } else {
                        ServerEvent::ClientInput { client_id, data }
                    },
                ),
                reading: true,
            },
            ClientRead::Message(ClientMessage::Resize { cols, rows }) => ReadStep {
                event: Some(
                    ServerEvent::ClientResize {
                        client_id,
                        cols: at_least(cols, MIN_CLIENT_COLS),
                        rows: at_least(rows, MIN_CLIENT_ROWS),
                    },
                ),
                reading: true,
            },
            ClientRead::Message(ClientMessage::Detach) => ReadStep {
                event: Some(ServerEvent::ClientDetach { client_id }),
                reading: true,
            },
            ClientRead::Message(ClientMessage::Hello { .. }) => ReadStep {
                event: None,
                reading: true,
            },
        }),
{
    match read {
        ClientRead::Ended => ReadStep {
            event: Some(ServerEvent::ClientDisconnected { client_id }),
            reading: false,
        },
        ClientRead::Message(ClientMessage::Input { data }) => {
            if data.len() > MAX_INPUT_PAYLOAD {
                ReadStep {
                    event: Some(ServerEvent::ClientDisconnected { client_id }),
                    reading: true,
                }
            } else {
                ReadStep {
                    event: Some(ServerEvent::ClientInput { client_id, data }),
                    reading: true,
                }
            }
        },
        ClientRead::Message(ClientMessage::Resize { cols, rows }) => {
            let (cols, rows) = clamp_terminal_size(cols, rows);
            ReadStep {
                event: Some(ServerEvent::ClientResize { client_id, cols, rows }),
                reading: true,
            }
        },
        ClientRead::Message(ClientMessage::Detach) => ReadStep {
            event: Some(ServerEvent::ClientDetach { client_id }),
            reading: true,
        },
        ClientRead::Message(ClientMessage::Hello { .. }) => ReadStep { event: None, reading: true },
    }
}

/// Whatever a client reports, the size that reaches the server has at least one
/// column and one row, and no input over the limit reaches it.
pub proof fn law_client_events_are_bounded(client_id: u64, read: ClientRead, step: ReadStep)
    requires
        call_ensures(client_read_step, (client_id, read), step),
    ensures
        step.event matches Some(ServerEvent::ClientResize { cols, rows, .. }) ==> cols >= 1 && rows
            >= 1,
        step.event matches Some(ServerEvent::ClientInput { data, .. }) ==> data@.len()
            <= MAX_INPUT_PAYLOAD,
{
}

/// A greeting that fits is welcomed at the client's own size, where that is not
/// empty; a version that does not fit is rejected with the reason, and anything
/// else than a greeting is rejected as such.
pub proof fn law_fitting_greetings_are_welcomed(
    first: ClientMessage,
    incompatible: Option<String>,
    outcome: HandshakeOutcome,
)
    requires
        call_ensures(answer_hello, (first, incompatible), outcome),
    ensures
        outcome is Welcome <==> first is Hello && incompatible is None,
        outcome is Welcome && first->Hello_cols >= 1 ==> outcome->Welcome_cols == first->Hello_cols,
        outcome is Welcome && first->Hello_rows >= 1 ==> outcome->Welcome_rows == first->Hello_rows,
        outcome is Welcome && first->Hello_cols == 0 ==> outcome->Welcome_cols == 1,
        outcome is Welcome && first->Hello_rows == 0 ==> outcome->Welcome_rows == 1,
        first is Hello && incompatible is Some ==> outcome->Reject_error == incompatible->0,
        !(first is Hello) ==> outcome->Reject_error@ == "expected Hello as first message"@,
{
}

/// What a client sends reaches the server under the client's own id and whole:
/// its bytes, its size, its wish to detach. Reading goes on until the connection
/// ends.
pub proof fn law_client_messages_reach_the_server(client_id: u64, read: ClientRead, step: ReadStep)
    requires
        call_ensures(client_read_step, (client_id, read), step),
    ensures
        step.reading <==> read is Message,
        read is Ended ==> step.event == Some(ServerEvent::ClientDisconnected { client_id }),
        read is Message ==> {
            let message = read->Message_0;
            &&& message is Detach ==> step.event == Some(ServerEvent::ClientDetach { client_id })
            &&& message is Input && message->Input_data@.len() <= 1048576 ==> step.event == Some(
                ServerEvent::ClientInput { client_id, data: message->Input_data },
            )
            &&& message is Input && message->Input_data@.len() > 1048576 ==> step.event == Some(
                ServerEvent::ClientDisconnected { client_id },
            )
            &&& message is Resize && message->Resize_cols >= 1 && message->Resize_rows >= 1
                ==> step.event == Some(
                ServerEvent::ClientResize {
                    client_id,
                    cols: message->Resize_cols,
                    rows: message->Resize_rows,
                },
            )
            &&& message is Hello ==> step.event is None
        },
{
}

} // verus!
