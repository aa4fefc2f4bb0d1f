//! The headless server: attached clients, the one that owns the screen, and what
//! each of them is sent.
//!
//! The client in the foreground drives the size of the shared panes and the
//! host colors; side effects such as clipboard writes and notifications reach
//! it alone. Effects on the session itself are gathered in order in
//! [`HeadlessServer::effects`].

use vstd::prelude::*;

use crate::encoding;
use crate::server::notifications::{NotifyKind, ToastDelivery, ToastKind, ToastNotification};
use crate::sound::Sound;
use crate::text;

verus! {

/// Size of the shared panes while no client is attached.
pub const MIN_COLS: u16 = 80;

pub const MIN_ROWS: u16 = 24;

/// Smallest size a client may have. A narrow client must be able to drive narrow
/// renders, or it would see its right edge clipped.
pub const MIN_CLIENT_COLS: u16 = 1;

pub const MIN_CLIENT_ROWS: u16 = 1;

/// The terminal size a client may impose: at least one column and one row.
pub fn clamp_terminal_size(cols: u16, rows: u16) -> (size: (u16, u16))
    ensures
        size.0 == if cols < MIN_CLIENT_COLS {
            MIN_CLIENT_COLS
        } else {
            cols
        },
        size.1 == if rows < MIN_CLIENT_ROWS {
            MIN_CLIENT_ROWS
        } else {
            rows
        },
{
    let clamped_cols: u16 = if cols < MIN_CLIENT_COLS {
        MIN_CLIENT_COLS
    } else {
        cols
    };
    let clamped_rows: u16 = if rows < MIN_CLIENT_ROWS {
        MIN_CLIENT_ROWS
    } else {
        rows
    };
    (clamped_cols, clamped_rows)
}

#[derive(Debug, Clone, Copy, PartialEq, Eq, Structural)]
pub struct RgbColor {
    pub r: u8,
    pub g: u8,
    pub b: u8,
}

/// Which default color of the host terminal.
#[derive(Debug, Clone, Copy, PartialEq, Eq, Structural)]
pub enum DefaultColorKind {
    Foreground,
    Background,
}

/// The default colors of a client's terminal, as far as it reported them.
#[derive(Debug, Clone, Copy, PartialEq, Eq, Structural)]
pub struct TerminalTheme {
    pub foreground: Option<RgbColor>,
    pub background: Option<RgbColor>,
}

impl TerminalTheme {
    pub open spec fn colored(self, kind: DefaultColorKind, color: RgbColor) -> TerminalTheme {
        match kind {
            DefaultColorKind::Foreground => TerminalTheme { foreground: Some(color), ..self },
            DefaultColorKind::Background => TerminalTheme { background: Some(color), ..self },
        }
    }

    pub fn is_empty(&self) -> (empty: bool)
        ensures
            empty == (self.foreground is None && self.background is None),
    {
        self.foreground.is_none() && self.background.is_none()
    }

    pub fn with_color(self, kind: DefaultColorKind, color: RgbColor) -> (theme: TerminalTheme)
        ensures
            theme == self.colored(kind, color),
    {
        match kind {
            DefaultColorKind::Foreground => TerminalTheme {
                foreground: Some(color),
                background: self.background,
            },
            DefaultColorKind::Background => TerminalTheme {
                foreground: self.foreground,
                background: Some(color),
            },
        }
    }
}

impl Default for TerminalTheme {
    fn default() -> (theme: Self)
        ensures
            theme == (TerminalTheme { foreground: None, background: None }),
    {
        TerminalTheme { foreground: None, background: None }
    }
}

/// A rendered screen: its size and its encoded cells and cursor.
#[derive(Debug)]
pub struct FrameData {
    pub width: u16,
    pub height: u16,
    pub content: Vec<u8>,
}

/// A rendered screen, for contracts.
pub struct FrameView {
    pub width: u16,
    pub height: u16,
    pub content: Seq<u8>,
}

impl FrameData {
    pub open spec fn view(&self) -> FrameView {
        FrameView { width: self.width, height: self.height, content: self.content@ }
    }

    /// Whether two screens show the same.
    pub fn same_as(&self, other: &FrameData) -> (same: bool)
        ensures
            same == (self@ == other@),
    {
        if self.width != other.width || self.height != other.height || self.content.len()
            != other.content.len() {
            return false;
        }
        let mut i: usize = 0;
        while i < self.content.len()
            invariant
                i <= self.content.len(),
                self.content.len() == other.content.len(),
                forall|j: int| 0 <= j < i ==> self.content@[j] == other.content@[j],
            decreases self.content.len() - i,
        {
            if self.content[i] != other.content[i] {
                return false;
            }
            i = i + 1;
        }
        assert(self.content@ =~= other.content@);
        true
    }

    /// A copy of the screen.
    pub fn copy(&self) -> (copy: FrameData)
        ensures
            copy@ == self@,
    {
        let copy = FrameData {
            width: self.width,
            height: self.height,
            content: self.content.clone(),
        };
        assert(copy.content@ =~= self.content@);
        copy
    }
}

/// A message to a client.
#[derive(Debug)]
pub enum ServerMessage {
    Welcome { version: u32, error: Option<String> },
    Frame(FrameData),
    Clipboard { data: String },
    Notify { kind: NotifyKind, message: String },
    ReloadSoundConfig,
    ServerShutdown { reason: Option<String> },
}

/// A message to a client, for contracts.
pub enum MessageView {
    Welcome { version: u32, error: Option<Seq<char>> },
    Frame(FrameView),
    Clipboard { data: Seq<char> },
    Notify { kind: NotifyKind, message: Seq<char> },
    ReloadSoundConfig,
    ServerShutdown { reason: Option<Seq<char>> },
}

impl ServerMessage {
    pub open spec fn view(&self) -> MessageView {
        match *self {
            ServerMessage::Welcome { version, error } => MessageView::Welcome {
                version,
                error: text::text_of(error),
            },
            ServerMessage::Frame(frame) => MessageView::Frame(frame@),
            ServerMessage::Clipboard { data } => MessageView::Clipboard { data: data@ },
            ServerMessage::Notify { kind, message } => MessageView::Notify {
                kind,
                message: message@,
            },
            ServerMessage::ReloadSoundConfig => MessageView::ReloadSoundConfig,
            ServerMessage::ServerShutdown { reason } => MessageView::ServerShutdown {
                reason: text::text_of(reason),
            },
        }
    }

    fn copy(&self) -> (copy: ServerMessage)
        ensures
            copy@ == self@,
    {
        match self {
            ServerMessage::Welcome { version, error } => ServerMessage::Welcome {
                version: *version,
                error: error.clone(),
            },
            ServerMessage::Frame(frame) => ServerMessage::Frame(frame.copy()),
            ServerMessage::Clipboard { data } => ServerMessage::Clipboard { data: data.clone() },
            ServerMessage::Notify { kind, message } => ServerMessage::Notify {
                kind: *kind,
                message: message.clone(),
            },
            ServerMessage::ReloadSoundConfig => ServerMessage::ReloadSoundConfig,
            ServerMessage::ServerShutdown { reason } => ServerMessage::ServerShutdown {
                reason: reason.clone(),
            },
        }
    }
}

/// The way to a client: what waits to be written to it.
#[derive(Debug)]
pub struct ClientWriter {
    pub queue: Vec<ServerMessage>,
    /// The other end is gone; nothing is taken any more.
    pub closed: bool,
}

/// The way to a client, for contracts.
pub struct WriterView {
    pub queue: Seq<MessageView>,
    pub closed: bool,
}

impl ClientWriter {
    pub open spec fn view(&self) -> WriterView {
        WriterView {
            queue: self.queue@.map_values(|message: ServerMessage| message@),
            closed: self.closed,
        }
    }

    pub fn new() -> (writer: ClientWriter)
        ensures
            writer@ == (WriterView { queue: Seq::empty(), closed: false }),
    {
        let writer = ClientWriter { queue: Vec::new(), closed: false };
        assert(writer@.queue =~= Seq::empty());
        writer
    }

    /// Queue a message, unless the other end is gone.
    pub fn send(&mut self, message: ServerMessage) -> (sent: bool)
        ensures
            sent == !old(self).closed,
            final(self)@ == old(self)@.sent(message@),
    {
        if self.closed {
            return false;
        }
        self.queue.push(message);
        assert(self@.queue =~= old(self)@.queue.push(message@));
        true
    }
}

impl WriterView {
    pub open spec fn sent(self, message: MessageView) -> WriterView {
        if self.closed {
            self
        } else {
            WriterView { queue: self.queue.push(message), ..self }
        }
    }
}

pub open spec fn writer_view(writer: Option<ClientWriter>) -> Option<WriterView> {
    match writer {
        Some(writer) => Some(writer@),
        None => None,
    }
}

/// An attached client.
#[derive(Debug)]
pub struct ClientConnection {
    pub client_id: u64,
    /// The client's terminal size, clamped.
    pub terminal_size: (u16, u16),
    pub host_terminal_theme: TerminalTheme,
    /// Whether the client's own terminal has the focus, as last reported.
    pub outer_terminal_focus: Option<bool>,
    /// When the client was last active, on the server's own count.
    pub last_activity: u64,
    /// The last screen sent to the client.
    pub last_frame: Option<FrameData>,
    pub writer: Option<ClientWriter>,
}

/// An attached client, for contracts.
pub struct ClientView {
    pub client_id: u64,
    pub terminal_size: (u16, u16),
    pub host_terminal_theme: TerminalTheme,
    pub outer_terminal_focus: Option<bool>,
    pub last_activity: u64,
    pub last_frame: Option<FrameView>,
    pub writer: Option<WriterView>,
}

impl ClientConnection {
    pub open spec fn view(&self) -> ClientView {
        ClientView {
            client_id: self.client_id,
            terminal_size: self.terminal_size,
            host_terminal_theme: self.host_terminal_theme,
            outer_terminal_focus: self.outer_terminal_focus,
            last_activity: self.last_activity,
            last_frame: match self.last_frame {
                Some(frame) => Some(frame@),
                None => None,
            },
            writer: writer_view(self.writer),
        }
    }
}

/// Something the session has to do.
#[derive(Debug, Clone, Copy, PartialEq, Eq, Structural)]
pub enum SessionEffect {
    /// Lay the panes out for this many columns and rows.
    ResizePanes { cols: u16, rows: u16 },
    /// The user sees the active tab.
    MarkActiveTabSeen,
    /// Adopt the host terminal's colors.
    AdoptTheme(TerminalTheme),
}

/// The headless server.
#[derive(Debug)]
pub struct HeadlessServer {
    pub clients: Vec<ClientConnection>,
    pub next_client_id: u64,
    /// The client that drives the shared size and colors.
    pub foreground_client_id: Option<u64>,
    pub next_activity_stamp: u64,
    /// Size of the shared panes.
    pub effective_size: (u16, u16),
    /// The session's idea of the outer terminal's focus.
    pub outer_terminal_focus: Option<bool>,
    /// The session's idea of the host terminal's colors.
    pub host_terminal_theme: TerminalTheme,
    pub shutting_down: bool,
    /// What the session has to do, in order.
    pub effects: Vec<SessionEffect>,
}

/// The headless server, for contracts.
pub struct ServerView {
    pub clients: Seq<ClientView>,
    pub next_client_id: u64,
    pub foreground_client_id: Option<u64>,
    pub next_activity_stamp: u64,
    pub effective_size: (u16, u16),
    pub outer_terminal_focus: Option<bool>,
    pub host_terminal_theme: TerminalTheme,
    pub shutting_down: bool,
    pub effects: Seq<SessionEffect>,
}

/// The place of a client among the attached ones.
pub open spec fn client_at(clients: Seq<ClientView>, client_id: u64) -> Option<int>
    decreases clients.len(),
{
    if clients.len() == 0 {
        None
    } else if clients.last().client_id == client_id {
        Some(clients.len() - 1)
    } else {
        client_at(clients.drop_last(), client_id)
    }
}

/// The place of the most recently active client; of equals, the last.
pub open spec fn latest_at(clients: Seq<ClientView>) -> Option<int>
    decreases clients.len(),
{
    if clients.len() == 0 {
        None
    } else {
        match latest_at(clients.drop_last()) {
            Some(best) => if clients[best].last_activity <= clients.last().last_activity {
                Some(clients.len() - 1)
            } else {
                Some(best)
            },
            None => Some(0),
        }
    }
}

/// What the place of a client tells about it.
pub proof fn lemma_client_at(clients: Seq<ClientView>, client_id: u64)
    ensures
        client_at(clients, client_id) matches Some(i) ==> 0 <= i < clients.len()
            && clients[i].client_id == client_id,
        client_at(clients, client_id) is None ==> forall|i: int|
            0 <= i < clients.len() ==> clients[i].client_id != client_id,
    decreases clients.len(),
{
    if clients.len() > 0 && clients.last().client_id != client_id {
        lemma_client_at(clients.drop_last(), client_id);
        assert forall|i: int|
            client_at(clients, client_id) is None && 0 <= i < clients.len() implies clients[i].client_id
            != client_id by {
            if i < clients.len() - 1 {
                assert(clients.drop_last()[i] == clients[i]);
            }
        }
    }
}

/// The most recently active client is as active as any.
pub proof fn lemma_latest_at(clients: Seq<ClientView>)
    ensures
        latest_at(clients) is Some <==> clients.len() > 0,
        latest_at(clients) matches Some(i) ==> 0 <= i < clients.len() && forall|j: int|
            0 <= j < clients.len() ==> clients[j].last_activity <= clients[i].last_activity,
    decreases clients.len(),
{
    if clients.len() > 0 {
        lemma_latest_at(clients.drop_last());
        if clients.len() > 1 {
            let i = latest_at(clients)->0;
            assert forall|j: int| 0 <= j < clients.len() implies clients[j].last_activity
                <= clients[i].last_activity by {
                if j < clients.len() - 1 {
                    assert(clients.drop_last()[j] == clients[j]);
                }
            }
        } else {
            assert(clients.drop_last().len() == 0);
        }
    }
}

impl ServerView {
    /// No two clients share an id.
    pub open spec fn wf(self) -> bool {
        forall|i: int, j: int|
            0 <= i < j < self.clients.len() ==> self.clients[i].client_id
                != self.clients[j].client_id
    }

    pub open spec fn at(self, client_id: u64) -> Option<int> {
        client_at(self.clients, client_id)
    }

    /// The server after a client's record was replaced.
    pub open spec fn with_client(self, i: int, client: ClientView) -> ServerView {
        ServerView { clients: self.clients.update(i, client), ..self }
    }

    pub open spec fn with_effect(self, effect: SessionEffect) -> ServerView {
        ServerView { effects: self.effects.push(effect), ..self }
    }

    pub open spec fn next_stamp(self) -> u64 {
        if self.next_activity_stamp < u64::MAX {
            (self.next_activity_stamp + 1) as u64
        } else {
            u64::MAX
        }
    }

    /// The server after a stamp was handed out.
    pub open spec fn stamped(self) -> ServerView {
        ServerView { next_activity_stamp: self.next_stamp(), ..self }
    }

    /// The server after it follows its foreground client: size, focus and colors
    /// are that client's. A foreground client that is gone leaves none.
    pub open spec fn synced(self) -> ServerView {
        let found = match self.foreground_client_id {
            Some(id) => self.at(id),
            None => None,
        };
        match found {
            None => ServerView {
                foreground_client_id: None,
                effective_size: (MIN_COLS, MIN_ROWS),
                outer_terminal_focus: None,
                ..self
            },
            Some(i) => {
                let client = self.clients[i];
                let followed = ServerView {
                    effective_size: client.terminal_size,
                    outer_terminal_focus: client.outer_terminal_focus,
                    ..self
                };
                let seen = if client.outer_terminal_focus == Some(true) {
                    followed.with_effect(SessionEffect::MarkActiveTabSeen)
                } else {
                    followed
                };
                if client.host_terminal_theme.foreground is None
                    && client.host_terminal_theme.background is None {
                    seen
                } else {
                    seen.themed(client.host_terminal_theme)
                }
            },
        }
    }

    /// The server after the session adopted a client's colors.
    pub open spec fn themed(self, theme: TerminalTheme) -> ServerView {
        ServerView { host_terminal_theme: theme, ..self }.with_effect(
            SessionEffect::AdoptTheme(theme),
        )
    }

    /// The server after the shared panes were laid out anew: every client gets a
    /// fresh screen, even one that shows the same. Nothing happens without a
    /// foreground client.
    pub open spec fn resized(self) -> ServerView {
        if self.foreground_client_id is None {
            self
        } else {
            ServerView {
                clients: self.clients.map_values(
                    |client: ClientView| ClientView { last_frame: None, ..client },
                ),
                ..self
            }.with_effect(
                SessionEffect::ResizePanes {
                    cols: self.effective_size.0,
                    rows: self.effective_size.1,
                },
            )
        }
    }

    /// The server after a client came to the foreground.
    pub open spec fn promoted(self, client_id: u64) -> ServerView {
        match self.at(client_id) {
            None => self.stamped(),
            Some(i) => ServerView {
                foreground_client_id: Some(client_id),
                ..self.stamped().with_client(
                    i,
                    ClientView { last_activity: self.next_activity_stamp, ..self.clients[i] },
                )
            }.synced(),
        }
    }

    /// The server after the most recently active client came to the foreground,
    /// if there is any client.
    pub open spec fn fallen_back(self) -> ServerView {
        ServerView {
            foreground_client_id: match latest_at(self.clients) {
                Some(i) => Some(self.clients[i].client_id),
                None => None,
            },
            ..self
        }.synced()
    }

    /// The server without a client. The foreground moves on only if it was that
    /// client's.
    pub open spec fn removed(self, client_id: u64) -> ServerView {
        let left = match self.at(client_id) {
            Some(i) => ServerView { clients: self.clients.remove(i), ..self },
            None => self,
        };
        if self.foreground_client_id == Some(client_id) {
            left.fallen_back()
        } else {
            left
        }
    }

    /// Whether removing a client moves the foreground.
    pub open spec fn removal_moves_foreground(self, client_id: u64) -> bool {
        self.foreground_client_id == Some(client_id) && {
            let left = match self.at(client_id) {
                Some(i) => self.clients.remove(i),
                None => self.clients,
            };
            (match latest_at(left) {
                Some(i) => Some(left[i].client_id),
                None => None,
            }) != self.foreground_client_id
        }
    }

    /// The server after a client was dropped, and the panes laid out for the
    /// next one where the foreground moved.
    pub open spec fn dropped(self, client_id: u64) -> ServerView {
        if self.removal_moves_foreground(client_id) {
            self.removed(client_id).resized()
        } else {
            self.removed(client_id)
        }
    }

    /// The server after a message was sent to a client. A client whose way is
    /// closed is dropped.
    pub open spec fn sent(self, client_id: u64, message: MessageView) -> ServerView {
        match self.at(client_id) {
            None => self,
            Some(i) => match self.clients[i].writer {
                None => self,
                Some(writer) => if writer.closed {
                    self.dropped(client_id)
                } else {
                    self.with_client(
                        i,
                        ClientView { writer: Some(writer.sent(message)), ..self.clients[i] },
                    )
                },
            },
        }
    }

    /// Whether a message reaches a client: it is attached, and its way, if it
    /// still has one, is open.
    pub open spec fn reaches(self, client_id: u64) -> bool {
        self.at(client_id) matches Some(i) && (self.clients[i].writer matches Some(writer)
            ==> !writer.closed)
    }

    /// The server after a message was sent to the foreground client alone.
    pub open spec fn sent_to_foreground(self, message: MessageView) -> ServerView {
        match self.foreground_client_id {
            Some(client_id) => self.sent(client_id, message),
            None => self,
        }
    }
}

impl HeadlessServer {
    pub open spec fn view(&self) -> ServerView {
        ServerView {
            clients: self.clients@.map_values(|client: ClientConnection| client@),
            next_client_id: self.next_client_id,
            foreground_client_id: self.foreground_client_id,
            next_activity_stamp: self.next_activity_stamp,
            effective_size: self.effective_size,
            outer_terminal_focus: self.outer_terminal_focus,
            host_terminal_theme: self.host_terminal_theme,
            shutting_down: self.shutting_down,
            effects: self.effects@,
        }
    }

    /// A server without clients.
    pub fn new() -> (server: HeadlessServer)
        ensures
            server@ == (ServerView {
                clients: Seq::empty(),
                next_client_id: 1,
                foreground_client_id: None,
                next_activity_stamp: 1,
                effective_size: (MIN_COLS, MIN_ROWS),
                outer_terminal_focus: None,
                host_terminal_theme: TerminalTheme { foreground: None, background: None },
                shutting_down: false,
                effects: Seq::empty(),
            }),
    {
        let server = HeadlessServer {
            clients: Vec::new(),
            next_client_id: 1,
            foreground_client_id: None,
            next_activity_stamp: 1,
            effective_size: (MIN_COLS, MIN_ROWS),
            outer_terminal_focus: None,
            host_terminal_theme: TerminalTheme { foreground: None, background: None },
            shutting_down: false,
            effects: Vec::new(),
        };
        assert(server@.clients =~= Seq::empty());
        server
    }

    /// The id of the next client to connect.
    pub fn allocate_client_id(&mut self) -> (client_id: u64)
        ensures
            client_id == old(self)@.next_client_id,
            final(self)@ == (ServerView {
                next_client_id: if client_id < u64::MAX {
                    (client_id + 1) as u64
                } else {
                    u64::MAX
                },
                ..old(self)@
            }),
    {
        let client_id: u64 = self.next_client_id;
        self.next_client_id = self.next_client_id.saturating_add(1);
        client_id
    }

    fn find(&self, client_id: u64) -> (at: Option<usize>)
        ensures
            (match at {
                Some(i) => Some(i as int),
                None => None,
            }) == self@.at(client_id),
            at matches Some(i) ==> i < self.clients@.len() && self.clients@[i as int].client_id
                == client_id,
    {
        let ghost all = self@.clients;
        assert(all.take(all.len() as int) =~= all);
        let mut i: usize = self.clients.len();
        while i > 0
            invariant
                i <= self.clients.len(),
                all == self@.clients,
                client_at(all, client_id) == client_at(all.take(i as int), client_id),
            decreases i,
        {
            proof {
                let front = all.take(i as int);
                assert(front.last() == all[i - 1]);
                assert(front.drop_last() =~= all.take(i - 1));
            }
            if self.clients[i - 1].client_id == client_id {
                return Some(i - 1);
            }
            i = i - 1;
        }
        None
    }

    fn allocate_activity_stamp(&mut self) -> (stamp: u64)
        ensures
            stamp == old(self)@.next_activity_stamp,
            final(self)@ == old(self)@.stamped(),
    {
        let stamp: u64 = self.next_activity_stamp;
        self.next_activity_stamp = self.next_activity_stamp.saturating_add(1);
        stamp
    }

    /// Lay the shared panes out for the foreground client.
    pub fn resize_shared_runtime_to_effective_size(&mut self)
        ensures
            final(self)@ == old(self)@.resized(),
    {
        if self.foreground_client_id.is_none() {
            return;
        }
        let (cols, rows) = self.effective_size;
        self.effects.push(SessionEffect::ResizePanes { cols, rows });
        let ghost before = old(self)@.clients;
        let mut i: usize = 0;
        while i < self.clients.len()
            invariant
                i <= self.clients.len(),
                self.clients@.len() == before.len(),
                forall|j: int|
                    0 <= j < i ==> (#[trigger] self.clients@[j])@ == (ClientView {
                        last_frame: None,
                        ..before[j]
                    }),
                forall|j: int|
                    i <= j < before.len() ==> (#[trigger] self.clients@[j])@ == before[j],
                self@.resized_frame(
                    old(self)@.with_effect(SessionEffect::ResizePanes { cols, rows }),
                ),
            decreases self.clients.len() - i,
        {
            self.clients[i].last_frame = None;
            i = i + 1;
        }
        assert(self@.clients =~= old(self)@.resized().clients);
    }

    /// Follow the foreground client: its size, focus and colors become the
    /// session's.
    pub fn sync_foreground_client_state(&mut self)
        ensures
            final(self)@ == old(self)@.synced(),
    {
        let found = match self.foreground_client_id {
            Some(client_id) => self.find(client_id),
            None => None,
        };
        match found {
            None => {
                self.foreground_client_id = None;
                self.effective_size = (MIN_COLS, MIN_ROWS);
                self.outer_terminal_focus = None;
            },
            Some(i) => {
                let theme = self.clients[i].host_terminal_theme;
                self.effective_size = self.clients[i].terminal_size;
                self.outer_terminal_focus = self.clients[i].outer_terminal_focus;
                if self.outer_terminal_focus == Some(true) {
                    self.effects.push(SessionEffect::MarkActiveTabSeen);
                }
                if !theme.is_empty() {
                    let _ = self.set_host_terminal_theme(theme);
                }
            },
        }
    }

    /// Make the session adopt colors; tells whether they differ from its own.
    fn set_host_terminal_theme(&mut self, theme: TerminalTheme) -> (changed: bool)
        ensures
            changed == (old(self)@.host_terminal_theme != theme),
            final(self)@ == old(self)@.themed(theme),
    {
        let changed = self.host_terminal_theme != theme;
        self.host_terminal_theme = theme;
        self.effects.push(SessionEffect::AdoptTheme(theme));
        changed
    }

    /// Whether the foreground client's own terminal has the focus.
    pub fn foreground_client_outer_focus(&self) -> (focus: Option<bool>)
        ensures
            focus == (match self@.foreground_client_id {
                Some(client_id) => match self@.at(client_id) {
                    Some(i) => self@.clients[i].outer_terminal_focus,
                    None => None,
                },
                None => None,
            }),
    {
        match self.foreground_client_id {
            Some(client_id) => match self.find(client_id) {
                Some(i) => self.clients[i].outer_terminal_focus,
                None => None,
            },
            None => None,
        }
    }

    /// Bring a client to the foreground. Tells whether it was not there already.
    pub fn promote_client_to_foreground(&mut self, client_id: u64) -> (changed: bool)
        ensures
            changed == (old(self)@.at(client_id) is Some && old(self)@.foreground_client_id
                != Some(client_id)),
            final(self)@ == old(self)@.promoted(client_id),
    {
        let stamp: u64 = self.allocate_activity_stamp();
        match self.find(client_id) {
            None => false,
            Some(i) => {
                self.clients[i].last_activity = stamp;
                let changed = self.foreground_client_id != Some(client_id);
                self.foreground_client_id = Some(client_id);
                proof {
                    let wanted = old(self)@.clients.update(
                        i as int,
                        ClientView { last_activity: stamp, ..old(self)@.clients[i as int] },
                    );
                    assert(self@.clients =~= wanted);
                }
                self.sync_foreground_client_state();
                changed
            },
        }
    }

    fn latest(&self) -> (at: Option<usize>)
        ensures
            (match at {
                Some(i) => Some(i as int),
                None => None,
            }) == latest_at(self@.clients),
            at matches Some(i) ==> i < self.clients@.len(),
    {
        let ghost all = self@.clients;
        let mut best: Option<usize> = None;
        let mut i: usize = 0;
        while i < self.clients.len()
            invariant
                i <= self.clients.len(),
                all == self@.clients,
                (match best {
                    Some(b) => Some(b as int),
                    None => None,
                }) == latest_at(all.take(i as int)),
                best matches Some(b) ==> b < i,
            decreases self.clients.len() - i,
        {
            proof {
                let front = all.take(i + 1);
                assert(front.last() == all[i as int]);
                assert(front.drop_last() =~= all.take(i as int));
                lemma_latest_at(front.drop_last());
            }
            best = match best {
                Some(b) => {
                    if self.clients[b].last_activity <= self.clients[i].last_activity {
                        Some(i)
                    } else {
                        Some(b)
                    }
                },
                None => Some(i),
            };
            i = i + 1;
        }
        assert(all.take(all.len() as int) =~= all);
        best
    }

    /// Bring the most recently active client to the foreground. Tells whether
    /// the foreground moved.
    pub fn promote_latest_remaining_client(&mut self) -> (changed: bool)
        ensures
            changed == ((match latest_at(old(self)@.clients) {
                Some(i) => Some(old(self)@.clients[i].client_id),
                None => None,
            }) != old(self)@.foreground_client_id),
            final(self)@ == old(self)@.fallen_back(),
    {
        let next_foreground: Option<u64> = match self.latest() {
            Some(i) => Some(self.clients[i].client_id),
            None => None,
        };
        let changed = next_foreground != self.foreground_client_id;
        self.foreground_client_id = next_foreground;
        self.sync_foreground_client_state();
        changed
    }

    /// Drop a client. Tells whether the foreground moved.
    pub fn remove_client(&mut self, client_id: u64) -> (changed: bool)
        ensures
            changed == old(self)@.removal_moves_foreground(client_id),
            final(self)@ == old(self)@.removed(client_id),
    {
        let was_foreground = self.foreground_client_id == Some(client_id);
        if let Some(i) = self.find(client_id) {
            let _ = self.clients.remove(i);
            assert(self@.clients =~= old(self)@.clients.remove(i as int));
        }
        if was_foreground {
            self.promote_latest_remaining_client()
        } else {
            false
        }
    }

    /// Drop a client, and lay the panes out anew where the foreground moved.
    fn drop_client(&mut self, client_id: u64)
        ensures
            final(self)@ == old(self)@.dropped(client_id),
    {
        if self.remove_client(client_id) {
            self.resize_shared_runtime_to_effective_size();
        }
    }

    /// Send a message to one client. `false` where the client is not attached or
    /// its way is closed; then it is dropped.
    pub fn send_to_client(&mut self, client_id: u64, message: ServerMessage) -> (sent: bool)
        ensures
            sent == old(self)@.reaches(client_id),
            final(self)@ == old(self)@.sent(client_id, message@),
    {
        match self.find(client_id) {
            None => false,
            Some(i) => {
                let closed = match &self.clients[i].writer {
                    Some(writer) => writer.closed,
                    None => false,
                };
                if closed {
                    self.drop_client(client_id);
                    return false;
                }
                self.push_to(i, message);
                true
            },
        }
    }

    fn push_to(&mut self, i: usize, message: ServerMessage)
        requires
            i < old(self).clients@.len(),
        ensures
            final(self).clients@.len() == old(self).clients@.len(),
            final(self)@ == (match old(self)@.clients[i as int].writer {
                Some(writer) => old(self)@.with_client(
                    i as int,
                    ClientView {
                        writer: Some(writer.sent(message@)),
                        ..old(self)@.clients[i as int]
                    },
                ),
                None => old(self)@,
            }),
    {
        if self.clients[i].writer.is_some() {
            if let Some(writer) = &mut self.clients[i].writer {
                let _ = writer.send(message);
            }
            proof {
                let client = old(self)@.clients[i as int];
                assert(self@.clients =~= old(self)@.clients.update(
                    i as int,
                    ClientView { writer: Some(client.writer->0.sent(message@)), ..client },
                ));
            }
        }
    }

    /// Send a side effect to the foreground client alone.
    pub fn send_to_foreground_client(&mut self, message: ServerMessage) -> (sent: bool)
        ensures
            sent == (old(self)@.foreground_client_id matches Some(client_id) && old(
                self,
            )@.reaches(client_id)),
            final(self)@ == old(self)@.sent_to_foreground(message@),
    {
        match self.foreground_client_id {
            Some(client_id) => self.send_to_client(client_id, message),
            None => false,
        }
    }
}

impl ServerView {
    /// Whether two servers differ in their clients alone.
    pub open spec fn resized_frame(self, other: ServerView) -> bool {
        self == (ServerView { clients: self.clients, ..other })
    }
}

// ---------------------------------------------------------------------------
// Client events
// ---------------------------------------------------------------------------

/// What a connection thread tells the server.
#[derive(Debug)]
pub enum ServerEvent {
    /// A client completed its handshake.
    ClientConnected { client_id: u64, cols: u16, rows: u16 },
    /// A client sent input.
    ClientInput { client_id: u64, data: Vec<u8> },
    /// A client's terminal changed its size.
    ClientResize { client_id: u64, cols: u16, rows: u16 },
    /// A client detached.
    ClientDetach { client_id: u64 },
    /// A connection was lost.
    ClientDisconnected { client_id: u64 },
    /// The server was asked to quit.
    QuitSignal,
}

/// A piece of client input, as far as the server itself reads it.
#[derive(Debug, Clone, Copy, PartialEq, Eq, Structural)]
pub enum RawInputEvent {
    Key,
    Mouse,
    Paste,
    OuterFocusGained,
    OuterFocusLost,
    HostDefaultColor { kind: DefaultColorKind, color: RgbColor },
    Other,
}

impl RawInputEvent {
    /// Whether the user acted on this client.
    pub open spec fn is_interaction(self) -> bool {
        self is Key || self is Mouse || self is Paste || self is OuterFocusGained
    }
}

/// The focus that input reports: that of the last focus event.
pub open spec fn reported_focus(events: Seq<RawInputEvent>) -> Option<bool>
    decreases events.len(),
{
    if events.len() == 0 {
        None
    } else {
        match events.last() {
            RawInputEvent::OuterFocusGained => Some(true),
            RawInputEvent::OuterFocusLost => Some(false),
            _ => reported_focus(events.drop_last()),
        }
    }
}

/// A theme after the colors that input reports.
pub open spec fn reported_theme(theme: TerminalTheme, events: Seq<RawInputEvent>) -> TerminalTheme
    decreases events.len(),
{
    if events.len() == 0 {
        theme
    } else {
        let before = reported_theme(theme, events.drop_last());
        match events.last() {
            RawInputEvent::HostDefaultColor { kind, color } => before.colored(kind, color),
            _ => before,
        }
    }
}

/// Whether the user acted on the client that sent these events.
pub fn events_include_interaction(events: &Vec<RawInputEvent>) -> (interaction: bool)
    ensures
        interaction == exists|i: int| 0 <= i < events@.len() && events@[i].is_interaction(),
{
    let mut i: usize = 0;
    while i < events.len()
        invariant
            i <= events.len(),
            forall|j: int| 0 <= j < i ==> !events@[j].is_interaction(),
        decreases events.len() - i,
    {
        let interaction = match events[i] {
            RawInputEvent::Key
            | RawInputEvent::Mouse
            | RawInputEvent::Paste
            | RawInputEvent::OuterFocusGained => true,
            _ => false,
        };
        if interaction {
            assert(events@[i as int].is_interaction());
            return true;
        }
        i = i + 1;
    }
    false
}

fn last_focus(events: &Vec<RawInputEvent>) -> (focus: Option<bool>)
    ensures
        focus == reported_focus(events@),
{
    let mut i: usize = 0;
    let mut focus: Option<bool> = None;
    while i < events.len()
        invariant
            i <= events.len(),
            focus == reported_focus(events@.take(i as int)),
        decreases events.len() - i,
    {
        assert(events@.take(i + 1).drop_last() =~= events@.take(i as int));
        match events[i] {
            RawInputEvent::OuterFocusGained => {
                focus = Some(true);
            },
            RawInputEvent::OuterFocusLost => {
                focus = Some(false);
            },
            _ => {},
        }
        i = i + 1;
    }
    assert(events@.take(events@.len() as int) =~= events@);
    focus
}

fn theme_after(theme: TerminalTheme, events: &Vec<RawInputEvent>) -> (after: TerminalTheme)
    ensures
        after == reported_theme(theme, events@),
{
    let mut i: usize = 0;
    let mut after = theme;
    while i < events.len()
        invariant
            i <= events.len(),
            after == reported_theme(theme, events@.take(i as int)),
        decreases events.len() - i,
    {
        assert(events@.take(i + 1).drop_last() =~= events@.take(i as int));
        if let RawInputEvent::HostDefaultColor { kind, color } = events[i] {
            after = after.with_color(kind, color);
        }
        i = i + 1;
    }
    assert(events@.take(events@.len() as int) =~= events@);
    after
}

/// What an event leads to.
#[derive(Debug, Clone, Copy, PartialEq, Eq, Structural)]
pub enum EventOutcome {
    /// Whether the screen has to be rendered.
    Render(bool),
    /// Route the client's input through the session, then finish with
    /// [`HeadlessServer::finish_client_input`].
    RouteInput { client_id: u64, from_foreground: bool, changed: bool },
}

/// What a client's input came to in the end.
#[derive(Debug)]
pub struct InputFinished {
    /// Whether the screen has to be rendered.
    pub render: bool,
    /// The way to a client that detached: what waits there is still written.
    pub last_way: Option<ClientWriter>,
}

impl ServerView {
    /// The server after a client reported its focus.
    pub open spec fn focus_reported(
        self,
        client_id: u64,
        events: Seq<RawInputEvent>,
    ) -> ServerView {
        match (reported_focus(events), self.at(client_id)) {
            (Some(focus), Some(i)) => ServerView {
                outer_terminal_focus: if self.foreground_client_id == Some(client_id) {
                    Some(focus)
                } else {
                    self.outer_terminal_focus
                },
                ..self.with_client(
                    i,
                    ClientView { outer_terminal_focus: Some(focus), ..self.clients[i] },
                )
            },
            _ => self,
        }
    }

    /// The server after a client reported colors. Those of the foreground client
    /// become the session's.
    pub open spec fn theme_reported(
        self,
        client_id: u64,
        events: Seq<RawInputEvent>,
    ) -> ServerView {
        match self.at(client_id) {
            None => self,
            Some(i) => {
                let theme = reported_theme(self.clients[i].host_terminal_theme, events);
                let known = self.with_client(
                    i,
                    ClientView { host_terminal_theme: theme, ..self.clients[i] },
                );
                if theme == self.clients[i].host_terminal_theme {
                    self
                } else if self.foreground_client_id == Some(client_id) {
                    known.themed(theme)
                } else {
                    known
                }
            },
        }
    }

    /// Whether reported colors change the session's.
    pub open spec fn theme_report_changes(
        self,
        client_id: u64,
        events: Seq<RawInputEvent>,
    ) -> bool {
        self.at(client_id) matches Some(i) && self.foreground_client_id == Some(client_id) && {
            let theme = reported_theme(self.clients[i].host_terminal_theme, events);
            theme != self.clients[i].host_terminal_theme && theme != self.host_terminal_theme
        }
    }

    /// The server after a client connected: it comes to the foreground.
    pub open spec fn connected(self, client_id: u64, size: (u16, u16)) -> ServerView {
        let client = ClientView {
            client_id,
            terminal_size: size,
            host_terminal_theme: TerminalTheme { foreground: None, background: None },
            outer_terminal_focus: None,
            last_activity: self.next_activity_stamp,
            last_frame: None,
            writer: Some(WriterView { queue: Seq::empty(), closed: false }),
        };
        ServerView {
            clients: match self.at(client_id) {
                Some(i) => self.clients.update(i, client),
                None => self.clients.push(client),
            },
            foreground_client_id: Some(client_id),
            ..self.stamped()
        }.synced().resized()
    }

    /// The server after a client's next screen may not be skipped.
    pub open spec fn refreshed(self, client_id: u64) -> ServerView {
        match self.at(client_id) {
            Some(i) => self.with_client(i, ClientView { last_frame: None, ..self.clients[i] }),
            None => self,
        }
    }

    /// The server after the first half of a client's input: focus, promotion and
    /// colors.
    pub open spec fn input_received(
        self,
        client_id: u64,
        events: Seq<RawInputEvent>,
    ) -> ServerView {
        let focused = self.refreshed(client_id).focus_reported(client_id, events);
        let interaction = exists|i: int| 0 <= i < events.len() && events[i].is_interaction();
        let promoted = if !interaction {
            focused
        } else if focused.at(client_id) is Some && focused.foreground_client_id != Some(
            client_id,
        ) {
            focused.promoted(client_id).resized()
        } else {
            focused.promoted(client_id)
        };
        promoted.theme_reported(client_id, events)
    }

    /// Whether the first half of a client's input asks for a render.
    pub open spec fn input_changes(self, client_id: u64, events: Seq<RawInputEvent>) -> bool {
        let focused = self.refreshed(client_id).focus_reported(client_id, events);
        let interaction = exists|i: int| 0 <= i < events.len() && events[i].is_interaction();
        interaction || focused.theme_report_changes(client_id, events)
    }

    /// The server after a client's terminal changed its size: it comes to the
    /// foreground and the panes are laid out for it.
    pub open spec fn client_resized(self, client_id: u64, size: (u16, u16)) -> ServerView {
        (match self.at(client_id) {
            Some(i) => self.with_client(i, ClientView { terminal_size: size, ..self.clients[i] }),
            None => self,
        }).promoted(client_id).resized()
    }

    /// The server after an event of a connection thread, input up to the point
    /// where the session routes it.
    pub open spec fn after_event(
        self,
        event: ServerEvent,
        input: Seq<RawInputEvent>,
    ) -> ServerView {
        match event {
            ServerEvent::ClientConnected { client_id, cols, rows } => self.connected(
                client_id,
                (cols, rows),
            ),
            ServerEvent::ClientInput { client_id, .. } => self.input_received(client_id, input),
            ServerEvent::ClientResize { client_id, cols, rows } => self.client_resized(
                client_id,
                (cols, rows),
            ),
            ServerEvent::ClientDetach { client_id } => self.dropped(client_id),
            ServerEvent::ClientDisconnected { client_id } => self.dropped(client_id),
            ServerEvent::QuitSignal => self,
        }
    }

    /// The server after a client was told that it is detached.
    pub open spec fn told_detached(self, client_id: u64) -> ServerView {
        self.sent(client_id, MessageView::ServerShutdown { reason: Some("detached"@) })
    }

    /// The way to a client that was told so, with what is still to be written.
    pub open spec fn last_way(self, client_id: u64) -> Option<WriterView> {
        let told = self.told_detached(client_id);
        match told.at(client_id) {
            Some(i) => told.clients[i].writer,
            None => None,
        }
    }

    /// The server after a client was told that it is detached: nothing more is
    /// sent to it.
    pub open spec fn detached(self, client_id: u64) -> ServerView {
        let told = self.told_detached(client_id);
        match told.at(client_id) {
            Some(i) => told.with_client(i, ClientView { writer: None, ..told.clients[i] }),
            None => told,
        }
    }
}

impl HeadlessServer {
    /// Record the focus that a client's input reports.
    pub fn update_client_outer_focus_from_events(
        &mut self,
        client_id: u64,
        events: &Vec<RawInputEvent>,
    )
        ensures
            final(self)@ == old(self)@.focus_reported(client_id, events@),
    {
        let next_focus: bool = match last_focus(events) {
            Some(focus) => focus,
            None => {
                return;
            },
        };
        if let Some(i) = self.find(client_id) {
            self.clients[i].outer_terminal_focus = Some(next_focus);
            if self.foreground_client_id == Some(client_id) {
                self.outer_terminal_focus = Some(next_focus);
            }
            assert(self@.clients =~= old(self)@.focus_reported(client_id, events@).clients);
        }
    }

    /// Record the colors that a client's input reports. Tells whether the
    /// session's colors change.
    pub fn update_client_host_theme_from_events(
        &mut self,
        client_id: u64,
        events: &Vec<RawInputEvent>,
    ) -> (changed: bool)
        ensures
            changed == old(self)@.theme_report_changes(client_id, events@),
            final(self)@ == old(self)@.theme_reported(client_id, events@),
    {
        match self.find(client_id) {
            None => false,
            Some(i) => {
                let current = self.clients[i].host_terminal_theme;
                let next_theme = theme_after(current, events);
                if next_theme == current {
                    return false;
                }
                self.clients[i].host_terminal_theme = next_theme;
                proof {
                    let client = old(self)@.clients[i as int];
                    assert(self@.clients =~= old(self)@.clients.update(
                        i as int,
                        ClientView { host_terminal_theme: next_theme, ..client },
                    ));
                }
                if self.foreground_client_id == Some(client_id) {
                    self.set_host_terminal_theme(next_theme)
                } else {
                    false
                }
            },
        }
    }

    fn connect(&mut self, client_id: u64, cols: u16, rows: u16)
        ensures
            final(self)@ == old(self)@.connected(client_id, (cols, rows)),
    {
        let last_activity: u64 = self.allocate_activity_stamp();
        let client = ClientConnection {
            client_id,
            terminal_size: (cols, rows),
            host_terminal_theme: TerminalTheme { foreground: None, background: None },
            outer_terminal_focus: None,
            last_activity,
            last_frame: None,
            writer: Some(ClientWriter::new()),
        };
        match self.find(client_id) {
            Some(i) => {
                self.clients.set(i, client);
                assert(self@.clients =~= old(self)@.clients.update(i as int, client@));
            },
            None => {
                self.clients.push(client);
                assert(self@.clients =~= old(self)@.clients.push(client@));
            },
        }
        self.foreground_client_id = Some(client_id);
        self.sync_foreground_client_state();
        self.resize_shared_runtime_to_effective_size();
    }

    fn refresh(&mut self, client_id: u64)
        ensures
            final(self)@ == old(self)@.refreshed(client_id),
    {
        if let Some(i) = self.find(client_id) {
            self.clients[i].last_frame = None;
            assert(self@.clients =~= old(self)@.refreshed(client_id).clients);
        }
    }

    fn receive_input(&mut self, client_id: u64, events: &Vec<RawInputEvent>) -> (changed: bool)
        ensures
            changed == old(self)@.input_changes(client_id, events@),
            final(self)@ == old(self)@.input_received(client_id, events@),
    {
        self.refresh(client_id);
        self.update_client_outer_focus_from_events(client_id, events);
        let ghost focused = self@;
        let interaction = events_include_interaction(events);
        let foreground_changed = if interaction {
            self.promote_client_to_foreground(client_id)
        } else {
            false
        };
        if foreground_changed {
            self.resize_shared_runtime_to_effective_size();
        }
        let theme_changed = self.update_client_host_theme_from_events(client_id, events);
        foreground_changed || theme_changed || interaction
    }

    fn resize_client(&mut self, client_id: u64, cols: u16, rows: u16)
        ensures
            final(self)@ == old(self)@.client_resized(client_id, (cols, rows)),
    {
        if let Some(i) = self.find(client_id) {
            self.clients[i].terminal_size = (cols, rows);
            proof {
                let client = old(self)@.clients[i as int];
                assert(self@.clients =~= old(self)@.clients.update(
                    i as int,
                    ClientView { terminal_size: (cols, rows), ..client },
                ));
            }
        }
        let _ = self.promote_client_to_foreground(client_id);
        self.resize_shared_runtime_to_effective_size();
    }

    /// Take an event of a connection thread. `input` is what the input of a
    /// [`ServerEvent::ClientInput`] means; it is not read for other events.
    pub fn handle_server_event(
        &mut self,
        event: ServerEvent,
        input: &Vec<RawInputEvent>,
    ) -> (outcome: EventOutcome)
        ensures
            final(self)@ == old(self)@.after_event(event, input@),
            outcome == (match event {
                ServerEvent::ClientInput { client_id, .. } => EventOutcome::RouteInput {
                    client_id,
                    from_foreground: final(self)@.foreground_client_id == Some(client_id),
                    changed: old(self)@.input_changes(client_id, input@),
                },
                ServerEvent::QuitSignal => EventOutcome::Render(false),
                _ => EventOutcome::Render(true),
            }),
    {
        match event {
            ServerEvent::ClientConnected { client_id, cols, rows } => {
                self.connect(client_id, cols, rows);
                EventOutcome::Render(true)
            },
            ServerEvent::ClientInput { client_id, .. } => {
                let changed = self.receive_input(client_id, input);
                EventOutcome::RouteInput {
                    client_id,
                    from_foreground: self.foreground_client_id == Some(client_id),
                    changed,
                }
            },
            ServerEvent::ClientResize { client_id, cols, rows } => {
                self.resize_client(client_id, cols, rows);
                EventOutcome::Render(true)
            },
            ServerEvent::ClientDetach { client_id } => {
                self.drop_client(client_id);
                EventOutcome::Render(true)
            },
            ServerEvent::ClientDisconnected { client_id } => {
                self.drop_client(client_id);
                EventOutcome::Render(true)
            },
            ServerEvent::QuitSignal => EventOutcome::Render(false),
        }
    }

    /// The second half of a client's input, after the session routed it: a
    /// client that asked to detach is told so and gets nothing more.
    pub fn finish_client_input(
        &mut self,
        client_id: u64,
        changed: bool,
        detach_requested: bool,
    ) -> (finished: InputFinished)
        ensures
            finished.render == (changed && !detach_requested),
            writer_view(finished.last_way) == if detach_requested {
                old(self)@.last_way(client_id)
            } else {
                None
            },
            final(self)@ == if detach_requested {
                old(self)@.detached(client_id)
            } else {
                old(self)@
            },
    {
        if !detach_requested {
            return InputFinished { render: changed, last_way: None };
        }
        let _ = self.send_to_client(
            client_id,
            ServerMessage::ServerShutdown { reason: Some("detached".to_owned()) },
        );
        let ghost told = self@;
        let mut last_way: Option<ClientWriter> = None;
        if let Some(i) = self.find(client_id) {
            last_way = self.clients[i].writer.take();
            proof {
                let client = told.clients[i as int];
                assert(self@.clients =~= told.clients.update(
                    i as int,
                    ClientView { writer: None, ..client },
                ));
            }
        }
        InputFinished { render: false, last_way }
    }
}

// ---------------------------------------------------------------------------
// Forwarded notifications
// ---------------------------------------------------------------------------

/// The toast of the interface around an event.
#[derive(Debug)]
pub struct ToastFacts {
    pub delivery: ToastDelivery,
    pub before: Option<ToastNotification>,
    pub after: Option<ToastNotification>,
}

/// A toast, for contracts.
pub type ToastView = (ToastKind, Seq<char>, Seq<char>);

pub open spec fn toast_view(toast: Option<ToastNotification>) -> Option<ToastView> {
    match toast {
        Some(toast) => Some((toast.kind, toast.title@, toast.context@)),
        None => None,
    }
}

fn same_toast(left: &Option<ToastNotification>, right: &Option<ToastNotification>) -> (same: bool)
    ensures
        same == (toast_view(*left) == toast_view(*right)),
{
    match (left, right) {
        (Some(left), Some(right)) => left.kind == right.kind && text::same_text(
            left.title.as_str(),
            right.title.as_str(),
        ) && text::same_text(left.context.as_str(), right.context.as_str()),
        (None, None) => true,
        _ => false,
    }
}

/// Whether toasts are the foreground client's to show. Toasts inside the
/// interface are part of the screen and are not announced again.
pub fn should_forward_toast_to_clients(delivery: ToastDelivery) -> (forwarded: bool)
    ensures
        forwarded == (delivery == ToastDelivery::Terminal),
{
    delivery == ToastDelivery::Terminal
}

impl ToastFacts {
    /// The text of a toast that an event put up, where toasts are forwarded.
    pub open spec fn fresh_text(self) -> Option<Seq<char>> {
        match self.after {
            Some(toast) => if self.delivery == ToastDelivery::Terminal && toast_view(self.after)
                != toast_view(self.before) {
                Some(toast.title@ + ": "@ + toast.context@)
            } else {
                None
            },
            None => None,
        }
    }

    /// The text to forward: that of a toast the event put up, or else `fallback`.
    pub open spec fn text_or(self, fallback: Option<Seq<char>>) -> Option<Seq<char>> {
        if self.delivery != ToastDelivery::Terminal {
            None
        } else if self.fresh_text() is Some {
            self.fresh_text()
        } else {
            fallback
        }
    }

    fn fresh(&self) -> (text: Option<String>)
        ensures
            text::text_of(text) == self.fresh_text(),
    {
        if !should_forward_toast_to_clients(self.delivery) {
            return None;
        }
        match &self.after {
            Some(toast) => {
                if same_toast(&self.after, &self.before) {
                    None
                } else {
                    Some(text::labelled(toast.title.as_str(), toast.context.as_str()))
                }
            },
            None => None,
        }
    }
}

/// What a client is told about a sound.
pub open spec fn sound_text(sound: Sound) -> Seq<char> {
    match sound {
        Sound::Done => "agent done"@,
        Sound::Request => "agent attention"@,
    }
}

fn sound_message(sound: Sound) -> (message: ServerMessage)
    ensures
        message@ == (MessageView::Notify { kind: NotifyKind::Sound, message: sound_text(sound) }),
{
    let text = match sound {
        Sound::Done => "agent done",
        Sound::Request => "agent attention",
    };
    ServerMessage::Notify { kind: NotifyKind::Sound, message: text.to_owned() }
}

/// A change of an agent's state, once the session took it in.
#[derive(Debug)]
pub struct StateChangeFacts {
    pub pane_id: u64,
    /// Whether sounds are wanted for this agent.
    pub sound_allowed: bool,
    /// The sound that the change calls for.
    pub sound: Option<Sound>,
    /// The toast that the change calls for.
    pub toast_kind: Option<ToastKind>,
    pub toast: ToastFacts,
    /// The panes of every tab, in order.
    pub mentions: Vec<crate::server::notifications::PaneMention>,
}

/// An event of the session, once it took it in.
#[derive(Debug)]
pub enum SessionEvent {
    ClipboardWrite { content: Vec<u8> },
    /// An agent's state changed, as detected.
    StateChanged(StateChangeFacts),
    /// An agent's state changed, as its own hook reported.
    HookStateReported(StateChangeFacts),
    UpdateReady { version: String, toast: ToastFacts },
    Other,
}

impl ServerView {
    /// The server after a notification, if any, reached the foreground client.
    pub open spec fn notified(self, kind: NotifyKind, message: Option<Seq<char>>) -> ServerView {
        match message {
            Some(message) => self.sent_to_foreground(MessageView::Notify { kind, message }),
            None => self,
        }
    }

    /// The server after a change of an agent's state was announced: its sound,
    /// then its toast.
    pub open spec fn state_change_announced(self, facts: StateChangeFacts) -> ServerView {
        self.notified(
            NotifyKind::Sound,
            if facts.sound_allowed {
                match facts.sound {
                    Some(sound) => Some(sound_text(sound)),
                    None => None,
                }
            } else {
                None
            },
        ).notified(
            NotifyKind::Toast,
            facts.toast.text_or(
                crate::server::notifications::state_change_toast(
                    facts.mentions@,
                    facts.pane_id,
                    facts.toast_kind,
                ),
            ),
        )
    }

    /// The server after an event of the session was forwarded.
    pub open spec fn forwarded(self, event: SessionEvent) -> ServerView {
        match event {
            SessionEvent::ClipboardWrite { content } => self.sent_to_foreground(
                MessageView::Clipboard { data: encoding::base64_text(content@) },
            ),
            SessionEvent::StateChanged(facts) => self.state_change_announced(facts),
            SessionEvent::HookStateReported(facts) => self.state_change_announced(facts),
            SessionEvent::UpdateReady { version, toast } => self.notified(
                NotifyKind::Toast,
                toast.text_or(
                    Some(
                        "v"@ + version@ + " available: detach, then run `herdr update`"@,
                    ),
                ),
            ),
            SessionEvent::Other => self,
        }
    }
}

/// Which state a pane is in.
#[derive(Debug, Clone, Copy, PartialEq, Eq, Structural)]
pub struct PaneStates {
    pub pane_id: u64,
    pub state: crate::detect::AgentState,
    /// The state that the agent's own hook reported.
    pub hook_state: Option<crate::detect::AgentState>,
}

/// The first record of a pane.
pub open spec fn pane_record(panes: Seq<PaneStates>, pane_id: u64) -> Option<PaneStates>
    decreases panes.len(),
{
    if panes.len() == 0 {
        None
    } else if panes[0].pane_id == pane_id {
        Some(panes[0])
    } else {
        pane_record(panes.drop_first(), pane_id)
    }
}

fn find_pane(panes: &Vec<PaneStates>, pane_id: u64) -> (found: Option<PaneStates>)
    ensures
        found == pane_record(panes@, pane_id),
{
    assert(panes@.skip(0) =~= panes@);
    let mut i: usize = 0;
    while i < panes.len()
        invariant
            i <= panes.len(),
            pane_record(panes@, pane_id) == pane_record(panes@.skip(i as int), pane_id),
        decreases panes.len() - i,
    {
        assert(panes@.skip(i as int)[0] == panes@[i as int]);
        assert(panes@.skip(i as int).drop_first() =~= panes@.skip(i + 1));
        if panes[i].pane_id == pane_id {
            return Some(panes[i]);
        }
        i = i + 1;
    }
    None
}

/// The state a pane was in before a detected change.
pub fn previous_state(panes: &Vec<PaneStates>, pane_id: u64) -> (state: crate::detect::AgentState)
    ensures
        state == (match pane_record(panes@, pane_id) {
            Some(pane) => pane.state,
            None => crate::detect::AgentState::Unknown,
        }),
{
    match find_pane(panes, pane_id) {
        Some(pane) => pane.state,
        None => crate::detect::AgentState::Unknown,
    }
}

/// The state a pane was in before a reported change: what its hook last said, or
/// else what was detected.
pub fn previous_hook_state(panes: &Vec<PaneStates>, pane_id: u64) -> (state:
    crate::detect::AgentState)
    ensures
        state == (match pane_record(panes@, pane_id) {
            Some(pane) => match pane.hook_state {
                Some(state) => state,
                None => pane.state,
            },
            None => crate::detect::AgentState::Unknown,
        }),
{
    match find_pane(panes, pane_id) {
        Some(pane) => match pane.hook_state {
            Some(state) => state,
            None => pane.state,
        },
        None => crate::detect::AgentState::Unknown,
    }
}

/// The change of a pane across a request: what its hook reports counts before
/// what was detected. There is none where neither changed, or both sides read
/// the same.
pub fn pane_transition(before: PaneStates, after: PaneStates) -> (change: Option<
    (crate::detect::AgentState, crate::detect::AgentState),
>)
    ensures
        ({
            let from = match before.hook_state {
                Some(state) => state,
                None => before.state,
            };
            let to = match after.hook_state {
                Some(state) => state,
                None => after.state,
            };
            change == if (before.state != after.state || before.hook_state != after.hook_state)
                && from != to {
                Some((from, to))
            } else {
                None
            }
        }),
{
    let effective_changed = after.state != before.state;
    let hook_changed = after.hook_state != before.hook_state;
    if effective_changed || hook_changed {
        let from = match before.hook_state {
            Some(state) => state,
            None => before.state,
        };
        let to = match after.hook_state {
            Some(state) => state,
            None => after.state,
        };
        if from == to {
            None
        } else {
            Some((from, to))
        }
    } else {
        None
    }
}

/// A change of a pane across a request, with what it calls for.
#[derive(Debug)]
pub struct RequestChange {
    pub toast_kind: Option<ToastKind>,
    pub agent_label: Option<String>,
    pub context: String,
    pub sound_allowed: bool,
    pub sound: Option<Sound>,
}

impl ServerView {
    /// The server after one change across a request was announced: its toast,
    /// unless the request put up one itself, then its sound.
    pub open spec fn change_announced(self, toasts: bool, change: RequestChange) -> ServerView {
        self.notified(
            NotifyKind::Toast,
            match (change.toast_kind, change.agent_label) {
                (Some(kind), Some(label)) => if toasts {
                    Some(
                        crate::server::notifications::toast_text(
                            label@,
                            kind,
                            change.context@,
                        ),
                    )
                } else {
                    None
                },
                _ => None,
            },
        ).notified(
            NotifyKind::Sound,
            match change.sound {
                Some(sound) => if change.sound_allowed {
                    Some(sound_text(sound))
                } else {
                    None
                },
                None => None,
            },
        )
    }

    pub open spec fn changes_announced(
        self,
        toasts: bool,
        changes: Seq<RequestChange>,
    ) -> ServerView
        decreases changes.len(),
    {
        if changes.len() == 0 {
            self
        } else {
            self.changes_announced(toasts, changes.drop_last()).change_announced(
                toasts,
                changes.last(),
            )
        }
    }

    /// The server after everything a request led to was announced.
    pub open spec fn request_announced(
        self,
        toast: ToastFacts,
        changes: Seq<RequestChange>,
    ) -> ServerView {
        self.notified(NotifyKind::Toast, toast.fresh_text()).changes_announced(
            toast.delivery == ToastDelivery::Terminal && toast.fresh_text() is None,
            changes,
        )
    }
}

/// Why a request is refused during shutdown: error code and message.
pub const UNAVAILABLE_CODE: &'static str = "server_unavailable";

pub const UNAVAILABLE_MESSAGE: &'static str = "server is shutting down";

/// The answer to a request that is refused.
#[derive(Debug)]
pub struct Refusal {
    /// The id of the request.
    pub id: String,
    pub code: String,
    pub message: String,
    /// Whether the screen has to be rendered.
    pub render: bool,
}

impl HeadlessServer {
    fn notify_foreground(&mut self, kind: NotifyKind, message: Option<String>)
        ensures
            final(self)@ == old(self)@.notified(kind, text::text_of(message)),
    {
        if let Some(message) = message {
            let _ = self.send_to_foreground_client(ServerMessage::Notify { kind, message });
        }
    }

    fn sound_foreground(&mut self, allowed: bool, sound: Option<Sound>)
        ensures
            final(self)@ == old(self)@.notified(
                NotifyKind::Sound,
                match sound {
                    Some(sound) => if allowed {
                        Some(sound_text(sound))
                    } else {
                        None
                    },
                    None => None,
                },
            ),
    {
        if allowed {
            if let Some(sound) = sound {
                let _ = self.send_to_foreground_client(sound_message(sound));
            }
        }
    }

    fn announce_state_change(&mut self, facts: StateChangeFacts)
        ensures
            final(self)@ == old(self)@.state_change_announced(facts),
    {
        self.sound_foreground(facts.sound_allowed, facts.sound);
        let message = if should_forward_toast_to_clients(facts.toast.delivery) {
            match facts.toast.fresh() {
                Some(message) => Some(message),
                None => crate::server::notifications::toast_message_from_state_change(
                    &facts.mentions,
                    facts.pane_id,
                    facts.toast_kind,
                ),
            }
        } else {
            None
        };
        self.notify_foreground(NotifyKind::Toast, message);
    }

    /// Prepare for an event of the session before it takes it in. Changes of an
    /// agent's state are judged by the foreground client's current focus.
    pub fn prepare_internal_event(&mut self, changes_agent_state: bool)
        ensures
            final(self)@ == if changes_agent_state {
                old(self)@.synced()
            } else {
                old(self)@
            },
    {
        if changes_agent_state {
            self.sync_foreground_client_state();
        }
    }

    /// Forward what an event of the session means for clients. Clipboard writes,
    /// sounds and toasts are the foreground client's alone. Tells whether the
    /// screen has to be rendered.
    pub fn handle_internal_event_with_forwarding(&mut self, event: SessionEvent) -> (render: bool)
        requires
            event matches SessionEvent::ClipboardWrite { content } ==> encoding::base64_len(
                content@.len(),
            ) <= isize::MAX,
        ensures
            render == !(event is ClipboardWrite),
            final(self)@ == old(self)@.forwarded(event),
            event matches SessionEvent::ClipboardWrite { content } ==> {
                old(self)@.foreground_client_id is Some ==> encoding::base64_bytes(
                    encoding::base64_text(content@),
                ) == Some(content@)
            },
    {
        match event {
            SessionEvent::ClipboardWrite { content } => {
                if let Some(client_id) = self.foreground_client_id {
                    let data = encoding::base64_encode(&content);
                    let _ = self.send_to_client(client_id, ServerMessage::Clipboard { data });
                }
                false
            },
            SessionEvent::StateChanged(facts) => {
                self.announce_state_change(facts);
                true
            },
            SessionEvent::HookStateReported(facts) => {
                self.announce_state_change(facts);
                true
            },
            SessionEvent::UpdateReady { version, toast } => {
                let message = if should_forward_toast_to_clients(toast.delivery) {
                    match toast.fresh() {
                        Some(message) => Some(message),
                        None => {
                            let mut fallback = "v".to_owned();
                            fallback.append(version.as_str());
                            fallback.append(" available: detach, then run `herdr update`");
                            Some(fallback)
                        },
                    }
                } else {
                    None
                };
                self.notify_foreground(NotifyKind::Toast, message);
                true
            },
            SessionEvent::Other => true,
        }
    }

    /// How a request is answered without the session, if it is: during shutdown
    /// every request is refused under its own id, and nothing is rendered for it.
    pub fn refuse_request(&self, id: String) -> (refusal: Option<Refusal>)
        ensures
            refusal is Some <==> self@.shutting_down,
            refusal matches Some(refusal) ==> {
                &&& refusal.id == id
                &&& refusal.code@ == UNAVAILABLE_CODE@
                &&& refusal.message@ == UNAVAILABLE_MESSAGE@
                &&& !refusal.render
            },
    {
        if self.shutting_down {
            Some(
                Refusal {
                    id,
                    code: UNAVAILABLE_CODE.to_owned(),
                    message: UNAVAILABLE_MESSAGE.to_owned(),
                    render: false,
                },
            )
        } else {
            None
        }
    }

    /// Announce the toast that a request put up, once the session answered it. Tells
    /// whether the changes of the request are announced with toasts of their own.
    pub fn announce_request_toast(&mut self, toast: &ToastFacts) -> (toasts: bool)
        ensures
            toasts == (toast.delivery == ToastDelivery::Terminal && toast.fresh_text() is None),
            final(self)@ == old(self)@.notified(NotifyKind::Toast, toast.fresh_text()),
    {
        let fresh = toast.fresh();
        let toasts = should_forward_toast_to_clients(toast.delivery) && fresh.is_none();
        self.notify_foreground(NotifyKind::Toast, fresh);
        toasts
    }

    /// Announce one change that a request led to.
    pub fn announce_change(&mut self, toasts: bool, change: &RequestChange)
        ensures
            final(self)@ == old(self)@.change_announced(toasts, *change),
    {
        let message = match (&change.toast_kind, &change.agent_label) {
            (Some(kind), Some(label)) => {
                if toasts {
                    Some(
                        crate::server::notifications::toast_line(
                            label.as_str(),
                            *kind,
                            change.context.as_str(),
                        ),
                    )
                } else {
                    None
                }
            },
            _ => None,
        };
        self.notify_foreground(NotifyKind::Toast, message);
        self.sound_foreground(change.sound_allowed, change.sound);
    }

    /// Announce what a request led to, once the session answered it.
    pub fn announce_request(&mut self, toast: &ToastFacts, changes: &Vec<RequestChange>)
        ensures
            final(self)@ == old(self)@.request_announced(*toast, changes@),
    {
        let toasts = self.announce_request_toast(toast);
        let ghost start = self@;
        let mut i: usize = 0;
        while i < changes.len()
            invariant
                i <= changes.len(),
                self@ == start.changes_announced(toasts, changes@.take(i as int)),
            decreases changes.len() - i,
        {
            proof {
                assert(changes@.take(i + 1).drop_last() =~= changes@.take(i as int));
                assert(changes@.take(i + 1).last() == changes@[i as int]);
            }
            self.announce_change(toasts, &changes[i]);
            i = i + 1;
        }
        assert(changes@.take(changes@.len() as int) =~= changes@);
    }
}

/// A pane and the workspace that shows it.
#[derive(Debug, Clone, Copy, PartialEq, Eq, Structural)]
pub struct LocatedPane {
    pub ws_idx: usize,
    pub states: PaneStates,
}

/// The states of a pane of a workspace, in a list of panes.
pub open spec fn located(panes: Seq<LocatedPane>, ws_idx: usize, pane_id: u64) -> Option<PaneStates>
    decreases panes.len(),
{
    if panes.len() == 0 {
        None
    } else if panes[0].ws_idx == ws_idx && panes[0].states.pane_id == pane_id {
        Some(panes[0].states)
    } else {
        located(panes.drop_first(), ws_idx, pane_id)
    }
}

fn locate(panes: &Vec<LocatedPane>, ws_idx: usize, pane_id: u64) -> (found: Option<PaneStates>)
    ensures
        found == located(panes@, ws_idx, pane_id),
{
    assert(panes@.skip(0) =~= panes@);
    let mut i: usize = 0;
    while i < panes.len()
        invariant
            i <= panes.len(),
            located(panes@, ws_idx, pane_id) == located(panes@.skip(i as int), ws_idx, pane_id),
        decreases panes.len() - i,
    {
        assert(panes@.skip(i as int)[0] == panes@[i as int]);
        assert(panes@.skip(i as int).drop_first() =~= panes@.skip(i + 1));
        if panes[i].ws_idx == ws_idx && panes[i].states.pane_id == pane_id {
            return Some(panes[i].states);
        }
        i = i + 1;
    }
    None
}

/// The state that counts for a pane: what its hook reports, or else what was
/// detected.
pub open spec fn counting_state(pane: PaneStates) -> crate::detect::AgentState {
    match pane.hook_state {
        Some(state) => state,
        None => pane.state,
    }
}

/// A change of the state that counts for a pane.
#[derive(Debug, Clone, Copy, PartialEq, Eq, Structural)]
pub struct PaneChange {
    pub ws_idx: usize,
    pub pane_id: u64,
    pub from: crate::detect::AgentState,
    pub to: crate::detect::AgentState,
}

/// The panes whose counting state differs across a request, in order. Panes that
/// are gone afterwards are passed over.
pub open spec fn pane_changes(before: Seq<LocatedPane>, after: Seq<LocatedPane>) -> Seq<PaneChange>
    decreases before.len(),
{
    if before.len() == 0 {
        Seq::empty()
    } else {
        let earlier = pane_changes(before.drop_last(), after);
        let pane = before.last();
        match located(after, pane.ws_idx, pane.states.pane_id) {
            Some(now) => if counting_state(pane.states) != counting_state(now) {
                earlier.push(
                    PaneChange {
                        ws_idx: pane.ws_idx,
                        pane_id: pane.states.pane_id,
                        from: counting_state(pane.states),
                        to: counting_state(now),
                    },
                )
            } else {
                earlier
            },
            None => earlier,
        }
    }
}

/// Compare the panes before and after a request.
pub fn changes_across_request(before: &Vec<LocatedPane>, after: &Vec<LocatedPane>) -> (changes: Vec<
    PaneChange,
>)
    ensures
        changes@ == pane_changes(before@, after@),
{
    let mut changes: Vec<PaneChange> = Vec::new();
    let mut i: usize = 0;
    while i < before.len()
        invariant
            i <= before.len(),
            changes@ == pane_changes(before@.take(i as int), after@),
        decreases before.len() - i,
    {
        proof {
            assert(before@.take(i + 1).drop_last() =~= before@.take(i as int));
            assert(before@.take(i + 1).last() == before@[i as int]);
        }
        let pane = before[i];
        if let Some(now) = locate(after, pane.ws_idx, pane.states.pane_id) {
            if let Some((from, to)) = pane_transition(pane.states, now) {
                changes.push(
                    PaneChange { ws_idx: pane.ws_idx, pane_id: pane.states.pane_id, from, to },
                );
            }
        }
        i = i + 1;
    }
    assert(before@.take(before@.len() as int) =~= before@);
    changes
}

// ---------------------------------------------------------------------------
// Broadcasts, screens and shutdown
// ---------------------------------------------------------------------------

/// The ids of the clients whose way is closed.
pub open spec fn broken_ids(clients: Seq<ClientView>) -> Seq<u64>
    decreases clients.len(),
{
    if clients.len() == 0 {
        Seq::empty()
    } else {
        let earlier = broken_ids(clients.drop_last());
        match clients.last().writer {
            Some(writer) => if writer.closed {
                earlier.push(clients.last().client_id)
            } else {
                earlier
            },
            None => earlier,
        }
    }
}

/// A client after a message was queued for it, if it still has a way.
pub open spec fn offered(client: ClientView, message: MessageView) -> ClientView {
    ClientView {
        writer: match client.writer {
            Some(writer) => Some(writer.sent(message)),
            None => None,
        },
        ..client
    }
}

/// A client that screens are rendered for.
#[derive(Debug, Clone, Copy, PartialEq, Eq)]
pub struct RenderTarget {
    pub client_id: u64,
    pub size: (u16, u16),
    pub is_foreground: bool,
}

impl RenderTarget {
    /// The order in which screens are rendered: the foreground client last, the
    /// others by their ids.
    pub open spec fn before(self, other: RenderTarget) -> bool {
        if self.is_foreground == other.is_foreground {
            self.client_id <= other.client_id
        } else {
            other.is_foreground
        }
    }
}

/// The clients that still have a way, in the order of their attachment.
pub open spec fn reachable_targets(
    clients: Seq<ClientView>,
    foreground: Option<u64>,
) -> Seq<RenderTarget>
    decreases clients.len(),
{
    if clients.len() == 0 {
        Seq::empty()
    } else {
        let earlier = reachable_targets(clients.drop_last(), foreground);
        let client = clients.last();
        if client.writer is Some {
            earlier.push(
                RenderTarget {
                    client_id: client.client_id,
                    size: client.terminal_size,
                    is_foreground: foreground == Some(client.client_id),
                },
            )
        } else {
            earlier
        }
    }
}

impl ServerView {
    /// The server after several clients were dropped in turn.
    pub open spec fn dropped_all(self, ids: Seq<u64>) -> ServerView
        decreases ids.len(),
    {
        if ids.len() == 0 {
            self
        } else {
            self.dropped_all(ids.drop_last()).dropped(ids.last())
        }
    }

    /// The server after a message went to every client. Clients whose way is
    /// closed are dropped.
    pub open spec fn broadcast(self, message: MessageView) -> ServerView {
        ServerView {
            clients: self.clients.map_values(|client: ClientView| offered(client, message)),
            ..self
        }.dropped_all(broken_ids(self.clients))
    }

    /// Whether a screen for a client cannot be sent because its way is closed.
    pub open spec fn screen_breaks(self, client_id: u64, frame: FrameView) -> bool {
        self.at(client_id) matches Some(i) && self.clients[i].writer matches Some(writer)
            && writer.closed && self.clients[i].last_frame != Some(frame)
    }

    /// The server after a screen for a client: sent, unless the client shows it
    /// already.
    pub open spec fn screen_sent(self, client_id: u64, frame: FrameView) -> ServerView {
        match self.at(client_id) {
            None => self,
            Some(i) => match self.clients[i].writer {
                None => self,
                Some(writer) => if self.clients[i].last_frame == Some(frame) || writer.closed {
                    self
                } else {
                    self.with_client(
                        i,
                        ClientView {
                            writer: Some(writer.sent(MessageView::Frame(frame))),
                            last_frame: Some(frame),
                            ..self.clients[i]
                        },
                    )
                },
            },
        }
    }

    /// The server after screens for several clients, and the clients among them
    /// whose way turned out to be closed.
    pub open spec fn screens_sent(self, screens: Seq<(u64, FrameView)>) -> (ServerView, Seq<u64>)
        decreases screens.len(),
    {
        if screens.len() == 0 {
            (self, Seq::empty())
        } else {
            let (earlier, broken) = self.screens_sent(screens.drop_last());
            let (client_id, frame) = screens.last();
            (
                earlier.screen_sent(client_id, frame),
                if earlier.screen_breaks(client_id, frame) {
                    broken.push(client_id)
                } else {
                    broken
                },
            )
        }
    }

    /// The server after a round of screens: clients that turned out to be gone
    /// are dropped at the end of the round.
    pub open spec fn streamed(self, screens: Seq<(u64, FrameView)>) -> ServerView {
        let (sent, broken) = self.screens_sent(screens);
        sent.dropped_all(broken)
    }

    /// The server after shutdown began: every client is told, once.
    pub open spec fn shutdown_begun(self) -> ServerView {
        if self.shutting_down {
            self
        } else {
            ServerView { shutting_down: true, ..self }.broadcast(
                MessageView::ServerShutdown { reason: Some(UNAVAILABLE_MESSAGE@) },
            )
        }
    }
}

/// Screens for contracts.
pub open spec fn screens_view(screens: Seq<(u64, FrameData)>) -> Seq<(u64, FrameView)> {
    screens.map_values(|screen: (u64, FrameData)| (screen.0, screen.1@))
}

/// What became of a message on its way to a client.
#[derive(Debug, Clone, Copy, PartialEq, Eq, Structural)]
pub enum Delivery {
    /// The thread that writes took it.
    Taken,
    /// It could not be framed.
    Unframed,
    /// The thread that writes is gone.
    Closed,
}

/// What became of a message to a client, and whether it was a screen.
#[derive(Debug, Clone, Copy, PartialEq, Eq, Structural)]
pub struct DeliveryReport {
    pub client_id: u64,
    pub screen: bool,
    pub delivery: Delivery,
}

impl DeliveryReport {
    /// Whether the client is lost: nobody writes to it any more, or it would be
    /// left with an old screen. Another message that cannot be framed is passed
    /// over.
    pub open spec fn loses_client(self) -> bool {
        self.delivery == Delivery::Closed || self.delivery == Delivery::Unframed && self.screen
    }
}

/// The clients that are lost, in the order of the reports.
pub open spec fn lost_ids(reports: Seq<DeliveryReport>) -> Seq<u64>
    decreases reports.len(),
{
    if reports.len() == 0 {
        Seq::empty()
    } else {
        let earlier = lost_ids(reports.drop_last());
        if reports.last().loses_client() {
            earlier.push(reports.last().client_id)
        } else {
            earlier
        }
    }
}

impl HeadlessServer {
    /// Drop the clients that turned out to be lost when their messages were
    /// written.
    pub fn settle_deliveries(&mut self, reports: &Vec<DeliveryReport>)
        ensures
            final(self)@ == old(self)@.dropped_all(lost_ids(reports@)),
    {
        let mut lost: Vec<u64> = Vec::new();
        let mut i: usize = 0;
        while i < reports.len()
            invariant
                i <= reports.len(),
                lost@ == lost_ids(reports@.take(i as int)),
            decreases reports.len() - i,
        {
            proof {
                assert(reports@.take(i + 1).drop_last() =~= reports@.take(i as int));
                assert(reports@.take(i + 1).last() == reports@[i as int]);
            }
            let report = reports[i];
            let gone = match report.delivery {
                Delivery::Taken => false,
                Delivery::Unframed => report.screen,
                Delivery::Closed => true,
            };
            if gone {
                lost.push(report.client_id);
            }
            i = i + 1;
        }
        assert(reports@.take(reports@.len() as int) =~= reports@);
        self.drop_clients(&lost);
    }

    fn drop_clients(&mut self, ids: &Vec<u64>)
        ensures
            final(self)@ == old(self)@.dropped_all(ids@),
    {
        let mut i: usize = 0;
        while i < ids.len()
            invariant
                i <= ids.len(),
                self@ == old(self)@.dropped_all(ids@.take(i as int)),
            decreases ids.len() - i,
        {
            proof {
                assert(ids@.take(i + 1).drop_last() =~= ids@.take(i as int));
                assert(ids@.take(i + 1).last() == ids@[i as int]);
            }
            let client_id: u64 = ids[i];
            self.drop_client(client_id);
            i = i + 1;
        }
        assert(ids@.take(ids@.len() as int) =~= ids@);
    }

    /// Send a message to every client.
    pub fn send_to_all_clients(&mut self, message: ServerMessage)
        ensures
            final(self)@ == old(self)@.broadcast(message@),
    {
        let ghost before = self@;
        let mut broken: Vec<u64> = Vec::new();
        let mut i: usize = 0;
        while i < self.clients.len()
            invariant
                i <= self.clients.len(),
                self.clients@.len() == before.clients.len(),
                self@.resized_frame(before),
                broken@ == broken_ids(before.clients.take(i as int)),
                forall|j: int|
                    0 <= j < i ==> (#[trigger] self.clients@[j])@ == offered(
                        before.clients[j],
                        message@,
                    ),
                forall|j: int|
                    i <= j < before.clients.len() ==> (#[trigger] self.clients@[j])@
                        == before.clients[j],
            decreases self.clients.len() - i,
        {
            proof {
                let front = before.clients.take(i + 1);
                assert(front.drop_last() =~= before.clients.take(i as int));
                assert(front.last() == before.clients[i as int]);
                assert(self.clients@[i as int]@ == before.clients[i as int]);
            }
            let closed = match &self.clients[i].writer {
                Some(writer) => writer.closed,
                None => false,
            };
            if closed {
                let client_id: u64 = self.clients[i].client_id;
                broken.push(client_id);
            }
            let ghost here = self@;
            self.push_to(i, message.copy());
            proof {
                assert forall|j: int| 0 <= j < self.clients@.len() implies (
                #[trigger] self.clients@[j])@ == self@.clients[j] by {}
                assert(self@.clients[i as int] == offered(before.clients[i as int], message@));
            }
            i = i + 1;
        }
        proof {
            assert(before.clients.take(before.clients.len() as int) =~= before.clients);
            assert(self@.clients =~= before.clients.map_values(
                |client: ClientView| offered(client, message@),
            ));
        }
        self.drop_clients(&broken);
    }

    /// Ask the clients to reload their sounds, if that was requested.
    pub fn drain_client_sound_config_reload_request(&mut self, requested: &mut bool)
        ensures
            !*final(requested),
            final(self)@ == if *old(requested) {
                old(self)@.broadcast(MessageView::ReloadSoundConfig)
            } else {
                old(self)@
            },
    {
        if !*requested {
            return;
        }
        *requested = false;
        self.send_to_all_clients(ServerMessage::ReloadSoundConfig);
    }

    /// The clients to render screens for, in the order of rendering: the
    /// foreground client last, so that its size is the one that stays.
    pub fn render_targets(&self) -> (targets: Vec<RenderTarget>)
        ensures
            targets@.to_multiset() == reachable_targets(
                self@.clients,
                self@.foreground_client_id,
            ).to_multiset(),
            forall|i: int, j: int|
                0 <= i < j < targets@.len() ==> targets@[i].before(targets@[j]),
    {
        let ghost all = self@.clients;
        let mut targets: Vec<RenderTarget> = Vec::new();
        let mut i: usize = 0;
        while i < self.clients.len()
            invariant
                i <= self.clients.len(),
                all == self@.clients,
                targets@.to_multiset() == reachable_targets(
                    all.take(i as int),
                    self.foreground_client_id,
                ).to_multiset(),
                forall|a: int, b: int|
                    0 <= a < b < targets@.len() ==> targets@[a].before(targets@[b]),
            decreases self.clients.len() - i,
        {
            let ghost earlier = reachable_targets(all.take(i as int), self.foreground_client_id);
            proof {
                assert(all.take(i + 1).drop_last() =~= all.take(i as int));
                assert(all.take(i + 1).last() == all[i as int]);
            }
            if self.clients[i].writer.is_some() {
                let target = RenderTarget {
                    client_id: self.clients[i].client_id,
                    size: self.clients[i].terminal_size,
                    is_foreground: self.foreground_client_id == Some(self.clients[i].client_id),
                };
                let ghost before = targets@;
                let mut at: usize = targets.len();
                while at > 0 && !target_before(&targets[at - 1], &target)
                    invariant
                        at <= targets.len(),
                        targets@ == before,
                        forall|a: int, b: int|
                            0 <= a < b < targets@.len() ==> targets@[a].before(targets@[b]),
                        forall|k: int| at <= k < targets@.len() ==> target.before(targets@[k]),
                    decreases at,
                {
                    proof {
                        assert(target.before(targets@[at - 1]));
                        assert forall|k: int| at - 1 <= k < targets@.len() implies target.before(
                            targets@[k],
                        ) by {}
                    }
                    at = at - 1;
                }
                targets.insert(at, target);
                proof {
                    vstd::seq_lib::to_multiset_insert(before, at as int, target);
                    vstd::seq_lib::to_multiset_build(earlier, target);
                    assert forall|a: int, b: int|
                        0 <= a < b < targets@.len() implies targets@[a].before(targets@[b]) by {
                        if at > 0 {
                            assert(before[at - 1].before(target));
                        }
                        if b == at && a < at - 1 {
                            assert(before[a].before(before[at - 1]));
                        }
                    }
                }
            }
            i = i + 1;
        }
        assert(all.take(all.len() as int) =~= all);
        targets
    }

    /// What is rendered where there is no client to render for: a screen of the
    /// shared size, laying the panes out only where none is laid out yet.
    pub fn unattended_render(&self, targets: &Vec<RenderTarget>, panes_laid_out: bool) -> (render:
        Option<((u16, u16), bool)>)
        ensures
            render == if targets@.len() == 0 {
                Some((self@.effective_size, !panes_laid_out))
            } else {
                None
            },
    {
        if targets.len() == 0 {
            Some((self.effective_size, !panes_laid_out))
        } else {
            None
        }
    }

    /// Send each client its screen, skipping those that show it already, and drop
    /// the clients that turned out to be gone.
    pub fn stream_screens(&mut self, screens: Vec<(u64, FrameData)>)
        ensures
            final(self)@ == old(self)@.streamed(screens_view(screens@)),
    {
        let ghost before = self@;
        let ghost views = screens_view(screens@);
        let mut broken: Vec<u64> = Vec::new();
        let mut i: usize = 0;
        while i < screens.len()
            invariant
                i <= screens.len(),
                views == screens_view(screens@),
                (self@, broken@) == before.screens_sent(views.take(i as int)),
            decreases screens.len() - i,
        {
            proof {
                assert(views.take(i + 1).drop_last() =~= views.take(i as int));
                assert(views.take(i + 1).last() == views[i as int]);
            }
            let client_id: u64 = screens[i].0;
            if self.stream_screen(client_id, &screens[i].1) {
                broken.push(client_id);
            }
            i = i + 1;
        }
        assert(views.take(views.len() as int) =~= views);
        self.drop_clients(&broken);
    }

    fn stream_screen(&mut self, client_id: u64, frame: &FrameData) -> (broken: bool)
        ensures
            broken == old(self)@.screen_breaks(client_id, frame@),
            final(self)@ == old(self)@.screen_sent(client_id, frame@),
    {
        let i: usize = match self.find(client_id) {
            Some(i) => i,
            None => {
                return false;
            },
        };
        let closed = match &self.clients[i].writer {
            Some(writer) => writer.closed,
            None => {
                return false;
            },
        };
        let shown = match &self.clients[i].last_frame {
            Some(last) => last.same_as(frame),
            None => false,
        };
        if shown {
            return false;
        }
        if closed {
            return true;
        }
        self.push_to(i, ServerMessage::Frame(frame.copy()));
        let ghost sent = *self;
        self.clients[i].last_frame = Some(frame.copy());
        proof {
            let client = old(self)@.clients[i as int];
            assert(sent@.clients[i as int] == sent.clients@[i as int]@);
            assert(self.clients@[i as int]@ == (ClientView {
                last_frame: Some(frame@),
                ..sent.clients@[i as int]@
            }));
            assert forall|j: int| 0 <= j < self.clients@.len() && j != i implies (
            #[trigger] self@.clients[j]) == sent@.clients[j] by {}
            assert(self@.clients =~= old(self)@.clients.update(
                i as int,
                ClientView {
                    writer: Some(client.writer->0.sent(MessageView::Frame(frame@))),
                    last_frame: Some(frame@),
                    ..client
                },
            ));
        }
        false
    }

    /// Begin the shutdown: tell every client, once.
    pub fn initiate_shutdown(&mut self)
        ensures
            final(self)@ == old(self)@.shutdown_begun(),
    {
        if self.shutting_down {
            return;
        }
        self.shutting_down = true;
        self.send_to_all_clients(
            ServerMessage::ServerShutdown { reason: Some(UNAVAILABLE_MESSAGE.to_owned()) },
        );
    }

    /// Tell the clients that are left once more, before their connections close.
    /// Tells whether there is anyone to wait for.
    pub fn complete_shutdown(&mut self) -> (told: bool)
        ensures
            told == (old(self)@.clients.len() > 0),
            final(self)@ == if told {
                old(self)@.broadcast(
                    MessageView::ServerShutdown { reason: Some(UNAVAILABLE_MESSAGE@) },
                )
            } else {
                old(self)@
            },
    {
        if self.clients.len() == 0 {
            return false;
        }
        self.send_to_all_clients(
            ServerMessage::ServerShutdown { reason: Some(UNAVAILABLE_MESSAGE.to_owned()) },
        );
        true
    }

    /// Close every connection.
    pub fn close_clients(&mut self)
        ensures
            final(self)@ == (ServerView { clients: Seq::empty(), ..old(self)@ }),
    {
        self.clients.clear();
        assert(self@.clients =~= Seq::empty());
    }
}

fn target_before(left: &RenderTarget, right: &RenderTarget) -> (before: bool)
    ensures
        before == left.before(*right),
{
    if left.is_foreground == right.is_foreground {
        left.client_id <= right.client_id
    } else {
        right.is_foreground
    }
}

/// An update of one client keeps every client's place.
proof fn lemma_at_after_update(
    clients: Seq<ClientView>,
    i: int,
    client: ClientView,
    client_id: u64,
)
    requires
        0 <= i < clients.len(),
        client.client_id == clients[i].client_id,
    ensures
        client_at(clients.update(i, client), client_id) == client_at(clients, client_id),
    decreases clients.len(),
{
    let updated = clients.update(i, client);
    if i == clients.len() - 1 {
        assert(updated.drop_last() =~= clients.drop_last());
    } else {
        assert(updated.drop_last() =~= clients.drop_last().update(i, client));
        assert(updated.last() == clients.last());
        lemma_at_after_update(clients.drop_last(), i, client, client_id);
    }
}

/// Ids that are unique name a place.
proof fn lemma_at_unique(view: ServerView, k: int)
    requires
        view.wf(),
        0 <= k < view.clients.len(),
    ensures
        view.at(view.clients[k].client_id) == Some(k),
{
    lemma_client_at(view.clients, view.clients[k].client_id);
}

impl ServerView {
    /// The server follows its foreground client: size and focus are that
    /// client's, and without one the size is the default.
    pub open spec fn follows_foreground(self) -> bool {
        match self.foreground_client_id {
            None => self.effective_size == (MIN_COLS, MIN_ROWS) && self.outer_terminal_focus is None,
            Some(id) => self.at(id) matches Some(i) && self.effective_size
                == self.clients[i].terminal_size && self.outer_terminal_focus
                == self.clients[i].outer_terminal_focus,
        }
    }

    /// What every event keeps: unique ids, and a server that follows its
    /// foreground client.
    pub open spec fn inv(self) -> bool {
        self.wf() && self.follows_foreground()
    }
}

proof fn lemma_synced(view: ServerView)
    requires
        view.wf(),
    ensures
        view.synced().inv(),
        view.synced().clients == view.clients,
{
    if let Some(id) = view.foreground_client_id {
        lemma_client_at(view.clients, id);
    }
}

proof fn lemma_resized(view: ServerView)
    requires
        view.inv(),
    ensures
        view.resized().inv(),
{
    let after = view.resized();
    if let Some(id) = view.foreground_client_id {
        lemma_client_at(view.clients, id);
        let i = view.at(id)->0;
        assert forall|a: int, b: int| 0 <= a < b < after.clients.len() implies
            after.clients[a].client_id != after.clients[b].client_id by {
            assert(view.clients[a].client_id != view.clients[b].client_id);
        }
        lemma_at_unique(after, i);
    }
}

proof fn lemma_with_client(view: ServerView, i: int, client: ClientView)
    requires
        view.wf(),
        0 <= i < view.clients.len(),
        client.client_id == view.clients[i].client_id,
    ensures
        view.with_client(i, client).wf(),
        forall|id: u64| #[trigger] view.with_client(i, client).at(id) == view.at(id),
{
    assert forall|id: u64| #[trigger] view.with_client(i, client).at(id) == view.at(id) by {
        lemma_at_after_update(view.clients, i, client, id);
    }
}

proof fn lemma_removed(view: ServerView, client_id: u64)
    requires
        view.inv(),
    ensures
        view.removed(client_id).inv(),
{
    lemma_client_at(view.clients, client_id);
    let left = match view.at(client_id) {
        Some(i) => ServerView { clients: view.clients.remove(i), ..view },
        None => view,
    };
    assert(left.wf()) by {
        if let Some(i) = view.at(client_id) {
            assert forall|a: int, b: int| 0 <= a < b < left.clients.len() implies
                left.clients[a].client_id != left.clients[b].client_id by {
                let x = if a < i {
                    a
                } else {
                    a + 1
                };
                let y = if b < i {
                    b
                } else {
                    b + 1
                };
                assert(view.clients[x].client_id != view.clients[y].client_id);
            }
        }
    }
    if view.foreground_client_id == Some(client_id) {
        lemma_synced(
            ServerView {
                foreground_client_id: match latest_at(left.clients) {
                    Some(i) => Some(left.clients[i].client_id),
                    None => None,
                },
                ..left
            },
        );
    } else if let Some(id) = view.foreground_client_id {
        lemma_client_at(view.clients, id);
        let k = view.at(id)->0;
        if let Some(i) = view.at(client_id) {
            let place = if k < i {
                k
            } else {
                k - 1
            };
            assert(left.clients[place] == view.clients[k]);
            lemma_at_unique(left, place);
        }
    }
}

proof fn lemma_dropped(view: ServerView, client_id: u64)
    requires
        view.inv(),
    ensures
        view.dropped(client_id).inv(),
{
    lemma_removed(view, client_id);
    if view.removal_moves_foreground(client_id) {
        lemma_resized(view.removed(client_id));
    }
}

proof fn lemma_promoted(view: ServerView, client_id: u64)
    requires
        view.wf(),
        view.inv() || view.at(client_id) is Some,
    ensures
        view.promoted(client_id).inv(),
{
    lemma_client_at(view.clients, client_id);
    if let Some(i) = view.at(client_id) {
        let client = ClientView { last_activity: view.next_activity_stamp, ..view.clients[i] };
        lemma_with_client(view.stamped(), i, client);
        lemma_synced(
            ServerView {
                foreground_client_id: Some(client_id),
                ..view.stamped().with_client(i, client)
            },
        );
    }
}

/// Whatever a connection thread reports, client ids stay unique and the server
/// keeps following its foreground client: the shared size and focus are always
/// those of the client in front, and the default without one.
pub proof fn law_foreground_drives_the_session(
    server: ServerView,
    event: ServerEvent,
    input: Seq<RawInputEvent>,
)
    requires
        server.inv(),
    ensures
        server.after_event(event, input).inv(),
{
    match event {
        ServerEvent::ClientConnected { client_id, cols, rows } => {
            lemma_client_at(server.clients, client_id);
            let client = ClientView {
                client_id,
                terminal_size: (cols, rows),
                host_terminal_theme: TerminalTheme { foreground: None, background: None },
                outer_terminal_focus: None,
                last_activity: server.next_activity_stamp,
                last_frame: None,
                writer: Some(WriterView { queue: Seq::empty(), closed: false }),
            };
            let joined = ServerView {
                clients: match server.at(client_id) {
                    Some(i) => server.clients.update(i, client),
                    None => server.clients.push(client),
                },
                foreground_client_id: Some(client_id),
                ..server.stamped()
            };
            assert(joined.wf());
            lemma_synced(joined);
            lemma_resized(joined.synced());
        },
        ServerEvent::ClientInput { client_id, .. } => {
            lemma_input_received(server, client_id, input);
        },
        ServerEvent::ClientResize { client_id, cols, rows } => {
            lemma_client_at(server.clients, client_id);
            if let Some(i) = server.at(client_id) {
                let client = ClientView { terminal_size: (cols, rows), ..server.clients[i] };
                lemma_with_client(server, i, client);
                lemma_promoted(server.with_client(i, client), client_id);
                lemma_resized(server.with_client(i, client).promoted(client_id));
            } else {
                lemma_promoted(server, client_id);
                lemma_resized(server.promoted(client_id));
            }
        },
        ServerEvent::ClientDetach { client_id } => {
            lemma_dropped(server, client_id);
        },
        ServerEvent::ClientDisconnected { client_id } => {
            lemma_dropped(server, client_id);
        },
        ServerEvent::QuitSignal => {},
    }
}

proof fn lemma_input_received(server: ServerView, client_id: u64, input: Seq<RawInputEvent>)
    requires
        server.inv(),
    ensures
        server.input_received(client_id, input).inv(),
{
    lemma_client_at(server.clients, client_id);
    if let Some(id) = server.foreground_client_id {
        lemma_client_at(server.clients, id);
    }
    let refreshed = server.refreshed(client_id);
    if let Some(i) = server.at(client_id) {
        lemma_with_client(server, i, ClientView { last_frame: None, ..server.clients[i] });
    }
    assert(refreshed.inv());
    let focused = refreshed.focus_reported(client_id, input);
    lemma_client_at(refreshed.clients, client_id);
    if let Some(i) = refreshed.at(client_id) {
        let client = ClientView {
            outer_terminal_focus: reported_focus(input),
            ..refreshed.clients[i]
        };
        lemma_with_client(refreshed, i, client);
        if let Some(id) = refreshed.foreground_client_id {
            lemma_client_at(refreshed.clients, id);
            if reported_focus(input) is Some {
                assert(focused.at(id) == refreshed.with_client(i, client).at(id));
            }
        }
    }
    assert(focused.inv());
    let interaction = exists|i: int| 0 <= i < input.len() && input[i].is_interaction();
    let promoted = if !interaction {
        focused
    } else if focused.at(client_id) is Some && focused.foreground_client_id != Some(client_id) {
        focused.promoted(client_id).resized()
    } else {
        focused.promoted(client_id)
    };
    if interaction {
        lemma_promoted(focused, client_id);
        lemma_resized(focused.promoted(client_id));
    }
    assert(promoted.inv());
    lemma_client_at(promoted.clients, client_id);
    if let Some(i) = promoted.at(client_id) {
        let theme = reported_theme(promoted.clients[i].host_terminal_theme, input);
        let client = ClientView { host_terminal_theme: theme, ..promoted.clients[i] };
        lemma_with_client(promoted, i, client);
        let known = promoted.with_client(i, client);
        if let Some(id) = promoted.foreground_client_id {
            lemma_client_at(promoted.clients, id);
            assert(known.at(id) == promoted.at(id));
            assert(known.themed(theme).at(id) == known.at(id));
        }
        assert(known.wf());
        assert(known.themed(theme).wf());
    }
}

/// A side effect for the foreground client reaches nobody else: as long as the
/// foreground client is there to take it, every other client is left exactly as
/// it was.
pub proof fn law_side_effects_reach_the_foreground_alone(
    server: ServerView,
    message: MessageView,
    other: int,
)
    requires
        server.foreground_client_id matches Some(client_id) && server.reaches(client_id),
        0 <= other < server.clients.len(),
        server.foreground_client_id != Some(server.clients[other].client_id),
    ensures
        server.sent_to_foreground(message).clients.len() == server.clients.len(),
        server.sent_to_foreground(message).clients[other] == server.clients[other],
{
    lemma_client_at(server.clients, server.foreground_client_id->0);
}

/// Without a foreground client, side effects go nowhere.
pub proof fn law_side_effects_need_a_foreground(server: ServerView, message: MessageView)
    requires
        server.foreground_client_id is None,
    ensures
        server.sent_to_foreground(message) == server,
{
}

/// A screen that a client already shows is not sent again.
pub proof fn law_identical_screens_are_sent_once(
    server: ServerView,
    client_id: u64,
    frame: FrameView,
)
    ensures
        server.screen_sent(client_id, frame).screen_sent(client_id, frame) == server.screen_sent(
            client_id,
            frame,
        ),
{
    lemma_client_at(server.clients, client_id);
    if let Some(i) = server.at(client_id) {
        if let Some(writer) = server.clients[i].writer {
            if server.clients[i].last_frame != Some(frame) && !writer.closed {
                lemma_at_after_update(
                    server.clients,
                    i,
                    ClientView {
                        writer: Some(writer.sent(MessageView::Frame(frame))),
                        last_frame: Some(frame),
                        ..server.clients[i]
                    },
                    client_id,
                );
            }
        }
    }
}

/// When the client in front leaves, the foreground falls to the most recently
/// active client that is left, and to none only when none is left.
pub proof fn law_foreground_falls_to_the_latest(server: ServerView, client_id: u64)
    requires
        server.inv(),
        server.foreground_client_id == Some(client_id),
    ensures
        ({
            let after = server.removed(client_id);
            &&& after.clients.len() == server.clients.len() - 1
            &&& after.foreground_client_id is None <==> after.clients.len() == 0
            &&& after.foreground_client_id matches Some(next) ==> after.at(next) matches Some(i)
                && forall|j: int|
                0 <= j < after.clients.len() ==> after.clients[j].last_activity
                    <= after.clients[i].last_activity
        }),
{
    lemma_removed(server, client_id);
    lemma_client_at(server.clients, client_id);
    let i = server.at(client_id)->0;
    let left = server.clients.remove(i);
    lemma_latest_at(left);
    let after = server.removed(client_id);
    assert(after.clients == left);
    if let Some(k) = latest_at(left) {
        lemma_at_unique(after, k);
        lemma_client_at(left, left[k].client_id);
    }
}

/// The size that the panes are laid out for after some effects, where they were
/// laid out for `size` before.
pub open spec fn laid_out(size: (u16, u16), effects: Seq<SessionEffect>) -> (u16, u16)
    decreases effects.len(),
{
    if effects.len() == 0 {
        size
    } else {
        match effects.last() {
            SessionEffect::ResizePanes { cols, rows } => (cols, rows),
            _ => laid_out(size, effects.drop_last()),
        }
    }
}

impl ServerView {
    /// Whether the panes, laid out for `size` before the effects, fit the client
    /// in front.
    pub open spec fn fits_foreground(self, size: (u16, u16)) -> bool {
        self.foreground_client_id is Some ==> laid_out(size, self.effects) == self.effective_size
    }
}

proof fn lemma_laid_out_push(size: (u16, u16), effects: Seq<SessionEffect>, effect: SessionEffect)
    ensures
        laid_out(size, effects.push(effect)) == (match effect {
            SessionEffect::ResizePanes { cols, rows } => (cols, rows),
            _ => laid_out(size, effects),
        }),
{
    assert(effects.push(effect).drop_last() =~= effects);
}

proof fn lemma_synced_layout(view: ServerView, size: (u16, u16))
    ensures
        laid_out(size, view.synced().effects) == laid_out(size, view.effects),
        view.effects.is_prefix_of(view.synced().effects),
{
    lemma_laid_out_push(size, view.effects, SessionEffect::MarkActiveTabSeen);
    if let Some(id) = view.foreground_client_id {
        if let Some(i) = view.at(id) {
            let theme = view.clients[i].host_terminal_theme;
            let seen = view.effects.push(SessionEffect::MarkActiveTabSeen);
            lemma_laid_out_push(size, view.effects, SessionEffect::AdoptTheme(theme));
            lemma_laid_out_push(size, seen, SessionEffect::AdoptTheme(theme));
        }
    }
}

proof fn lemma_resized_layout(view: ServerView, size: (u16, u16))
    ensures
        view.resized().fits_foreground(size),
        view.resized().effective_size == view.effective_size,
        view.effects.is_prefix_of(view.resized().effects),
{
    lemma_laid_out_push(
        size,
        view.effects,
        SessionEffect::ResizePanes { cols: view.effective_size.0, rows: view.effective_size.1 },
    );
}

proof fn lemma_dropped_layout(view: ServerView, client_id: u64, size: (u16, u16))
    requires
        view.inv(),
        view.fits_foreground(size),
    ensures
        view.dropped(client_id).fits_foreground(size),
{
    lemma_client_at(view.clients, client_id);
    let removed = view.removed(client_id);
    lemma_resized_layout(removed, size);
    if view.foreground_client_id == Some(client_id) {
        let i = view.at(client_id)->0;
        let left = view.clients.remove(i);
        lemma_latest_at(left);
        if let Some(k) = latest_at(left) {
            let from = if k < i {
                k
            } else {
                k + 1
            };
            assert(left[k] == view.clients[from]);
            assert(view.clients[from].client_id != view.clients[i].client_id);
            assert(view.removal_moves_foreground(client_id));
        }
    }
}

proof fn lemma_promoted_layout(view: ServerView, client_id: u64, size: (u16, u16))
    requires
        view.inv(),
        view.fits_foreground(size),
        view.at(client_id) is None || view.foreground_client_id == Some(client_id),
    ensures
        view.promoted(client_id).fits_foreground(size),
{
    lemma_client_at(view.clients, client_id);
    if let Some(i) = view.at(client_id) {
        let client = ClientView { last_activity: view.next_activity_stamp, ..view.clients[i] };
        let stamped = ServerView {
            foreground_client_id: Some(client_id),
            ..view.stamped().with_client(i, client)
        };
        lemma_with_client(view.stamped(), i, client);
        assert(stamped.clients == view.stamped().with_client(i, client).clients);
        assert(stamped.at(client_id) == Some(i));
        lemma_synced_layout(stamped, size);
    }
}

/// The layout follows the client in front: whatever a connection thread reports,
/// where the panes were laid out for the client in front before, the last layout
/// afterwards is the one for the client that is in front then.
pub proof fn law_layout_follows_the_foreground(
    server: ServerView,
    event: ServerEvent,
    input: Seq<RawInputEvent>,
    size: (u16, u16),
)
    requires
        server.inv(),
        server.fits_foreground(size),
    ensures
        server.after_event(event, input).fits_foreground(size),
{
    match event {
        ServerEvent::ClientConnected { client_id, cols, rows } => {
            let client = ClientView {
                client_id,
                terminal_size: (cols, rows),
                host_terminal_theme: TerminalTheme { foreground: None, background: None },
                outer_terminal_focus: None,
                last_activity: server.next_activity_stamp,
                last_frame: None,
                writer: Some(WriterView { queue: Seq::empty(), closed: false }),
            };
            let joined = ServerView {
                clients: match server.at(client_id) {
                    Some(i) => server.clients.update(i, client),
                    None => server.clients.push(client),
                },
                foreground_client_id: Some(client_id),
                ..server.stamped()
            };
            lemma_resized_layout(joined.synced(), size);
        },
        ServerEvent::ClientInput { client_id, .. } => {
            lemma_client_at(server.clients, client_id);
            let refreshed = server.refreshed(client_id);
            if let Some(i) = server.at(client_id) {
                lemma_with_client(
                    server,
                    i,
                    ClientView { last_frame: None, ..server.clients[i] },
                );
            }
            let focused = refreshed.focus_reported(client_id, input);
            lemma_refreshed_and_focused(server, client_id, input);
            let interaction = exists|i: int| 0 <= i < input.len() && input[i].is_interaction();
            let promoted = if !interaction {
                focused
            } else if focused.at(client_id) is Some && focused.foreground_client_id != Some(
                client_id,
            ) {
                focused.promoted(client_id).resized()
            } else {
                focused.promoted(client_id)
            };
            if interaction {
                if focused.at(client_id) is Some && focused.foreground_client_id != Some(client_id) {
                    lemma_resized_layout(focused.promoted(client_id), size);
                } else {
                    lemma_promoted_layout(focused, client_id, size);
                }
            }
            if let Some(i) = promoted.at(client_id) {
                let theme = reported_theme(promoted.clients[i].host_terminal_theme, input);
                lemma_laid_out_push(size, promoted.effects, SessionEffect::AdoptTheme(theme));
            }
        },
        ServerEvent::ClientResize { client_id, cols, rows } => {
            let sized = match server.at(client_id) {
                Some(i) => server.with_client(
                    i,
                    ClientView { terminal_size: (cols, rows), ..server.clients[i] },
                ),
                None => server,
            };
            lemma_resized_layout(sized.promoted(client_id), size);
        },
        ServerEvent::ClientDetach { client_id } => {
            lemma_dropped_layout(server, client_id, size);
        },
        ServerEvent::ClientDisconnected { client_id } => {
            lemma_dropped_layout(server, client_id, size);
        },
        ServerEvent::QuitSignal => {},
    }
}

/// The focus report of a client leaves ids, size, foreground and effects alone.
proof fn lemma_refreshed_and_focused(
    server: ServerView,
    client_id: u64,
    input: Seq<RawInputEvent>,
)
    requires
        server.inv(),
    ensures
        ({
            let focused = server.refreshed(client_id).focus_reported(client_id, input);
            &&& focused.inv()
            &&& focused.effects == server.effects
            &&& focused.effective_size == server.effective_size
            &&& focused.foreground_client_id == server.foreground_client_id
            &&& focused.next_activity_stamp == server.next_activity_stamp
            &&& focused.clients.len() == server.clients.len()
            &&& focused.at(client_id) == server.at(client_id)
            &&& forall|j: int|
                0 <= j < server.clients.len() && server.at(client_id) != Some(j)
                    ==> focused.clients[j] == server.clients[j]
            &&& server.at(client_id) matches Some(i) ==> focused.clients[i] == (ClientView {
                last_frame: None,
                outer_terminal_focus: if reported_focus(input) is Some {
                    reported_focus(input)
                } else {
                    server.clients[i].outer_terminal_focus
                },
                ..server.clients[i]
            })
        }),
{
    lemma_client_at(server.clients, client_id);
    let refreshed = server.refreshed(client_id);
    if let Some(i) = server.at(client_id) {
        let fresh = ClientView { last_frame: None, ..server.clients[i] };
        lemma_with_client(server, i, fresh);
        if let Some(focus) = reported_focus(input) {
            lemma_with_client(
                refreshed,
                i,
                ClientView { outer_terminal_focus: Some(focus), ..refreshed.clients[i] },
            );
            let focused = refreshed.focus_reported(client_id, input);
            assert(focused.clients == refreshed.with_client(
                i,
                ClientView { outer_terminal_focus: Some(focus), ..refreshed.clients[i] },
            ).clients);
            assert forall|id: u64| #[trigger] focused.at(id) == server.at(id) by {
                lemma_at_after_update(server.clients, i, fresh, id);
                lemma_at_after_update(
                    refreshed.clients,
                    i,
                    ClientView { outer_terminal_focus: Some(focus), ..refreshed.clients[i] },
                    id,
                );
            }
            if let Some(id) = server.foreground_client_id {
                lemma_client_at(server.clients, id);
                assert(focused.at(id) == server.at(id));
            }
        } else {
            if let Some(id) = server.foreground_client_id {
                lemma_client_at(server.clients, id);
                assert(refreshed.at(id) == server.at(id));
            }
        }
    }
}

/// A client that resizes its terminal comes to the front and the panes are laid
/// out for it: the last effect is the layout for its new size, every client is
/// owed a fresh screen, and nothing else about the other clients changes.
pub proof fn law_a_resize_lays_the_panes_out(
    server: ServerView,
    i: int,
    cols: u16,
    rows: u16,
    input: Seq<RawInputEvent>,
)
    requires
        server.wf(),
        0 <= i < server.clients.len(),
    ensures
        ({
            let client_id = server.clients[i].client_id;
            let after = server.after_event(
                ServerEvent::ClientResize { client_id, cols, rows },
                input,
            );
            &&& after.foreground_client_id == Some(client_id)
            &&& after.effective_size == (cols, rows)
            &&& after.outer_terminal_focus == server.clients[i].outer_terminal_focus
            &&& after.effects.len() > server.effects.len()
            &&& server.effects.is_prefix_of(after.effects)
            &&& after.effects.last() == (SessionEffect::ResizePanes { cols, rows })
            &&& after.clients.len() == server.clients.len()
            &&& after.clients[i] == (ClientView {
                terminal_size: (cols, rows),
                last_activity: server.next_activity_stamp,
                last_frame: None,
                ..server.clients[i]
            })
            &&& forall|j: int|
                0 <= j < server.clients.len() && j != i ==> #[trigger] after.clients[j] == (
                ClientView { last_frame: None, ..server.clients[j] })
        }),
{
    let client_id = server.clients[i].client_id;
    lemma_at_unique(server, i);
    let client = ClientView { terminal_size: (cols, rows), ..server.clients[i] };
    let sized = server.with_client(i, client);
    lemma_with_client(server, i, client);
    let active = ClientView { last_activity: server.next_activity_stamp, ..client };
    let stamped = ServerView {
        foreground_client_id: Some(client_id),
        ..sized.stamped().with_client(i, active)
    };
    lemma_with_client(sized.stamped(), i, active);
    lemma_at_after_update(server.clients, i, client, client_id);
    lemma_at_after_update(sized.clients, i, active, client_id);
    assert(stamped.at(client_id) == Some(i));
    lemma_synced_layout(stamped, (cols, rows));
    lemma_resized_layout(stamped.synced(), (cols, rows));
}

/// A client that connects comes to the front, with an empty and open way, and
/// the panes are laid out for it. The clients that were there stay as they were,
/// but for a fresh screen.
pub proof fn law_a_new_client_comes_to_the_front(
    server: ServerView,
    client_id: u64,
    cols: u16,
    rows: u16,
    input: Seq<RawInputEvent>,
)
    requires
        forall|j: int|
            0 <= j < server.clients.len() ==> (#[trigger] server.clients[j]).client_id != client_id,
    ensures
        ({
            let after = server.after_event(
                ServerEvent::ClientConnected { client_id, cols, rows },
                input,
            );
            let last = server.clients.len() as int;
            &&& after.foreground_client_id == Some(client_id)
            &&& after.effective_size == (cols, rows)
            &&& after.outer_terminal_focus is None
            &&& server.effects.is_prefix_of(after.effects)
            &&& after.effects.last() == (SessionEffect::ResizePanes { cols, rows })
            &&& after.clients.len() == server.clients.len() + 1
            &&& after.clients[last].client_id == client_id
            &&& after.clients[last].terminal_size == (cols, rows)
            &&& after.clients[last].last_activity == server.next_activity_stamp
            &&& after.clients[last].writer matches Some(writer) && writer.queue.len() == 0
                && !writer.closed
            &&& forall|j: int|
                0 <= j < server.clients.len() ==> #[trigger] after.clients[j] == (ClientView {
                    last_frame: None,
                    ..server.clients[j]
                })
        }),
{
    lemma_client_at(server.clients, client_id);
    let client = ClientView {
        client_id,
        terminal_size: (cols, rows),
        host_terminal_theme: TerminalTheme { foreground: None, background: None },
        outer_terminal_focus: None,
        last_activity: server.next_activity_stamp,
        last_frame: None,
        writer: Some(WriterView { queue: Seq::empty(), closed: false }),
    };
    let joined = ServerView {
        clients: server.clients.push(client),
        foreground_client_id: Some(client_id),
        ..server.stamped()
    };
    assert(joined.at(client_id) == Some(server.clients.len() as int));
    lemma_synced_layout(joined, (cols, rows));
    lemma_resized_layout(joined.synced(), (cols, rows));
}

/// A client that the user acts on comes to the front: size and focus are its
/// own, it counts as the most recently active, and where another client was in
/// front the panes are laid out for it.
pub proof fn law_interaction_brings_the_client_forward(
    server: ServerView,
    i: int,
    data: Vec<u8>,
    input: Seq<RawInputEvent>,
    acted: int,
    size: (u16, u16),
)
    requires
        server.inv(),
        0 <= i < server.clients.len(),
        0 <= acted < input.len(),
        input[acted] is Key || input[acted] is Mouse || input[acted] is Paste || input[acted]
            is OuterFocusGained,
    ensures
        ({
            let client_id = server.clients[i].client_id;
            let after = server.after_event(ServerEvent::ClientInput { client_id, data }, input);
            &&& after.foreground_client_id == Some(client_id)
            &&& after.effective_size == server.clients[i].terminal_size
            &&& after.clients.len() == server.clients.len()
            &&& after.clients[i].client_id == client_id
            &&& after.clients[i].last_activity == server.next_activity_stamp
            &&& after.clients[i].writer == server.clients[i].writer
            &&& server.foreground_client_id != Some(client_id) ==> laid_out(size, after.effects)
                == server.clients[i].terminal_size
        }),
{
    let client_id = server.clients[i].client_id;
    lemma_at_unique(server, i);
    lemma_refreshed_and_focused(server, client_id, input);
    let focused = server.refreshed(client_id).focus_reported(client_id, input);
    assert(input[acted].is_interaction());
    let active = ClientView {
        last_activity: focused.next_activity_stamp,
        ..focused.clients[i]
    };
    let stamped = ServerView {
        foreground_client_id: Some(client_id),
        ..focused.stamped().with_client(i, active)
    };
    lemma_with_client(focused.stamped(), i, active);
    lemma_at_after_update(focused.clients, i, active, client_id);
    assert(stamped.at(client_id) == Some(i));
    lemma_synced_layout(stamped, size);
    let promoted = stamped.synced();
    assert(promoted == focused.promoted(client_id));
    lemma_resized_layout(promoted, size);
    lemma_resized(promoted);
    let front = if focused.foreground_client_id != Some(client_id) {
        promoted.resized()
    } else {
        promoted
    };
    lemma_synced(stamped);
    lemma_at_unique(front, i);
    let theme = reported_theme(front.clients[i].host_terminal_theme, input);
    lemma_laid_out_push(size, front.effects, SessionEffect::AdoptTheme(theme));
}

/// Input without an action of the user moves nobody: the client in front stays,
/// and so do the size and every client's activity.
pub proof fn law_passive_input_moves_nobody(
    server: ServerView,
    client_id: u64,
    data: Vec<u8>,
    input: Seq<RawInputEvent>,
)
    requires
        server.inv(),
        forall|k: int|
            0 <= k < input.len() ==> (#[trigger] input[k]) is OuterFocusLost || input[k]
                is HostDefaultColor || input[k] is Other,
    ensures
        ({
            let after = server.after_event(ServerEvent::ClientInput { client_id, data }, input);
            &&& after.foreground_client_id == server.foreground_client_id
            &&& after.effective_size == server.effective_size
            &&& after.next_activity_stamp == server.next_activity_stamp
            &&& after.clients.len() == server.clients.len()
            &&& forall|j: int|
                0 <= j < server.clients.len() ==> (#[trigger] after.clients[j]).last_activity
                    == server.clients[j].last_activity && after.clients[j].writer
                    == server.clients[j].writer && after.clients[j].terminal_size
                    == server.clients[j].terminal_size
        }),
{
    lemma_refreshed_and_focused(server, client_id, input);
    let focused = server.refreshed(client_id).focus_reported(client_id, input);
    lemma_client_at(focused.clients, client_id);
    assert(!(exists|k: int| 0 <= k < input.len() && input[k].is_interaction()));
}

/// What a client last reported of its focus is what counts: a report in the last
/// event is taken, and an event that reports none leaves the one before.
pub proof fn law_the_last_focus_report_counts(events: Seq<RawInputEvent>, event: RawInputEvent)
    ensures
        event is OuterFocusGained ==> reported_focus(events.push(event)) == Some(true),
        event is OuterFocusLost ==> reported_focus(events.push(event)) == Some(false),
        !(event is OuterFocusGained || event is OuterFocusLost) ==> reported_focus(
            events.push(event),
        ) == reported_focus(events),
        reported_focus(Seq::empty()) is None,
{
    assert(events.push(event).drop_last() =~= events);
}

/// What a client last reported of each default color is what counts; the other
/// color stays.
pub proof fn law_the_last_color_report_counts(
    theme: TerminalTheme,
    events: Seq<RawInputEvent>,
    kind: DefaultColorKind,
    color: RgbColor,
    other: RawInputEvent,
)
    requires
        !(other is HostDefaultColor),
    ensures
        ({
            let before = reported_theme(theme, events);
            let after = reported_theme(
                theme,
                events.push(RawInputEvent::HostDefaultColor { kind, color }),
            );
            &&& kind is Foreground ==> after.foreground == Some(color) && after.background
                == before.background
            &&& kind is Background ==> after.background == Some(color) && after.foreground
                == before.foreground
            &&& reported_theme(theme, events.push(other)) == before
            &&& reported_theme(theme, Seq::empty()) == theme
        }),
{
    assert(events.push(other).drop_last() =~= events);
    assert(events.push(RawInputEvent::HostDefaultColor { kind, color }).drop_last() =~= events);
}

/// A client that leaves, however it does, is gone, and the others stay in their
/// order. Where it was not in front, nothing else changes.
pub proof fn law_leaving_takes_only_the_client(
    server: ServerView,
    i: int,
    event: ServerEvent,
    input: Seq<RawInputEvent>,
)
    requires
        server.inv(),
        0 <= i < server.clients.len(),
        event == (ServerEvent::ClientDetach { client_id: server.clients[i].client_id }) || event
            == (ServerEvent::ClientDisconnected { client_id: server.clients[i].client_id }),
    ensures
        ({
            let after = server.after_event(event, input);
            &&& after.clients.len() == server.clients.len() - 1
            &&& forall|j: int|
                0 <= j < after.clients.len() ==> {
                    let from = if j < i {
                        j
                    } else {
                        j + 1
                    };
                    &&& (#[trigger] after.clients[j]).client_id != server.clients[i].client_id
                    &&& after.clients[j] == (ClientView {
                        last_frame: after.clients[j].last_frame,
                        ..server.clients[from]
                    })
                    &&& server.foreground_client_id != Some(server.clients[i].client_id)
                        ==> after.clients[j] == server.clients[from]
                }
            &&& server.foreground_client_id != Some(server.clients[i].client_id) ==> {
                &&& after.foreground_client_id == server.foreground_client_id
                &&& after.effective_size == server.effective_size
                &&& after.effects == server.effects
            }
            &&& server.clients.len() == 1 ==> after.foreground_client_id is None
                && after.effective_size == (80u16, 24u16) && after.outer_terminal_focus is None
        }),
{
    lemma_at_unique(server, i);
    let after = server.after_event(event, input);
    let left = server.clients.remove(i);
    lemma_latest_at(left);
    if server.clients.len() == 1 {
        if let Some(id) = server.foreground_client_id {
            lemma_client_at(server.clients, id);
        }
    }
    assert forall|j: int| 0 <= j < after.clients.len() implies {
        let from = if j < i {
            j
        } else {
            j + 1
        };
        &&& (#[trigger] after.clients[j]).client_id != server.clients[i].client_id
        &&& after.clients[j] == (ClientView {
            last_frame: after.clients[j].last_frame,
            ..server.clients[from]
        })
    } by {
        let from = if j < i {
            j
        } else {
            j + 1
        };
        assert(left[j] == server.clients[from]);
        if from < i {
            assert(server.clients[from].client_id != server.clients[i].client_id);
        } else {
            assert(server.clients[i].client_id != server.clients[from].client_id);
        }
    }
}

/// When the client in front leaves and others are left, the most recently active
/// of them takes over: it is in front, the shared size is its own, and the last
/// effect lays the panes out for it.
pub proof fn law_the_next_client_takes_over(
    server: ServerView,
    i: int,
    event: ServerEvent,
    input: Seq<RawInputEvent>,
) -> (next: int)
    requires
        server.inv(),
        0 <= i < server.clients.len(),
        server.clients.len() > 1,
        server.foreground_client_id == Some(server.clients[i].client_id),
        event == (ServerEvent::ClientDetach { client_id: server.clients[i].client_id }) || event
            == (ServerEvent::ClientDisconnected { client_id: server.clients[i].client_id }),
    ensures
        ({
            let after = server.after_event(event, input);
            &&& 0 <= next < server.clients.len() && next != i
            &&& forall|j: int|
                0 <= j < server.clients.len() && j != i ==> (#[trigger] server.clients[j]).last_activity
                    <= server.clients[next].last_activity
            &&& after.foreground_client_id == Some(server.clients[next].client_id)
            &&& after.effective_size == server.clients[next].terminal_size
            &&& after.outer_terminal_focus == server.clients[next].outer_terminal_focus
            &&& after.effects.last() == (SessionEffect::ResizePanes {
                cols: server.clients[next].terminal_size.0,
                rows: server.clients[next].terminal_size.1,
            })
        }),
{
    lemma_at_unique(server, i);
    let client_id = server.clients[i].client_id;
    let left = server.clients.remove(i);
    lemma_latest_at(left);
    let k = latest_at(left)->0;
    let next = if k < i {
        k
    } else {
        k + 1
    };
    assert(left[k] == server.clients[next]);
    assert(server.clients[next].client_id != client_id) by {
        if next < i {
            assert(server.clients[next].client_id != server.clients[i].client_id);
        } else {
            assert(server.clients[i].client_id != server.clients[next].client_id);
        }
    }
    assert forall|j: int|
        0 <= j < server.clients.len() && j != i implies (#[trigger] server.clients[j]).last_activity
        <= server.clients[next].last_activity by {
        let place = if j < i {
            j
        } else {
            j - 1
        };
        assert(left[place] == server.clients[j]);
    }
    lemma_removed(server, client_id);
    let removed = server.removed(client_id);
    assert(removed.clients == left);
    let moved = ServerView {
        clients: left,
        foreground_client_id: Some(left[k].client_id),
        ..server
    };
    assert(moved.wf()) by {
        assert(removed.wf());
        assert forall|a: int, b: int| 0 <= a < b < moved.clients.len() implies
            moved.clients[a].client_id != moved.clients[b].client_id by {
            assert(removed.clients[a].client_id != removed.clients[b].client_id);
        }
    }
    lemma_at_unique(moved, k);
    next
}

/// A message reaches the client it is for: its queue grows by exactly that
/// message, and nothing else on the server changes. A client whose way is closed
/// is dropped; one that has no way, or is not attached, changes nothing.
pub proof fn law_a_message_reaches_its_client(
    server: ServerView,
    i: int,
    message: MessageView,
    stranger: u64,
)
    requires
        server.wf(),
        0 <= i < server.clients.len(),
        forall|j: int|
            0 <= j < server.clients.len() ==> (#[trigger] server.clients[j]).client_id != stranger,
    ensures
        ({
            let client = server.clients[i];
            let after = server.sent(client.client_id, message);
            &&& client.writer matches Some(writer) ==> {
                &&& !writer.closed ==> {
                    &&& after.clients.len() == server.clients.len()
                    &&& after.clients[i].writer matches Some(way) && way.queue
                        == writer.queue.push(message) && !way.closed
                    &&& after.clients[i] == (ClientView {
                        writer: after.clients[i].writer,
                        ..client
                    })
                    &&& forall|j: int|
                        0 <= j < server.clients.len() && j != i ==> #[trigger] after.clients[j]
                            == server.clients[j]
                    &&& after.foreground_client_id == server.foreground_client_id
                    &&& after.effects == server.effects
                    &&& server.reaches(client.client_id)
                }
                &&& writer.closed ==> after.clients.len() == server.clients.len() - 1
                    && !server.reaches(client.client_id)
            }
            &&& client.writer is None ==> after == server
            &&& server.sent(stranger, message) == server
            &&& !server.reaches(stranger)
        }),
{
    lemma_at_unique(server, i);
    lemma_client_at(server.clients, stranger);
}

/// A change of an agent's state is announced to the client in front, whether it
/// was detected or reported by a hook: where a sound is called for and allowed,
/// its queue grows by the notification that names it; where the client's
/// terminal shows toasts, then by the toast that the change put up, or else by
/// the one that the change calls for. It grows by nothing else, and no other
/// client gets anything.
pub proof fn law_state_changes_are_announced(
    server: ServerView,
    i: int,
    facts: StateChangeFacts,
    event: SessionEvent,
)
    requires
        server.wf(),
        0 <= i < server.clients.len(),
        server.foreground_client_id == Some(server.clients[i].client_id),
        server.clients[i].writer matches Some(writer) && !writer.closed,
        event == SessionEvent::StateChanged(facts) || event == SessionEvent::HookStateReported(
            facts,
        ),
    ensures
        ({
            let after = server.forwarded(event);
            let before = server.clients[i].writer->0.queue;
            let queue = after.clients[i].writer->0.queue;
            let sounds = facts.sound_allowed && facts.sound is Some;
            let put_up = facts.toast.after is Some && toast_view(facts.toast.after) != toast_view(
                facts.toast.before,
            );
            let called_for = crate::server::notifications::state_change_toast(
                facts.mentions@,
                facts.pane_id,
                facts.toast_kind,
            );
            let toasts = facts.toast.delivery == ToastDelivery::Terminal && (put_up || called_for
                is Some);
            let sounded = if sounds {
                1int
            } else {
                0int
            };
            let toasted = if toasts {
                1int
            } else {
                0int
            };
            &&& after.clients.len() == server.clients.len()
            &&& forall|j: int|
                0 <= j < server.clients.len() && j != i ==> #[trigger] after.clients[j]
                    == server.clients[j]
            &&& after.clients[i].writer is Some
            &&& before.is_prefix_of(queue)
            &&& queue.len() == before.len() + sounded + toasted
            &&& sounds && facts.sound == Some(Sound::Done) ==> queue[before.len() as int] == (
            MessageView::Notify { kind: NotifyKind::Sound, message: "agent done"@ })
            &&& sounds && facts.sound == Some(Sound::Request) ==> queue[before.len() as int] == (
            MessageView::Notify { kind: NotifyKind::Sound, message: "agent attention"@ })
            &&& toasts && put_up ==> queue.last() == (MessageView::Notify {
                kind: NotifyKind::Toast,
                message: facts.toast.after->0.title@ + ": "@ + facts.toast.after->0.context@,
            })
            &&& toasts && !put_up ==> queue.last() == (MessageView::Notify {
                kind: NotifyKind::Toast,
                message: called_for->0,
            })
        }),
{
    lemma_at_unique(server, i);
    let client_id = server.clients[i].client_id;
    let sound = if facts.sound_allowed {
        match facts.sound {
            Some(sound) => Some(sound_text(sound)),
            None => None,
        }
    } else {
        None
    };
    let sounded = server.notified(NotifyKind::Sound, sound);
    if let Some(text) = sound {
        let message = MessageView::Notify { kind: NotifyKind::Sound, message: text };
        lemma_with_client(
            server,
            i,
            ClientView {
                writer: Some(server.clients[i].writer->0.sent(message)),
                ..server.clients[i]
            },
        );
        assert(sounded.at(client_id) == Some(i));
    }
}

/// What the user copies reaches the client in front, encoded; and an available
/// update is told to it where its terminal shows toasts.
pub proof fn law_clipboard_and_updates_reach_the_front(
    server: ServerView,
    i: int,
    content: Vec<u8>,
    version: String,
    toast: ToastFacts,
)
    requires
        server.wf(),
        0 <= i < server.clients.len(),
        server.foreground_client_id == Some(server.clients[i].client_id),
        server.clients[i].writer matches Some(writer) && !writer.closed,
    ensures
        ({
            let before = server.clients[i].writer->0.queue;
            let copied = server.forwarded(SessionEvent::ClipboardWrite { content });
            let updated = server.forwarded(SessionEvent::UpdateReady { version, toast });
            let queue = updated.clients[i].writer->0.queue;
            let put_up = toast.after is Some && toast_view(toast.after) != toast_view(toast.before);
            &&& copied.clients[i].writer is Some && copied.clients[i].writer->0.queue
                == before.push(MessageView::Clipboard { data: encoding::base64_text(content@) })
            &&& updated.clients[i].writer is Some
            &&& toast.delivery != ToastDelivery::Terminal ==> queue == before
            &&& toast.delivery == ToastDelivery::Terminal && put_up ==> queue == before.push(
                MessageView::Notify {
                    kind: NotifyKind::Toast,
                    message: toast.after->0.title@ + ": "@ + toast.after->0.context@,
                },
            )
            &&& toast.delivery == ToastDelivery::Terminal && !put_up ==> queue == before.push(
                MessageView::Notify {
                    kind: NotifyKind::Toast,
                    message: "v"@ + version@ + " available: detach, then run `herdr update`"@,
                },
            )
            &&& server.forwarded(SessionEvent::Other) == server
        }),
{
    lemma_at_unique(server, i);
}

/// A client's queue after a notification, if there is one.
pub open spec fn told(queue: Seq<MessageView>, kind: NotifyKind, text: Option<Seq<char>>) -> Seq<
    MessageView,
> {
    match text {
        Some(message) => queue.push(MessageView::Notify { kind, message }),
        None => queue,
    }
}

proof fn lemma_told(server: ServerView, i: int, kind: NotifyKind, text: Option<Seq<char>>)
    requires
        server.wf(),
        0 <= i < server.clients.len(),
        server.foreground_client_id == Some(server.clients[i].client_id),
        server.clients[i].writer matches Some(writer) && !writer.closed,
    ensures
        ({
            let after = server.notified(kind, text);
            &&& after.wf()
            &&& after.foreground_client_id == server.foreground_client_id
            &&& after.clients.len() == server.clients.len()
            &&& after.clients[i].client_id == server.clients[i].client_id
            &&& after.clients[i].writer matches Some(writer) && !writer.closed && writer.queue
                == told(server.clients[i].writer->0.queue, kind, text)
            &&& forall|j: int|
                0 <= j < server.clients.len() && j != i ==> #[trigger] after.clients[j]
                    == server.clients[j]
        }),
{
    lemma_at_unique(server, i);
    if let Some(message) = text {
        lemma_with_client(
            server,
            i,
            ClientView {
                writer: Some(
                    server.clients[i].writer->0.sent(MessageView::Notify { kind, message }),
                ),
                ..server.clients[i]
            },
        );
    }
}

/// A change across a request is announced to the client in front: its toast,
/// where the request put up none itself, an agent is known and the change calls
/// for one; then the sound it calls for, where that is allowed.
pub proof fn law_request_changes_are_announced(
    server: ServerView,
    i: int,
    toasts: bool,
    change: RequestChange,
)
    requires
        server.wf(),
        0 <= i < server.clients.len(),
        server.foreground_client_id == Some(server.clients[i].client_id),
        server.clients[i].writer matches Some(writer) && !writer.closed,
    ensures
        ({
            let after = server.change_announced(toasts, change);
            let before = server.clients[i].writer->0.queue;
            let queue = after.clients[i].writer->0.queue;
            let toasted = toasts && change.toast_kind is Some && change.agent_label is Some;
            let sounded = change.sound_allowed && change.sound is Some;
            let happened = match change.toast_kind {
                Some(ToastKind::NeedsAttention) => "needs attention"@,
                Some(ToastKind::Finished) => "finished"@,
                _ => "updated"@,
            };
            let toast = MessageView::Notify {
                kind: NotifyKind::Toast,
                message: change.agent_label->0@ + " "@ + happened + ": "@ + change.context@,
            };
            let sound = MessageView::Notify {
                kind: NotifyKind::Sound,
                message: if change.sound == Some(Sound::Done) {
                    "agent done"@
                } else {
                    "agent attention"@
                },
            };
            &&& after.clients[i].writer is Some
            &&& toasted && sounded ==> queue == before.push(toast).push(sound)
            &&& toasted && !sounded ==> queue == before.push(toast)
            &&& !toasted && sounded ==> queue == before.push(sound)
            &&& !toasted && !sounded ==> queue == before
            &&& after.clients.len() == server.clients.len()
            &&& forall|j: int|
                0 <= j < server.clients.len() && j != i ==> #[trigger] after.clients[j]
                    == server.clients[j]
        }),
{
    let toast = match (change.toast_kind, change.agent_label) {
        (Some(kind), Some(label)) => if toasts {
            Some(crate::server::notifications::toast_text(label@, kind, change.context@))
        } else {
            None
        },
        _ => None,
    };
    let sound = match change.sound {
        Some(sound) => if change.sound_allowed {
            Some(sound_text(sound))
        } else {
            None
        },
        None => None,
    };
    lemma_told(server, i, NotifyKind::Toast, toast);
    lemma_told(server.notified(NotifyKind::Toast, toast), i, NotifyKind::Sound, sound);
}

/// Every change across a request is announced, in order: announcing one more
/// change announces the earlier ones as before, then that one. A toast that the
/// request put up is announced in place of the changes' own toasts.
pub proof fn law_all_request_changes_are_announced(
    server: ServerView,
    toast: ToastFacts,
    changes: Seq<RequestChange>,
    change: RequestChange,
)
    ensures
        ({
            let put_up = toast.after is Some && toast_view(toast.after) != toast_view(
                toast.before,
            );
            let terminal = toast.delivery == ToastDelivery::Terminal;
            &&& server.request_announced(toast, changes.push(change)) == server.request_announced(
                toast,
                changes,
            ).change_announced(terminal && !put_up, change)
            &&& terminal && put_up ==> server.request_announced(toast, Seq::empty())
                == server.sent_to_foreground(
                MessageView::Notify {
                    kind: NotifyKind::Toast,
                    message: toast.after->0.title@ + ": "@ + toast.after->0.context@,
                },
            )
            &&& !(terminal && put_up) ==> server.request_announced(toast, Seq::empty()) == server
        }),
{
    assert(changes.push(change).drop_last() =~= changes);
}

/// A change of a pane is told exactly where the state that counts for it, what
/// its hook reports or else what was detected, differs across the request.
pub proof fn law_pane_changes_are_told(
    before: Seq<LocatedPane>,
    after: Seq<LocatedPane>,
    pane: LocatedPane,
    at: int,
)
    requires
        0 <= at < after.len(),
        after[at].ws_idx == pane.ws_idx,
        after[at].states.pane_id == pane.states.pane_id,
        forall|j: int|
            0 <= j < at ==> (#[trigger] after[j]).ws_idx != pane.ws_idx || after[j].states.pane_id
                != pane.states.pane_id,
    ensures
        ({
            let from = if pane.states.hook_state is Some {
                pane.states.hook_state->0
            } else {
                pane.states.state
            };
            let to = if after[at].states.hook_state is Some {
                after[at].states.hook_state->0
            } else {
                after[at].states.state
            };
            let changes = pane_changes(before.push(pane), after);
            &&& from != to ==> changes == pane_changes(before, after).push(
                PaneChange { ws_idx: pane.ws_idx, pane_id: pane.states.pane_id, from, to },
            )
            &&& from == to ==> changes == pane_changes(before, after)
            &&& pane_changes(Seq::empty(), after).len() == 0
        }),
{
    assert(before.push(pane).drop_last() =~= before);
    lemma_located(after, pane.ws_idx, pane.states.pane_id, at);
}

proof fn lemma_located(panes: Seq<LocatedPane>, ws_idx: usize, pane_id: u64, at: int)
    requires
        0 <= at < panes.len(),
        panes[at].ws_idx == ws_idx,
        panes[at].states.pane_id == pane_id,
        forall|j: int|
            0 <= j < at ==> (#[trigger] panes[j]).ws_idx != ws_idx || panes[j].states.pane_id
                != pane_id,
    ensures
        located(panes, ws_idx, pane_id) == Some(panes[at].states),
    decreases panes.len(),
{
    if at > 0 {
        assert(panes[0].ws_idx != ws_idx || panes[0].states.pane_id != pane_id);
        let rest = panes.drop_first();
        assert forall|j: int| 0 <= j < at - 1 implies (#[trigger] rest[j]).ws_idx != ws_idx
            || rest[j].states.pane_id != pane_id by {
            assert(rest[j] == panes[j + 1]);
        }
        lemma_located(rest, ws_idx, pane_id, at - 1);
    }
}

/// Of several records of a pane the first counts.
pub proof fn law_the_first_pane_record_counts(panes: Seq<PaneStates>, pane_id: u64, at: int)
    requires
        0 <= at < panes.len(),
        panes[at].pane_id == pane_id,
        forall|j: int| 0 <= j < at ==> (#[trigger] panes[j]).pane_id != pane_id,
    ensures
        pane_record(panes, pane_id) == Some(panes[at]),
    decreases panes.len(),
{
    if at > 0 {
        assert(panes[0].pane_id != pane_id);
        let rest = panes.drop_first();
        assert forall|j: int| 0 <= j < at - 1 implies (#[trigger] rest[j]).pane_id != pane_id by {
            assert(rest[j] == panes[j + 1]);
        }
        law_the_first_pane_record_counts(rest, pane_id, at - 1);
    }
}

proof fn lemma_broken_ids(clients: Seq<ClientView>, id: u64)
    ensures
        broken_ids(clients).contains(id) <==> exists|i: int|
            0 <= i < clients.len() && (#[trigger] clients[i]).client_id == id && (
            clients[i].writer matches Some(writer) && writer.closed),
    decreases clients.len(),
{
    if clients.len() > 0 {
        let front = clients.drop_last();
        let earlier = broken_ids(front);
        lemma_broken_ids(front, id);
        let all = broken_ids(clients);
        let last = clients.len() - 1;
        if all.contains(id) {
            let k = choose|k: int| 0 <= k < all.len() && all[k] == id;
            if k < earlier.len() {
                assert(earlier[k] == id);
                let i = choose|i: int|
                    0 <= i < front.len() && (#[trigger] front[i]).client_id == id && (
                    front[i].writer matches Some(writer) && writer.closed);
                assert(clients[i] == front[i]);
            } else {
                assert(clients[last].client_id == id);
            }
        }
        if exists|i: int|
            0 <= i < clients.len() && (#[trigger] clients[i]).client_id == id && (
            clients[i].writer matches Some(writer) && writer.closed) {
            let i = choose|i: int|
                0 <= i < clients.len() && (#[trigger] clients[i]).client_id == id && (
                clients[i].writer matches Some(writer) && writer.closed);
            if i < last {
                assert(front[i] == clients[i]);
                let k = choose|k: int| 0 <= k < earlier.len() && earlier[k] == id;
                assert(all[k] == id);
            } else {
                assert(all[all.len() - 1] == id);
            }
        }
    }
}

/// Whether a server still has a client, as it was but for its last screen.
spec fn keeps(server: ServerView, client: ClientView) -> bool {
    server.at(client.client_id) matches Some(k) && 0 <= k < server.clients.len()
        && server.clients[k] == (ClientView { last_frame: server.clients[k].last_frame, ..client })
}

/// Whether a client is one of a server's, as it was but for its last screen.
spec fn stems_from(server: ServerView, client: ClientView) -> bool {
    exists|i: int|
        0 <= i < server.clients.len() && client == (ClientView {
            last_frame: client.last_frame,
            ..#[trigger] server.clients[i]
        })
}

/// What dropping one client leaves: exactly the others.
proof fn lemma_dropped_one(server: ServerView, gone: u64)
    requires
        server.inv(),
    ensures
        ({
            let after = server.dropped(gone);
            &&& after.shutting_down == server.shutting_down
            &&& forall|k: int|
                0 <= k < after.clients.len() ==> (#[trigger] after.clients[k]).client_id != gone
                    && stems_from(server, after.clients[k])
            &&& forall|i: int|
                0 <= i < server.clients.len() && (#[trigger] server.clients[i]).client_id != gone
                    ==> keeps(after, server.clients[i])
        }),
{
    let after = server.dropped(gone);
    lemma_dropped(server, gone);
    lemma_client_at(server.clients, gone);
    assert forall|k: int| 0 <= k < after.clients.len() implies (
    #[trigger] after.clients[k]).client_id != gone && stems_from(server, after.clients[k]) by {
        let from = match server.at(gone) {
            Some(g) => if k < g {
                k
            } else {
                k + 1
            },
            None => k,
        };
        assert(after.clients[k] == (ClientView {
            last_frame: after.clients[k].last_frame,
            ..server.clients[from]
        }));
        if let Some(g) = server.at(gone) {
            if from < g {
                assert(server.clients[from].client_id != server.clients[g].client_id);
            } else {
                assert(server.clients[g].client_id != server.clients[from].client_id);
            }
        }
    }
    assert forall|i: int|
        0 <= i < server.clients.len() && (#[trigger] server.clients[i]).client_id
            != gone implies keeps(after, server.clients[i]) by {
        let k = match server.at(gone) {
            Some(g) => if i < g {
                i
            } else {
                i - 1
            },
            None => i,
        };
        assert(after.clients[k] == (ClientView {
            last_frame: after.clients[k].last_frame,
            ..server.clients[i]
        }));
        lemma_at_unique(after, k);
    }
}

/// What dropping clients leaves: exactly the others, and of them everything but
/// the last screen.
proof fn lemma_dropped_all(server: ServerView, ids: Seq<u64>, size: (u16, u16))
    requires
        server.inv(),
    ensures
        ({
            let after = server.dropped_all(ids);
            &&& after.inv()
            &&& server.fits_foreground(size) ==> after.fits_foreground(size)
            &&& after.shutting_down == server.shutting_down
            &&& forall|k: int|
                0 <= k < after.clients.len() ==> !ids.contains(
                    (#[trigger] after.clients[k]).client_id,
                ) && stems_from(server, after.clients[k])
            &&& forall|i: int|
                0 <= i < server.clients.len() && !ids.contains(
                    (#[trigger] server.clients[i]).client_id,
                ) ==> keeps(after, server.clients[i])
        }),
    decreases ids.len(),
{
    let after = server.dropped_all(ids);
    if ids.len() == 0 {
        assert forall|i: int| 0 <= i < server.clients.len() implies keeps(
            after,
            #[trigger] server.clients[i],
        ) by {
            lemma_at_unique(server, i);
        }
        assert forall|k: int| 0 <= k < after.clients.len() implies stems_from(
            server,
            #[trigger] after.clients[k],
        ) by {
            assert(after.clients[k] == server.clients[k]);
        }
    } else {
        let front = ids.drop_last();
        let gone = ids.last();
        let earlier = server.dropped_all(front);
        lemma_dropped_all(server, front, size);
        lemma_dropped(earlier, gone);
        if server.fits_foreground(size) {
            lemma_dropped_layout(earlier, gone, size);
        }
        lemma_dropped_one(earlier, gone);
        assert forall|id: u64| #[trigger] ids.contains(id) <==> front.contains(id) || id == gone by {
            if ids.contains(id) {
                let n = choose|n: int| 0 <= n < ids.len() && ids[n] == id;
                if n < front.len() {
                    assert(front[n] == id);
                }
            }
            if front.contains(id) {
                let n = choose|n: int| 0 <= n < front.len() && front[n] == id;
                assert(ids[n] == id);
            }
            assert(ids[ids.len() - 1] == gone);
        }
        assert forall|k: int| 0 <= k < after.clients.len() implies !ids.contains(
            (#[trigger] after.clients[k]).client_id,
        ) && stems_from(server, after.clients[k]) by {
            assert(stems_from(earlier, after.clients[k]));
            let e = choose|e: int|
                0 <= e < earlier.clients.len() && after.clients[k] == (ClientView {
                    last_frame: after.clients[k].last_frame,
                    ..#[trigger] earlier.clients[e]
                });
            assert(stems_from(server, earlier.clients[e]));
            let i = choose|i: int|
                0 <= i < server.clients.len() && earlier.clients[e] == (ClientView {
                    last_frame: earlier.clients[e].last_frame,
                    ..#[trigger] server.clients[i]
                });
            assert(after.clients[k] == (ClientView {
                last_frame: after.clients[k].last_frame,
                ..server.clients[i]
            }));
        }
        assert forall|i: int|
            0 <= i < server.clients.len() && !ids.contains(
                (#[trigger] server.clients[i]).client_id,
            ) implies keeps(after, server.clients[i]) by {
            let id = server.clients[i].client_id;
            assert(keeps(earlier, server.clients[i]));
            let e = earlier.at(id)->0;
            assert(earlier.clients[e].client_id == id);
            assert(keeps(after, earlier.clients[e]));
        }
    }
}

/// A message to everyone reaches everyone who can be reached: each client with
/// an open way keeps its place in the server and its queue grows by exactly that
/// message; a client without a way stays as it is. Clients whose way is closed
/// are gone, and nobody else is.
pub proof fn law_a_broadcast_reaches_everyone(server: ServerView, message: MessageView)
    requires
        server.inv(),
    ensures
        ({
            let after = server.broadcast(message);
            &&& after.inv()
            &&& after.shutting_down == server.shutting_down
            &&& forall|i: int|
                0 <= i < server.clients.len() ==> {
                    let client = #[trigger] server.clients[i];
                    let place = after.at(client.client_id);
                    &&& client.writer matches Some(writer) ==> {
                        &&& !writer.closed ==> place is Some && after.clients[place->0].client_id
                            == client.client_id && after.clients[place->0].writer == Some(
                            WriterView { queue: writer.queue.push(message), closed: false },
                        ) && after.clients[place->0].terminal_size == client.terminal_size
                        &&& writer.closed ==> place is None
                    }
                    &&& client.writer is None ==> place is Some
                        && after.clients[place->0].client_id == client.client_id
                        && after.clients[place->0].writer is None
                }
            &&& forall|k: int|
                0 <= k < after.clients.len() ==> exists|i: int|
                    0 <= i < server.clients.len() && (#[trigger] after.clients[k]).client_id == (
                    #[trigger] server.clients[i]).client_id
        }),
{
    let offered_to = ServerView {
        clients: server.clients.map_values(|client: ClientView| offered(client, message)),
        ..server
    };
    let ids = broken_ids(server.clients);
    let after = server.broadcast(message);
    assert(offered_to.inv()) by {
        assert forall|a: int, b: int| 0 <= a < b < offered_to.clients.len() implies
            offered_to.clients[a].client_id != offered_to.clients[b].client_id by {
            assert(server.clients[a].client_id != server.clients[b].client_id);
        }
        if let Some(id) = server.foreground_client_id {
            lemma_client_at(server.clients, id);
            let f = server.at(id)->0;
            assert(offered_to.clients[f].client_id == id);
            lemma_at_unique(offered_to, f);
        }
    }
    lemma_dropped_all(offered_to, ids, (0, 0));
    assert forall|i: int| 0 <= i < server.clients.len() implies {
        let client = #[trigger] server.clients[i];
        let place = after.at(client.client_id);
        &&& client.writer matches Some(writer) ==> {
            &&& !writer.closed ==> place is Some && after.clients[place->0].client_id
                == client.client_id && after.clients[place->0].writer == Some(
                WriterView { queue: writer.queue.push(message), closed: false },
            ) && after.clients[place->0].terminal_size == client.terminal_size
            &&& writer.closed ==> place is None
        }
        &&& client.writer is None ==> place is Some && after.clients[place->0].client_id
            == client.client_id && after.clients[place->0].writer is None
    } by {
        let client = server.clients[i];
        lemma_broken_ids(server.clients, client.client_id);
        assert(offered_to.clients[i] == offered(client, message));
        let closed = client.writer matches Some(writer) && writer.closed;
        assert(ids.contains(client.client_id) <==> closed) by {
            if ids.contains(client.client_id) {
                let n = choose|n: int|
                    0 <= n < server.clients.len() && (#[trigger] server.clients[n]).client_id
                        == client.client_id && (server.clients[n].writer matches Some(writer)
                        && writer.closed);
                assert(n == i);
            }
        }
        if closed {
            lemma_client_at(after.clients, client.client_id);
            if let Some(k) = after.at(client.client_id) {
                assert(!ids.contains(after.clients[k].client_id));
            }
        } else {
            assert(!ids.contains(offered_to.clients[i].client_id));
        }
    }
    assert forall|k: int| 0 <= k < after.clients.len() implies exists|i: int|
        0 <= i < server.clients.len() && (#[trigger] after.clients[k]).client_id == (
        #[trigger] server.clients[i]).client_id by {
        assert(stems_from(offered_to, after.clients[k]));
        let i = choose|i: int|
            0 <= i < offered_to.clients.len() && after.clients[k] == (ClientView {
                last_frame: after.clients[k].last_frame,
                ..#[trigger] offered_to.clients[i]
            });
        assert(server.clients[i].client_id == after.clients[k].client_id);
    }
}

/// Shutdown is told once: the first request to shut down tells every client that
/// can be reached that the server is shutting down, and further ones change
/// nothing.
pub proof fn law_shutdown_is_told_once(server: ServerView, i: int)
    requires
        server.inv(),
        0 <= i < server.clients.len(),
        server.clients[i].writer matches Some(writer) && !writer.closed,
    ensures
        ({
            let after = server.shutdown_begun();
            let place = after.at(server.clients[i].client_id);
            &&& after.shutting_down
            &&& after.shutdown_begun() == after
            &&& place is Some
            &&& after.clients[place->0].writer is Some
            &&& !server.shutting_down ==> after.clients[place->0].writer->0.queue
                == server.clients[i].writer->0.queue.push(
                MessageView::ServerShutdown { reason: Some("server is shutting down"@) },
            )
        }),
{
    lemma_at_unique(server, i);
    let down = ServerView { shutting_down: true, ..server };
    assert(down.inv()) by {
        assert forall|a: int, b: int| 0 <= a < b < down.clients.len() implies
            down.clients[a].client_id != down.clients[b].client_id by {
            assert(server.clients[a].client_id != server.clients[b].client_id);
        }
    }
    law_a_broadcast_reaches_everyone(
        down,
        MessageView::ServerShutdown { reason: Some(UNAVAILABLE_MESSAGE@) },
    );
    assert(down.clients[i] == server.clients[i]);
}

/// A client that asked to detach is told so as the last thing on its way, and
/// gets nothing more: it stays attached without a way, and the way that is
/// handed back holds what waited there, then the farewell.
pub proof fn law_a_detached_client_is_told_last(server: ServerView, i: int, message: MessageView)
    requires
        server.wf(),
        0 <= i < server.clients.len(),
        server.clients[i].writer matches Some(writer) && !writer.closed,
    ensures
        ({
            let client_id = server.clients[i].client_id;
            let after = server.detached(client_id);
            &&& server.last_way(client_id) == Some(
                WriterView {
                    queue: server.clients[i].writer->0.queue.push(
                        MessageView::ServerShutdown { reason: Some("detached"@) },
                    ),
                    closed: false,
                },
            )
            &&& after.clients.len() == server.clients.len()
            &&& after.clients[i] == (ClientView { writer: None, ..server.clients[i] })
            &&& forall|j: int|
                0 <= j < server.clients.len() && j != i ==> #[trigger] after.clients[j]
                    == server.clients[j]
            &&& after.sent(client_id, message) == after
            &&& after.foreground_client_id == server.foreground_client_id
        }),
{
    let client_id = server.clients[i].client_id;
    lemma_at_unique(server, i);
    let farewell = MessageView::ServerShutdown { reason: Some("detached"@) };
    let told_client = ClientView {
        writer: Some(server.clients[i].writer->0.sent(farewell)),
        ..server.clients[i]
    };
    lemma_at_after_update(server.clients, i, told_client, client_id);
    let told_server = server.told_detached(client_id);
    assert(told_server.clients == server.clients.update(i, told_client));
    lemma_at_after_update(
        told_server.clients,
        i,
        ClientView { writer: None, ..told_client },
        client_id,
    );
}

/// A screen that a client does not show yet is sent to it, and is what the
/// client shows then; one that it shows is not sent. No other client is
/// concerned.
pub proof fn law_a_new_screen_is_sent(server: ServerView, i: int, frame: FrameView)
    requires
        server.wf(),
        0 <= i < server.clients.len(),
        server.clients[i].writer matches Some(writer) && !writer.closed,
    ensures
        ({
            let client = server.clients[i];
            let after = server.screen_sent(client.client_id, frame);
            &&& after.clients.len() == server.clients.len()
            &&& client.last_frame != Some(frame) ==> after.clients[i] == (ClientView {
                writer: Some(
                    WriterView {
                        queue: client.writer->0.queue.push(MessageView::Frame(frame)),
                        closed: false,
                    },
                ),
                last_frame: Some(frame),
                ..client
            })
            &&& client.last_frame == Some(frame) ==> after.clients[i] == client
            &&& forall|j: int|
                0 <= j < server.clients.len() && j != i ==> #[trigger] after.clients[j]
                    == server.clients[j]
            &&& !server.screen_breaks(client.client_id, frame)
        }),
{
    lemma_at_unique(server, i);
}

/// A round of screens is sent one after the other; at its end the clients whose
/// way was found closed on a screen that they do not show are gone.
pub proof fn law_screens_are_sent_in_turn(
    server: ServerView,
    screens: Seq<(u64, FrameView)>,
    client_id: u64,
    frame: FrameView,
)
    ensures
        ({
            let (sent, broken) = server.screens_sent(screens);
            let (after, gone) = server.screens_sent(screens.push((client_id, frame)));
            &&& after == sent.screen_sent(client_id, frame)
            &&& sent.screen_breaks(client_id, frame) ==> gone == broken.push(client_id)
            &&& !sent.screen_breaks(client_id, frame) ==> gone == broken
            &&& server.screens_sent(Seq::empty()).0 == server
            &&& server.screens_sent(Seq::empty()).1.len() == 0
            &&& server.streamed(Seq::empty()) == server
        }),
{
    assert(screens.push((client_id, frame)).drop_last() =~= screens);
}

/// A client is a target of rendering exactly while it has a way: with its own
/// size, and marked as the one in front where it is.
pub proof fn law_clients_with_a_way_are_rendered_for(
    clients: Seq<ClientView>,
    client: ClientView,
    foreground: Option<u64>,
)
    ensures
        ({
            let before = reachable_targets(clients, foreground);
            let after = reachable_targets(clients.push(client), foreground);
            &&& client.writer is None ==> after == before
            &&& client.writer is Some ==> after.len() == before.len() + 1 && after.drop_last()
                == before && after.last().client_id == client.client_id && after.last().size
                == client.terminal_size && (after.last().is_foreground <==> foreground == Some(
                client.client_id,
            ))
            &&& reachable_targets(Seq::empty(), foreground).len() == 0
        }),
{
    assert(clients.push(client).drop_last() =~= clients);
}

/// The client in front is rendered for after every other one, so that its size
/// is the one that stays.
pub proof fn law_the_front_is_rendered_last(left: RenderTarget, right: RenderTarget)
    ensures
        left.is_foreground && !right.is_foreground ==> !left.before(right) && right.before(left),
        !left.is_foreground && !right.is_foreground ==> (left.before(right) <==> left.client_id
            <= right.client_id),
{
}

/// A client is lost exactly where nobody writes to it any more, or a screen
/// could not be framed.
pub proof fn law_losses_are_told(reports: Seq<DeliveryReport>, report: DeliveryReport)
    ensures
        report.delivery is Closed ==> lost_ids(reports.push(report)) == lost_ids(reports).push(
            report.client_id,
        ),
        report.delivery is Unframed && report.screen ==> lost_ids(reports.push(report)) == lost_ids(
            reports,
        ).push(report.client_id),
        report.delivery is Unframed && !report.screen ==> lost_ids(reports.push(report))
            == lost_ids(reports),
        report.delivery is Taken ==> lost_ids(reports.push(report)) == lost_ids(reports),
        lost_ids(Seq::empty()).len() == 0,
{
    assert(reports.push(report).drop_last() =~= reports);
}

/// Dropping lost clients takes exactly them, and the layout goes on following the
/// client in front.
pub proof fn law_lost_clients_are_dropped(
    server: ServerView,
    ids: Seq<u64>,
    i: int,
    size: (u16, u16),
)
    requires
        server.inv(),
        server.fits_foreground(size),
        0 <= i < server.clients.len(),
    ensures
        ({
            let after = server.dropped_all(ids);
            let place = after.at(server.clients[i].client_id);
            &&& after.inv() && after.fits_foreground(size)
            &&& ids.contains(server.clients[i].client_id) <==> place is None
            &&& place matches Some(k) ==> after.clients[k].writer == server.clients[i].writer
        }),
{
    lemma_dropped_all(server, ids, size);
    let after = server.dropped_all(ids);
    let id = server.clients[i].client_id;
    lemma_client_at(after.clients, id);
    if let Some(k) = after.at(id) {
        assert(!ids.contains(after.clients[k].client_id));
    }
}

/// The layout goes on following the client in front when a message finds a way
/// closed.
pub proof fn law_sending_keeps_the_layout(
    server: ServerView,
    client_id: u64,
    message: MessageView,
    size: (u16, u16),
)
    requires
        server.inv(),
        server.fits_foreground(size),
    ensures
        server.sent(client_id, message).inv(),
        server.sent(client_id, message).fits_foreground(size),
{
    lemma_client_at(server.clients, client_id);
    if let Some(i) = server.at(client_id) {
        if let Some(writer) = server.clients[i].writer {
            if writer.closed {
                lemma_dropped(server, client_id);
                lemma_dropped_layout(server, client_id, size);
            } else {
                let client = ClientView {
                    writer: Some(writer.sent(message)),
                    ..server.clients[i]
                };
                lemma_with_client(server, i, client);
                let after = server.with_client(i, client);
                if let Some(id) = server.foreground_client_id {
                    lemma_client_at(server.clients, id);
                    assert(after.at(id) == server.at(id));
                }
            }
        }
    }
}

/// A client whose terminal changes its size comes to the front, the shared size
/// follows it, and the panes are laid out for it last of all.
pub proof fn law_a_resize_is_followed(
    s: &mut HeadlessServer,
    i: int,
    cols: u16,
    rows: u16,
    input: Vec<RawInputEvent>,
    outcome: EventOutcome,
)
    requires
        old(s)@.wf(),
        0 <= i < old(s).clients@.len(),
        call_ensures(
            HeadlessServer::handle_server_event,
            (
                s,
                ServerEvent::ClientResize { client_id: old(s).clients@[i].client_id, cols, rows },
                &input,
            ),
            outcome,
        ),
    ensures
        final(s).foreground_client_id == Some(old(s).clients@[i].client_id),
        final(s).effective_size == (cols, rows),
        final(s).effects@.len() > old(s).effects@.len(),
        final(s).effects@.last() == (SessionEffect::ResizePanes { cols, rows }),
        final(s).clients@.len() == old(s).clients@.len(),
        final(s).clients@[i].terminal_size == (cols, rows),
        final(s).clients@[i].client_id == old(s).clients@[i].client_id,
        forall|j: int|
            0 <= j < old(s).clients@.len() && j != i ==> (#[trigger] final(s).clients@[j]).client_id
                == old(s).clients@[j].client_id && final(s).clients@[j].terminal_size
                == old(s).clients@[j].terminal_size,
        outcome == EventOutcome::Render(true),
{
    let before = old(s)@;
    let after = final(s)@;
    assert(before.clients[i] == old(s).clients@[i]@);
    law_a_resize_lays_the_panes_out(before, i, cols, rows, input@);
    assert(after.clients.len() == final(s).clients@.len());
    assert(after.clients[i] == final(s).clients@[i]@);
    assert forall|j: int| 0 <= j < old(s).clients@.len() && j != i implies (
    #[trigger] final(s).clients@[j]).client_id == old(s).clients@[j].client_id
        && final(s).clients@[j].terminal_size == old(s).clients@[j].terminal_size by {
        assert(after.clients[j] == final(s).clients@[j]@);
        assert(before.clients[j] == old(s).clients@[j]@);
    }
}

/// A client that connects stands last, comes to the front, and the panes are laid
/// out for it.
pub proof fn law_a_connected_client_is_in_front(
    s: &mut HeadlessServer,
    client_id: u64,
    cols: u16,
    rows: u16,
    input: Vec<RawInputEvent>,
    outcome: EventOutcome,
)
    requires
        forall|j: int|
            0 <= j < old(s).clients@.len() ==> (#[trigger] old(s).clients@[j]).client_id
                != client_id,
        call_ensures(
            HeadlessServer::handle_server_event,
            (s, ServerEvent::ClientConnected { client_id, cols, rows }, &input),
            outcome,
        ),
    ensures
        final(s).foreground_client_id == Some(client_id),
        final(s).effective_size == (cols, rows),
        final(s).effects@.last() == (SessionEffect::ResizePanes { cols, rows }),
        final(s).clients@.len() == old(s).clients@.len() + 1,
        final(s).clients@.last().client_id == client_id,
        final(s).clients@.last().terminal_size == (cols, rows),
        final(s).clients@.last().writer is Some,
        outcome == EventOutcome::Render(true),
{
    let before = old(s)@;
    let after = final(s)@;
    assert forall|j: int| 0 <= j < before.clients.len() implies (
    #[trigger] before.clients[j]).client_id != client_id by {
        assert(before.clients[j] == old(s).clients@[j]@);
    }
    law_a_new_client_comes_to_the_front(before, client_id, cols, rows, input@);
    assert(after.clients.len() == final(s).clients@.len());
    assert(before.clients.len() == old(s).clients@.len());
    let last = before.clients.len() as int;
    assert(after.clients[last] == final(s).clients@[last]@);
}

/// A client that leaves is gone and the others stay in order. Where it was in
/// front, none is left in front only if nobody is left.
pub proof fn law_a_client_that_leaves_is_gone(
    s: &mut HeadlessServer,
    i: int,
    event: ServerEvent,
    input: Vec<RawInputEvent>,
    outcome: EventOutcome,
)
    requires
        old(s)@.inv(),
        0 <= i < old(s).clients@.len(),
        event == (ServerEvent::ClientDetach { client_id: old(s).clients@[i].client_id }) || event
            == (ServerEvent::ClientDisconnected { client_id: old(s).clients@[i].client_id }),
        call_ensures(HeadlessServer::handle_server_event, (s, event, &input), outcome),
    ensures
        final(s).clients@.len() == old(s).clients@.len() - 1,
        forall|j: int|
            0 <= j < i ==> (#[trigger] final(s).clients@[j]).client_id
                == old(s).clients@[j].client_id,
        forall|j: int|
            i <= j < final(s).clients@.len() ==> (#[trigger] final(s).clients@[j]).client_id
                == old(s).clients@[j + 1].client_id,
        old(s).foreground_client_id != Some(old(s).clients@[i].client_id) ==> {
            &&& final(s).foreground_client_id == old(s).foreground_client_id
            &&& final(s).effective_size == old(s).effective_size
        },
        old(s).foreground_client_id == Some(old(s).clients@[i].client_id) && old(
            s,
        ).clients@.len() > 1 ==> final(s).foreground_client_id is Some
            && final(s).foreground_client_id != old(s).foreground_client_id,
        old(s).clients@.len() == 1 ==> final(s).foreground_client_id is None
            && final(s).effective_size == (80u16, 24u16),
        outcome == EventOutcome::Render(true),
{
    let before = old(s)@;
    let after = final(s)@;
    assert(before.clients[i] == old(s).clients@[i]@);
    assert(before.clients.len() == old(s).clients@.len());
    law_leaving_takes_only_the_client(before, i, event, input@);
    assert(after.clients.len() == final(s).clients@.len());
    assert forall|j: int| 0 <= j < i implies (#[trigger] final(s).clients@[j]).client_id
        == old(s).clients@[j].client_id by {
        assert(after.clients[j] == final(s).clients@[j]@);
        assert(before.clients[j] == old(s).clients@[j]@);
    }
    assert forall|j: int| i <= j < final(s).clients@.len() implies (
    #[trigger] final(s).clients@[j]).client_id == old(s).clients@[j + 1].client_id by {
        assert(after.clients[j] == final(s).clients@[j]@);
        assert(before.clients[j + 1] == old(s).clients@[j + 1]@);
    }
    if before.foreground_client_id == Some(before.clients[i].client_id) && before.clients.len()
        > 1 {
        let next = law_the_next_client_takes_over(before, i, event, input@);
        assert(before.clients[next].client_id != before.clients[i].client_id);
    }
}

/// The input of a client is routed as its own, and as that of the front where it
/// is in front by then; the wish to quit renders nothing, and every other event
/// does.
pub proof fn law_events_are_rendered_or_routed(
    s: &mut HeadlessServer,
    event: ServerEvent,
    input: Vec<RawInputEvent>,
    outcome: EventOutcome,
)
    requires
        call_ensures(HeadlessServer::handle_server_event, (s, event, &input), outcome),
    ensures
        event is ClientInput ==> {
            &&& outcome is RouteInput
            &&& outcome->client_id == event->ClientInput_client_id
            &&& outcome->from_foreground <==> final(s).foreground_client_id == Some(
                event->ClientInput_client_id,
            )
        },
        event is QuitSignal ==> outcome == EventOutcome::Render(false) && final(s)@ == old(s)@,
        !(event is ClientInput) && !(event is QuitSignal) ==> outcome == EventOutcome::Render(true),
{
}

/// A change of an agent's state, detected or reported by its hook, is told to the
/// client in front: by its sound where that is allowed, and by a toast where one is
/// called for in the terminal. Nobody else is told.
pub proof fn law_changes_reach_the_front(
    s: &mut HeadlessServer,
    i: int,
    facts: StateChangeFacts,
    event: SessionEvent,
    render: bool,
)
    requires
        old(s)@.wf(),
        0 <= i < old(s).clients@.len(),
        old(s).foreground_client_id == Some(old(s).clients@[i].client_id),
        old(s).clients@[i].writer is Some,
        !old(s).clients@[i].writer->0.closed,
        event == SessionEvent::StateChanged(facts) || event == SessionEvent::HookStateReported(
            facts,
        ),
        call_ensures(
            HeadlessServer::handle_internal_event_with_forwarding,
            (s, event),
            render,
        ),
    ensures
        render,
        final(s).clients@.len() == old(s).clients@.len(),
        final(s).clients@[i].writer is Some,
        ({
            let before = old(s).clients@[i].writer->0.queue@;
            let after = final(s).clients@[i].writer->0.queue@;
            let sounds = facts.sound_allowed && facts.sound is Some;
            let terminal = facts.toast.delivery == ToastDelivery::Terminal;
            let put_up = facts.toast.after is Some && facts.toast.before is None;
            &&& after.len() >= before.len()
            &&& sounds ==> {
                let told = after[before.len() as int];
                &&& after.len() > before.len()
                &&& told is Notify && told->kind == NotifyKind::Sound
                &&& facts.sound == Some(Sound::Done) ==> told->message@ == "agent done"@
                &&& facts.sound == Some(Sound::Request) ==> told->message@ == "agent attention"@
            }
            &&& terminal && put_up ==> {
                let told = after.last();
                &&& after.len() == before.len() + if sounds { 2int } else { 1int }
                &&& told is Notify && told->kind == NotifyKind::Toast
                &&& told->message@ == facts.toast.after->0.title@ + ": "@
                    + facts.toast.after->0.context@
            }
            &&& !sounds && !terminal ==> after.len() == before.len()
        }),
        forall|j: int|
            0 <= j < old(s).clients@.len() && j != i ==> (#[trigger] final(s).clients@[j])@ == old(
                s,
            ).clients@[j]@,
{
    let before = old(s)@;
    let after = final(s)@;
    assert(before.clients.len() == old(s).clients@.len());
    assert(before.clients[i] == old(s).clients@[i]@);
    law_state_changes_are_announced(before, i, facts, event);
    assert(after.clients.len() == final(s).clients@.len());
    assert(after.clients[i] == final(s).clients@[i]@);
    let queue = final(s).clients@[i].writer->0.queue@;
    let earlier = old(s).clients@[i].writer->0.queue@;
    let shown = after.clients[i].writer->0.queue;
    assert(shown == queue.map_values(|message: ServerMessage| message@));
    assert(before.clients[i].writer->0.queue.len() == earlier.len());
    assert(shown.len() == queue.len());
    if queue.len() > earlier.len() {
        assert(shown[earlier.len() as int] == queue[earlier.len() as int]@);
        assert(shown.last() == queue.last()@);
    }
    assert forall|j: int| 0 <= j < old(s).clients@.len() && j != i implies (
    #[trigger] final(s).clients@[j])@ == old(s).clients@[j]@ by {
        assert(after.clients[j] == final(s).clients@[j]@);
        assert(before.clients[j] == old(s).clients@[j]@);
    }
}

/// Clients get numbers in turn, each once.
pub proof fn law_clients_are_numbered_in_turn(s: &mut HeadlessServer, client_id: u64)
    requires
        call_ensures(HeadlessServer::allocate_client_id, (s,), client_id),
    ensures
        client_id == old(s).next_client_id,
        client_id < u64::MAX ==> final(s).next_client_id == client_id + 1,
        final(s).clients@.len() == old(s).clients@.len(),
        final(s).foreground_client_id == old(s).foreground_client_id,
{
    assert(final(s)@.clients.len() == final(s).clients@.len());
    assert(old(s)@.clients.len() == old(s).clients@.len());
}

/// A request is refused, under its own number, exactly while the server shuts
/// down.
pub proof fn law_requests_are_refused_at_the_end(
    s: HeadlessServer,
    id: String,
    refusal: Option<Refusal>,
)
    requires
        call_ensures(HeadlessServer::refuse_request, (&s, id), refusal),
    ensures
        refusal is Some <==> s.shutting_down,
        refusal is Some ==> {
            &&& refusal->0.id == id
            &&& refusal->0.code@ == "server_unavailable"@
            &&& refusal->0.message@ == "server is shutting down"@
            &&& !refusal->0.render
        },
{
}

/// Where nobody is rendered for, the panes are still laid out once for the shared
/// size; where somebody is, that is enough.
pub proof fn law_unattended_panes_are_laid_out(
    s: HeadlessServer,
    targets: Vec<RenderTarget>,
    panes_laid_out: bool,
    render: Option<((u16, u16), bool)>,
)
    requires
        call_ensures(HeadlessServer::unattended_render, (&s, &targets, panes_laid_out), render),
    ensures
        targets@.len() > 0 ==> render is None,
        targets@.len() == 0 ==> render is Some && render->Some_0.0 == s.effective_size
            && render->Some_0.1 != panes_laid_out,
{
}

/// A new server has no clients and eighty columns by twenty-four rows, and is not
/// shutting down; a server whose clients are closed has none.
pub proof fn law_servers_begin_and_end_alone(s: HeadlessServer, t: &mut HeadlessServer)
    ensures
        call_ensures(HeadlessServer::new, (), s) ==> {
            &&& s.clients@.len() == 0
            &&& s.foreground_client_id is None
            &&& s.effective_size == (80u16, 24u16)
            &&& !s.shutting_down
            &&& s.effects@.len() == 0
            &&& s.next_client_id == 1
        },
        call_ensures(HeadlessServer::close_clients, (t,), ()) ==> final(t).clients@.len() == 0
            && final(t).shutting_down == old(t).shutting_down,
{
    assert(s@.clients.len() == s.clients@.len());
    assert(final(t)@.clients.len() == final(t).clients@.len());
}

/// A terminal is never taken for smaller than one column by one row, and otherwise
/// for what it is.
pub proof fn law_sizes_are_kept_above_the_least(cols: u16, rows: u16, size: (u16, u16))
    requires
        call_ensures(clamp_terminal_size, (cols, rows), size),
    ensures
        cols > 0 ==> size.0 == cols,
        rows > 0 ==> size.1 == rows,
        cols == 0 ==> size.0 == 1,
        rows == 0 ==> size.1 == 1,
{
}

/// A pane's state changed where what stands for it did: what its hook reported, and
/// otherwise what was detected.
pub proof fn law_a_reported_state_outweighs_a_detected_one(
    before: PaneStates,
    after: PaneStates,
    change: Option<(crate::detect::AgentState, crate::detect::AgentState)>,
)
    requires
        call_ensures(pane_transition, (before, after), change),
    ensures
        before.hook_state is Some && after.hook_state == before.hook_state ==> change is None,
        before.hook_state is None && after.hook_state is None ==> {
            &&& before.state == after.state ==> change is None
            &&& before.state != after.state ==> change == Some((before.state, after.state))
        },
        before.hook_state is Some && after.hook_state is Some && before.hook_state
            != after.hook_state ==> change == Some((before.hook_state->0, after.hook_state->0)),
        before.hook_state is None && after.hook_state is Some && before.state
            != after.hook_state->0 ==> change == Some((before.state, after.hook_state->0)),
        change is Some ==> change->Some_0.0 != change->Some_0.1,
{
}

/// A message to a client that can be reached stands last on its way, and nobody
/// else's way changes; a client that is not there is sent nothing.
pub proof fn law_send_to_client_reaches_it(
    s: &mut HeadlessServer,
    i: int,
    message: ServerMessage,
    sent: bool,
)
    requires
        old(s)@.wf(),
        0 <= i < old(s).clients@.len(),
        old(s).clients@[i].writer is Some,
        !old(s).clients@[i].writer->0.closed,
        call_ensures(
            HeadlessServer::send_to_client,
            (s, old(s).clients@[i].client_id, message),
            sent,
        ),
    ensures
        sent,
        final(s).clients@.len() == old(s).clients@.len(),
        final(s).clients@[i]@.writer is Some,
        final(s).clients@[i]@.writer->0.queue == old(s).clients@[i]@.writer->0.queue.push(message@),
        forall|j: int|
            0 <= j < old(s).clients@.len() && j != i ==> (#[trigger] final(s).clients@[j])@ == old(
                s,
            ).clients@[j]@,
        final(s).foreground_client_id == old(s).foreground_client_id,
{
    let before = old(s)@;
    let after = final(s)@;
    assert(before.clients.len() == old(s).clients@.len());
    assert(before.clients[i] == old(s).clients@[i]@);
    lemma_sent_to_one(before, i, message@);
    assert(after.clients.len() == final(s).clients@.len());
    assert(after.clients[i] == final(s).clients@[i]@);
    assert forall|j: int| 0 <= j < old(s).clients@.len() && j != i implies (
    #[trigger] final(s).clients@[j])@ == old(s).clients@[j]@ by {
        assert(after.clients[j] == final(s).clients@[j]@);
        assert(before.clients[j] == old(s).clients@[j]@);
    }
}

proof fn lemma_sent_to_one(server: ServerView, i: int, message: MessageView)
    requires
        server.wf(),
        0 <= i < server.clients.len(),
        server.clients[i].writer is Some,
        !server.clients[i].writer->0.closed,
    ensures
        ({
            let after = server.sent(server.clients[i].client_id, message);
            &&& server.reaches(server.clients[i].client_id)
            &&& after.clients.len() == server.clients.len()
            &&& after.clients[i].writer is Some
            &&& after.clients[i].writer->0.queue == server.clients[i].writer->0.queue.push(message)
            &&& forall|j: int|
                0 <= j < server.clients.len() && j != i ==> #[trigger] after.clients[j]
                    == server.clients[j]
            &&& after.foreground_client_id == server.foreground_client_id
        }),
{
    lemma_at_unique(server, i);
}

/// A server that begins to shut down stays so, and tells it to everybody who can be
/// reached.
pub proof fn law_initiate_shutdown_tells_everyone(s: &mut HeadlessServer, i: int)
    requires
        old(s)@.inv(),
        0 <= i < old(s).clients@.len(),
        old(s).clients@[i].writer is Some,
        !old(s).clients@[i].writer->0.closed,
        call_ensures(HeadlessServer::initiate_shutdown, (s,), ()),
    ensures
        final(s).shutting_down,
        !old(s).shutting_down ==> exists|k: int|
            0 <= k < final(s).clients@.len() && {
                let client = #[trigger] final(s).clients@[k];
                &&& client.client_id == old(s).clients@[i].client_id
                &&& client@.writer is Some
                &&& client@.writer->0.queue == old(s).clients@[i]@.writer->0.queue.push(
                    MessageView::ServerShutdown { reason: Some("server is shutting down"@) },
                )
            },
{
    let before = old(s)@;
    let after = final(s)@;
    assert(before.clients.len() == old(s).clients@.len());
    assert(before.clients[i] == old(s).clients@[i]@);
    law_shutdown_is_told_once(before, i);
    assert(after.clients.len() == final(s).clients@.len());
    if !old(s).shutting_down {
        let k = after.at(before.clients[i].client_id)->0;
        lemma_client_at(after.clients, before.clients[i].client_id);
        assert(after.clients[k] == final(s).clients@[k]@);
    }
}

/// What a client typed is rendered where it changed something. A client that asked
/// to leave is told so last of all, its way is handed back, and nothing is rendered
/// for it.
pub proof fn law_a_client_that_asks_to_leave_is_told(
    s: &mut HeadlessServer,
    i: int,
    changed: bool,
    detach_requested: bool,
    finished: InputFinished,
)
    requires
        old(s)@.wf(),
        0 <= i < old(s).clients@.len(),
        call_ensures(
            HeadlessServer::finish_client_input,
            (s, old(s).clients@[i].client_id, changed, detach_requested),
            finished,
        ),
    ensures
        finished.render <==> changed && !detach_requested,
        !detach_requested ==> final(s)@ == old(s)@,
        detach_requested && old(s).clients@[i].writer is Some && !old(
            s,
        ).clients@[i].writer->0.closed ==> {
            &&& finished.last_way is Some
            &&& finished.last_way->0@.queue == old(s).clients@[i]@.writer->0.queue.push(
                MessageView::ServerShutdown { reason: Some("detached"@) },
            )
            &&& final(s).clients@.len() == old(s).clients@.len()
            &&& final(s).clients@[i].writer is None
        },
{
    let before = old(s)@;
    let after = final(s)@;
    assert(before.clients.len() == old(s).clients@.len());
    assert(before.clients[i] == old(s).clients@[i]@);
    assert(after.clients.len() == final(s).clients@.len());
    if detach_requested && old(s).clients@[i].writer is Some && !old(
        s,
    ).clients@[i].writer->0.closed {
        law_a_detached_client_is_told_last(before, i, MessageView::ReloadSoundConfig);
        assert(after.clients[i] == final(s).clients@[i]@);
    }
}

/// A server that follows its front has the size and the focus of the client that is
/// in front, sees the active tab where that client has the focus, and takes its
/// colors where it told any. Without a front it has eighty columns by twenty-four
/// rows.
pub proof fn law_the_server_follows_its_front(s: &mut HeadlessServer, i: int)
    requires
        old(s)@.wf(),
        call_ensures(HeadlessServer::sync_foreground_client_state, (s,), ()),
    ensures
        0 <= i < old(s).clients@.len() && old(s).foreground_client_id == Some(
            old(s).clients@[i].client_id,
        ) ==> {
            let client = old(s).clients@[i];
            let theme = client.host_terminal_theme;
            let told = theme.foreground is Some || theme.background is Some;
            &&& final(s).foreground_client_id == old(s).foreground_client_id
            &&& final(s).effective_size == client.terminal_size
            &&& final(s).outer_terminal_focus == client.outer_terminal_focus
            &&& client.outer_terminal_focus == Some(true) ==> final(s).effects@.len()
                > old(s).effects@.len() && final(s).effects@[old(s).effects@.len() as int]
                == SessionEffect::MarkActiveTabSeen
            &&& told ==> final(s).host_terminal_theme == theme && final(s).effects@.last()
                == SessionEffect::AdoptTheme(theme)
            &&& !told ==> final(s).host_terminal_theme == old(s).host_terminal_theme
        },
        old(s).foreground_client_id is None ==> {
            &&& final(s).foreground_client_id is None
            &&& final(s).effective_size == (80u16, 24u16)
            &&& final(s).outer_terminal_focus is None
            &&& final(s).effects@ == old(s).effects@
        },
{
    if 0 <= i < old(s).clients@.len() {
        assert(old(s)@.clients[i] == old(s).clients@[i]@);
        lemma_at_unique(old(s)@, i);
    }
}

/// A focus that a client reports is its own, and that of the session where it is in
/// front.
pub proof fn law_a_reported_focus_is_kept(
    s: &mut HeadlessServer,
    i: int,
    events: Vec<RawInputEvent>,
    focus: bool,
)
    requires
        old(s)@.wf(),
        0 <= i < old(s).clients@.len(),
        reported_focus(events@) == Some(focus),
        call_ensures(
            HeadlessServer::update_client_outer_focus_from_events,
            (s, old(s).clients@[i].client_id, &events),
            (),
        ),
    ensures
        final(s).clients@.len() == old(s).clients@.len(),
        final(s).clients@[i].outer_terminal_focus == Some(focus),
        final(s).clients@[i].client_id == old(s).clients@[i].client_id,
        old(s).foreground_client_id == Some(old(s).clients@[i].client_id)
            ==> final(s).outer_terminal_focus == Some(focus),
        old(s).foreground_client_id != Some(old(s).clients@[i].client_id)
            ==> final(s).outer_terminal_focus == old(s).outer_terminal_focus,
        forall|j: int|
            0 <= j < old(s).clients@.len() && j != i ==> (#[trigger] final(s).clients@[j])@ == old(
                s,
            ).clients@[j]@,
{
    let before = old(s)@;
    let after = final(s)@;
    assert(before.clients.len() == old(s).clients@.len());
    assert(after.clients.len() == final(s).clients@.len());
    assert(before.clients[i] == old(s).clients@[i]@);
    lemma_at_unique(before, i);
    assert(after.clients[i] == final(s).clients@[i]@);
    assert forall|j: int| 0 <= j < old(s).clients@.len() && j != i implies (
    #[trigger] final(s).clients@[j])@ == old(s).clients@[j]@ by {
        assert(after.clients[j] == final(s).clients@[j]@);
        assert(before.clients[j] == old(s).clients@[j]@);
    }
}

/// Colors that a client reports are its own; where it is in front and they are new,
/// the session takes them and says so.
pub proof fn law_reported_colors_are_kept(
    s: &mut HeadlessServer,
    i: int,
    events: Vec<RawInputEvent>,
    changed: bool,
)
    requires
        old(s)@.wf(),
        0 <= i < old(s).clients@.len(),
        call_ensures(
            HeadlessServer::update_client_host_theme_from_events,
            (s, old(s).clients@[i].client_id, &events),
            changed,
        ),
    ensures
        ({
            let was = old(s).clients@[i].host_terminal_theme;
            let theme = reported_theme(was, events@);
            let front = old(s).foreground_client_id == Some(old(s).clients@[i].client_id);
            &&& final(s).clients@.len() == old(s).clients@.len()
            &&& final(s).clients@[i].host_terminal_theme == theme
            &&& front && theme != was ==> {
                &&& final(s).host_terminal_theme == theme
                &&& final(s).effects@ == old(s).effects@.push(SessionEffect::AdoptTheme(theme))
                &&& changed <==> theme != old(s).host_terminal_theme
            }
            &&& !front || theme == was ==> {
                &&& final(s).host_terminal_theme == old(s).host_terminal_theme
                &&& final(s).effects@ == old(s).effects@
                &&& !changed
            }
        }),
{
    let before = old(s)@;
    let after = final(s)@;
    assert(before.clients.len() == old(s).clients@.len());
    assert(after.clients.len() == final(s).clients@.len());
    assert(before.clients[i] == old(s).clients@[i]@);
    lemma_at_unique(before, i);
    assert(after.clients[i] == final(s).clients@[i]@);
}

/// Input that counts as interaction holds a key, a click, a paste or a gained focus.
pub proof fn law_interaction_is_acting(events: Vec<RawInputEvent>, interaction: bool)
    requires
        call_ensures(events_include_interaction, (&events,), interaction),
    ensures
        interaction ==> exists|i: int|
            0 <= i < events@.len() && ((#[trigger] events@[i]) is Key || events@[i] is Mouse
                || events@[i] is Paste || events@[i] is OuterFocusGained),
{
}

/// Removing a client takes only it; where it was in front, the client that was last
/// active takes its place, if there is one.
pub proof fn law_remove_client_takes_only_it(s: &mut HeadlessServer, i: int, changed: bool)
    requires
        old(s)@.wf(),
        0 <= i < old(s).clients@.len(),
        call_ensures(HeadlessServer::remove_client, (s, old(s).clients@[i].client_id), changed),
    ensures
        final(s).clients@.len() == old(s).clients@.len() - 1,
        forall|j: int|
            0 <= j < i ==> (#[trigger] final(s).clients@[j])@ == old(s).clients@[j]@,
        forall|j: int|
            i <= j < final(s).clients@.len() ==> (#[trigger] final(s).clients@[j])@ == old(
                s,
            ).clients@[j + 1]@,
        old(s).foreground_client_id != Some(old(s).clients@[i].client_id)
            ==> final(s).foreground_client_id == old(s).foreground_client_id
            && final(s).effective_size == old(s).effective_size && !changed,
        old(s).foreground_client_id == Some(old(s).clients@[i].client_id) && old(
            s,
        ).clients@.len() == 1 ==> final(s).foreground_client_id is None,
{
    let before = old(s)@;
    let after = final(s)@;
    assert(before.clients.len() == old(s).clients@.len());
    assert(after.clients.len() == final(s).clients@.len());
    assert(before.clients[i] == old(s).clients@[i]@);
    lemma_at_unique(before, i);
    assert forall|j: int| 0 <= j < i implies (#[trigger] final(s).clients@[j])@
        == old(s).clients@[j]@ by {
        assert(after.clients[j] == final(s).clients@[j]@);
        assert(before.clients[j] == old(s).clients@[j]@);
    }
    assert forall|j: int| i <= j < final(s).clients@.len() implies (#[trigger] final(s).clients@[j])@
        == old(s).clients@[j + 1]@ by {
        assert(after.clients[j] == final(s).clients@[j]@);
        assert(before.clients[j + 1] == old(s).clients@[j + 1]@);
    }
    lemma_latest_at(before.clients.remove(i));
}

/// A color that is told replaces the one it is for and leaves the other.
pub proof fn law_told_colors_replace_their_own(
    theme: TerminalTheme,
    kind: DefaultColorKind,
    color: RgbColor,
    after: TerminalTheme,
    empty: bool,
)
    ensures
        call_ensures(TerminalTheme::with_color, (theme, kind, color), after) ==> {
            &&& kind is Foreground ==> after.foreground == Some(color) && after.background
                == theme.background
            &&& kind is Background ==> after.background == Some(color) && after.foreground
                == theme.foreground
        },
        call_ensures(TerminalTheme::is_empty, (&theme,), empty) ==> (empty <==> theme.foreground
            is None && theme.background is None),
{
}

/// A message to all stands last on the way of everybody who can be reached.
pub proof fn law_send_to_all_clients_reaches_everyone(
    s: &mut HeadlessServer,
    i: int,
    message: ServerMessage,
)
    requires
        old(s)@.inv(),
        0 <= i < old(s).clients@.len(),
        old(s).clients@[i].writer is Some,
        !old(s).clients@[i].writer->0.closed,
        call_ensures(HeadlessServer::send_to_all_clients, (s, message), ()),
    ensures
        final(s).shutting_down == old(s).shutting_down,
        exists|k: int|
            0 <= k < final(s).clients@.len() && {
                let client = #[trigger] final(s).clients@[k];
                &&& client.client_id == old(s).clients@[i].client_id
                &&& client.terminal_size == old(s).clients@[i].terminal_size
                &&& client@.writer is Some
                &&& client@.writer->0.queue == old(s).clients@[i]@.writer->0.queue.push(message@)
            },
{
    let before = old(s)@;
    let after = final(s)@;
    assert(before.clients.len() == old(s).clients@.len());
    assert(before.clients[i] == old(s).clients@[i]@);
    law_a_broadcast_reaches_everyone(before, message@);
    assert(after.clients.len() == final(s).clients@.len());
    let k = after.at(before.clients[i].client_id)->0;
    lemma_client_at(after.clients, before.clients[i].client_id);
    assert(after.clients[k] == final(s).clients@[k]@);
}

proof fn lemma_reachable_target(
    clients: Seq<ClientView>,
    foreground: Option<u64>,
    i: int,
) -> (at: int)
    requires
        0 <= i < clients.len(),
        clients[i].writer is Some,
    ensures
        0 <= at < reachable_targets(clients, foreground).len(),
        reachable_targets(clients, foreground)[at].client_id == clients[i].client_id,
        reachable_targets(clients, foreground)[at].size == clients[i].terminal_size,
    decreases clients.len(),
{
    let rest = clients.drop_last();
    law_clients_with_a_way_are_rendered_for(rest, clients.last(), foreground);
    assert(rest.push(clients.last()) =~= clients);
    let all = reachable_targets(clients, foreground);
    if i == clients.len() - 1 {
        all.len() - 1
    } else {
        let at = lemma_reachable_target(rest, foreground, i);
        assert(clients.last().writer is Some ==> all.drop_last()[at] == all[at]);
        at
    }
}

/// Everybody who can be reached is rendered for, at the size of their own terminal.
pub proof fn law_everyone_with_a_way_is_rendered_for(
    s: HeadlessServer,
    targets: Vec<RenderTarget>,
    i: int,
)
    requires
        0 <= i < s.clients@.len(),
        s.clients@[i].writer is Some,
        call_ensures(HeadlessServer::render_targets, (&s,), targets),
    ensures
        exists|k: int|
            0 <= k < targets@.len() && {
                let target = #[trigger] targets@[k];
                &&& target.client_id == s.clients@[i].client_id
                &&& target.size == s.clients@[i].terminal_size
            },
{
    broadcast use vstd::seq_lib::group_to_multiset_ensures;

    assert(s@.clients[i] == s.clients@[i]@);
    let all = reachable_targets(s@.clients, s@.foreground_client_id);
    let at = lemma_reachable_target(s@.clients, s@.foreground_client_id, i);
    assert(all.to_multiset().count(all[at]) > 0);
    assert(targets@.to_multiset().count(all[at]) > 0);
    assert(targets@.contains(all[at]));
    let k = targets@.index_of(all[at]);
    assert(targets@[k] == all[at]);
}

} // verus!
