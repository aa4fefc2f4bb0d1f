//! Named sessions: their names, their directories and sockets, and what stopping
//! and deleting them replies.

use vstd::prelude::*;

use crate::path;
use crate::text;

verus! {

/// The environment variable that names the session.
pub const SESSION_ENV_VAR: &'static str = "HERDR_SESSION";

pub const DEFAULT_SESSION_NAME: &'static str = "default";

pub const MAX_SESSION_NAME_LEN: usize = 64;

/// How long a stopped session may take to go away, in milliseconds.
pub const STOP_WAIT_TIMEOUT_MS: u64 = 2000;

/// How often that is looked at, in milliseconds.
pub const STOP_WAIT_POLL_MS: u64 = 25;

/// Whether a character may stand in a session name.
pub open spec fn is_name_char(c: char) -> bool {
    'a' <= c <= 'z' || 'A' <= c <= 'Z' || '0' <= c <= '9' || c == '.' || c == '_' || c == '-'
}

/// What is wrong with a session name, if anything is.
pub open spec fn name_complaint(name: Seq<char>) -> Option<Seq<char>> {
    if name.len() == 0 {
        Some("session name cannot be empty"@)
    } else if vstd::utf8::encode_utf8(name).len() > MAX_SESSION_NAME_LEN {
        Some("session name cannot be longer than 64 bytes"@)
    } else if name == "."@ || name == ".."@ {
        Some("session name cannot be . or .."@)
    } else if exists|i: int| 0 <= i < name.len() && !is_name_char(name[i]) {
        Some("session name may only contain ASCII letters, numbers, '.', '_' and '-'"@)
    } else {
        None
    }
}

fn has_only_name_chars(name: &str) -> (valid: bool)
    ensures
        valid == forall|i: int| 0 <= i < name@.len() ==> is_name_char(name@[i]),
{
    let n: usize = name.unicode_len();
    let mut i: usize = 0;
    while i < n
        invariant
            i <= n,
            n == name@.len(),
            forall|j: int| 0 <= j < i ==> is_name_char(name@[j]),
        decreases n - i,
    {
        let c = name.get_char(i);
        let valid = 'a' <= c && c <= 'z' || 'A' <= c && c <= 'Z' || '0' <= c && c <= '9' || c
            == '.' || c == '_' || c == '-';
        if !valid {
            return false;
        }
        i = i + 1;
    }
    true
}

/// Whether a text can name a session; the error says why not.
pub fn validate_name(name: &str) -> (checked: Result<(), String>)
    ensures
        (match checked {
            Ok(()) => None,
            Err(complaint) => Some(complaint@),
        }) == name_complaint(name@),
{
    if name.is_empty() {
        return Err("session name cannot be empty".to_owned());
    }
    if name.as_bytes().len() > MAX_SESSION_NAME_LEN {
        return Err("session name cannot be longer than 64 bytes".to_owned());
    }
    if text::same_text(name, ".") || text::same_text(name, "..") {
        return Err("session name cannot be . or ..".to_owned());
    }
    if !has_only_name_chars(name) {
        return Err(
            "session name may only contain ASCII letters, numbers, '.', '_' and '-'".to_owned(),
        );
    }
    Ok(())
}

/// What a name given by the user stands for: the default session, a session of
/// that name, or nothing, with the complaint.
pub open spec fn target_view(name: Seq<char>) -> Result<Option<Seq<char>>, Seq<char>> {
    if name == DEFAULT_SESSION_NAME@ {
        Ok(None)
    } else {
        match name_complaint(name) {
            Some(complaint) => Err(complaint),
            None => Ok(Some(name)),
        }
    }
}

/// The texts of a parsed name, for contracts.
pub open spec fn parsed_view(parsed: Result<Option<String>, String>) -> Result<
    Option<Seq<char>>,
    Seq<char>,
> {
    match parsed {
        Ok(name) => Ok(text::text_of(name)),
        Err(complaint) => Err(complaint@),
    }
}

/// Read a session name given by the user; the default session has none.
pub fn parse_target_name(name: &str) -> (target: Result<Option<String>, String>)
    ensures
        parsed_view(target) == target_view(name@),
{
    if text::same_text(name, DEFAULT_SESSION_NAME) {
        return Ok(None);
    }
    match validate_name(name) {
        Ok(()) => Ok(Some(name.to_owned())),
        Err(complaint) => Err(complaint),
    }
}

/// A session name is always a single plain path component.
pub proof fn law_session_names_are_plain_components(name: Seq<char>)
    requires
        name_complaint(name) is None,
    ensures
        name.len() > 0,
        name != "."@,
        name != ".."@,
        forall|i: int| 0 <= i < name.len() ==> name[i] != '/',
{
    assert forall|i: int| 0 <= i < name.len() implies name[i] != '/' by {
        assert(is_name_char(name[i]));
    }
}

// ---------------------------------------------------------------------------
// Choosing the session
// ---------------------------------------------------------------------------

/// What a scan of the arguments found: the arguments without the session option
/// and the session it asks for. The last option counts.
pub struct ScannedArgs {
    pub kept: Seq<Seq<char>>,
    pub requested: Option<Seq<char>>,
}

/// Scan arguments for `--session NAME` and `--session=NAME`. There is no result
/// where the option's value is missing.
pub open spec fn scanned(args: Seq<Seq<char>>) -> Option<ScannedArgs>
    decreases args.len(),
{
    if args.len() == 0 {
        Some(ScannedArgs { kept: Seq::empty(), requested: None })
    } else if args[0] == "--session"@ {
        if args.len() == 1 {
            None
        } else {
            match scanned(args.skip(2)) {
                Some(rest) => Some(
                    ScannedArgs {
                        kept: rest.kept,
                        requested: if rest.requested is Some {
                            rest.requested
                        } else {
                            Some(args[1])
                        },
                    },
                ),
                None => None,
            }
        }
    } else if "--session="@.is_prefix_of(args[0]) {
        match scanned(args.skip(1)) {
            Some(rest) => Some(
                ScannedArgs {
                    kept: rest.kept,
                    requested: if rest.requested is Some {
                        rest.requested
                    } else {
                        Some(args[0].skip("--session="@.len() as int))
                    },
                },
            ),
            None => None,
        }
    } else {
        match scanned(args.skip(1)) {
            Some(rest) => Some(
                ScannedArgs {
                    kept: seq![args[0]] + rest.kept,
                    requested: rest.requested,
                },
            ),
            None => None,
        }
    }
}

/// What becomes of the session variable of the environment.
#[derive(Debug)]
pub enum EnvAction {
    Keep,
    Remove,
    Assign(String),
}

/// What becomes of the session variable, for contracts.
pub enum EnvActionView {
    Keep,
    Remove,
    Assign(Seq<char>),
}

impl EnvAction {
    pub open spec fn view(&self) -> EnvActionView {
        match *self {
            EnvAction::Keep => EnvActionView::Keep,
            EnvAction::Remove => EnvActionView::Remove,
            EnvAction::Assign(name) => EnvActionView::Assign(name@),
        }
    }
}

/// The session that a command line chooses.
#[derive(Debug)]
pub struct Configured {
    /// The arguments without the session option.
    pub args: Vec<String>,
    /// Whether the command line itself asked for a session.
    pub explicit: bool,
    pub env: EnvAction,
}

/// What a command line chooses, for contracts.
pub struct ConfiguredView {
    pub args: Seq<Seq<char>>,
    pub explicit: bool,
    pub env: EnvActionView,
}

pub open spec fn configured_view(configured: Result<Configured, String>) -> Result<
    ConfiguredView,
    Seq<char>,
> {
    match configured {
        Ok(configured) => Ok(
            ConfiguredView {
                args: text::texts_of(configured.args@),
                explicit: configured.explicit,
                env: configured.env@,
            },
        ),
        Err(complaint) => Err(complaint@),
    }
}

/// The session that a command line chooses. A session option wins over the
/// environment; a socket override leaves the environment's session unread.
pub open spec fn configuration(
    args: Seq<Seq<char>>,
    socket_override: bool,
    env_session: Option<Seq<char>>,
) -> Result<ConfiguredView, Seq<char>> {
    let program = args.take(if args.len() > 0 {
        1
    } else {
        0
    });
    match scanned(args.skip(program.len() as int)) {
        None => Err("missing value for --session"@),
        Some(found) => {
            let args = program + found.kept;
            match found.requested {
                Some(name) => match target_view(name) {
                    Err(complaint) => Err(complaint),
                    Ok(None) => Ok(
                        ConfiguredView { args, explicit: true, env: EnvActionView::Remove },
                    ),
                    Ok(Some(name)) => Ok(
                        ConfiguredView { args, explicit: true, env: EnvActionView::Assign(name) },
                    ),
                },
                None => {
                    let kept = ConfiguredView { args, explicit: false, env: EnvActionView::Keep };
                    match env_session {
                        Some(name) => if socket_override {
                            Ok(kept)
                        } else {
                            match target_view(name) {
                                Err(complaint) => Err(complaint),
                                Ok(None) => Ok(
                                    ConfiguredView { env: EnvActionView::Remove, ..kept },
                                ),
                                Ok(Some(_)) => Ok(kept),
                            }
                        },
                        None => Ok(kept),
                    }
                },
            }
        },
    }
}

/// Take the session option out of the arguments.
fn scan_args(args: &Vec<String>, from: usize) -> (found: Option<(Vec<String>, Option<String>)>)
    requires
        from <= args@.len(),
    ensures
        match (found, scanned(text::texts_of(args@).skip(from as int))) {
            (Some((kept, requested)), Some(view)) => text::texts_of(kept@) == view.kept
                && text::text_of(requested) == view.requested,
            (None, None) => true,
            _ => false,
        },
{
    let ghost all = text::texts_of(args@);
    let ghost whole = scanned(all.skip(from as int));
    let mut kept: Vec<String> = Vec::new();
    let mut requested: Option<String> = None;
    let mut index: usize = from;
    assert(text::texts_of(kept@) =~= Seq::<Seq<char>>::empty());
    proof {
        if let Some(rest) = whole {
            assert(text::texts_of(kept@) + rest.kept =~= rest.kept);
        }
    }
    while index < args.len()
        invariant
            index <= args.len(),
            all == text::texts_of(args@),
            match (whole, scanned(all.skip(index as int))) {
                (Some(whole), Some(rest)) => whole.kept == text::texts_of(kept@) + rest.kept
                    && whole.requested == if rest.requested is Some {
                    rest.requested
                } else {
                    text::text_of(requested)
                },
                (None, None) => true,
                _ => false,
            },
            whole == scanned(text::texts_of(args@).skip(from as int)),
        decreases args.len() - index,
    {
        proof {
            assert(all.skip(index as int)[0] == args@[index as int]@);
            assert(all.skip(index as int).skip(1) =~= all.skip(index + 1));
            if index + 1 < args.len() {
                assert(all.skip(index as int)[1] == args@[index + 1]@);
                assert(all.skip(index as int).skip(2) =~= all.skip(index + 2));
            }
        }
        if text::same_text(args[index].as_str(), "--session") {
            if index + 1 >= args.len() {
                return None;
            }
            requested = Some(args[index + 1].clone());
            index = index + 2;
        } else {
            match text::strip_prefix(args[index].as_str(), "--session=") {
                Some(value) => {
                    requested = Some(value.to_owned());
                },
                None => {
                    let ghost before = text::texts_of(kept@);
                    kept.push(args[index].clone());
                    proof {
                        let arg = args@[index as int]@;
                        assert(text::texts_of(kept@) =~= before.push(arg));
                        if let Some(rest) = scanned(all.skip(index + 1)) {
                            assert(before + (seq![arg] + rest.kept) =~= text::texts_of(kept@)
                                + rest.kept);
                        }
                    }
                },
            }
            index = index + 1;
        }
    }
    proof {
        assert(all.skip(index as int) =~= Seq::empty());
        assert(text::texts_of(kept@) + Seq::<Seq<char>>::empty() =~= text::texts_of(kept@));
    }
    Some((kept, requested))
}

/// Choose the session of a command line: `socket_override` tells whether the
/// environment names an api socket, `env_session` is the session it names.
pub fn configure_from_args(
    args: &Vec<String>,
    socket_override: bool,
    env_session: Option<&str>,
) -> (configured: Result<Configured, String>)
    ensures
        configured_view(configured) == configuration(
            text::texts_of(args@),
            socket_override,
            match env_session {
                Some(name) => Some(name@),
                None => None,
            },
        ),
{
    let ghost all = text::texts_of(args@);
    let from: usize = if args.len() > 0 {
        1
    } else {
        0
    };
    let (kept, requested) = match scan_args(args, from) {
        Some(found) => found,
        None => {
            return Err("missing value for --session".to_owned());
        },
    };
    let mut cleaned: Vec<String> = Vec::new();
    if args.len() > 0 {
        cleaned.push(args[0].clone());
    }
    let ghost program = all.take(from as int);
    assert(text::texts_of(cleaned@) =~= program);
    let ghost rest = kept@;
    let mut kept = kept;
    cleaned.append(&mut kept);
    assert(text::texts_of(cleaned@) =~= program + text::texts_of(rest));
    match requested {
        Some(name) => match parse_target_name(name.as_str()) {
            Err(complaint) => Err(complaint),
            Ok(None) => Ok(Configured { args: cleaned, explicit: true, env: EnvAction::Remove }),
            Ok(Some(name)) => Ok(
                Configured { args: cleaned, explicit: true, env: EnvAction::Assign(name) },
            ),
        },
        None => {
            if !socket_override {
                if let Some(name) = env_session {
                    match parse_target_name(name) {
                        Err(complaint) => {
                            return Err(complaint);
                        },
                        Ok(None) => {
                            return Ok(
                                Configured {
                                    args: cleaned,
                                    explicit: false,
                                    env: EnvAction::Remove,
                                },
                            );
                        },
                        Ok(Some(_)) => {},
                    }
                }
            }
            Ok(Configured { args: cleaned, explicit: false, env: EnvAction::Keep })
        },
    }
}

// ---------------------------------------------------------------------------
// Directories and sockets
// ---------------------------------------------------------------------------

/// What decides which session a process talks to.
#[derive(Debug)]
pub struct SessionContext {
    /// The directory of the user's configuration.
    pub config_dir: String,
    /// Whether the command line asked for a session.
    pub explicit: bool,
    /// The session that the environment names.
    pub env_session: Option<String>,
    /// The api socket that the environment names.
    pub socket_override: Option<String>,
}

/// The session that a name of the environment stands for; the default session
/// and unusable names stand for none.
pub open spec fn active_view(env_session: Option<Seq<char>>) -> Option<Seq<char>> {
    match env_session {
        Some(name) => if name != DEFAULT_SESSION_NAME@ && name_complaint(name) is None {
            Some(name)
        } else {
            None
        },
        None => None,
    }
}

/// The directory of a session's data.
pub open spec fn data_dir_view(config_dir: Seq<char>, name: Option<Seq<char>>) -> Seq<char> {
    match name {
        Some(name) => path::joined(path::joined(config_dir, "sessions"@), name),
        None => config_dir,
    }
}

pub open spec fn opt_view(name: Option<&str>) -> Option<Seq<char>> {
    match name {
        Some(name) => Some(name@),
        None => None,
    }
}

/// The active session of the environment.
pub fn active_name(context: &SessionContext) -> (name: Option<String>)
    ensures
        text::text_of(name) == active_view(text::text_of(context.env_session)),
{
    match &context.env_session {
        Some(name) => {
            if !text::same_text(name.as_str(), DEFAULT_SESSION_NAME) && validate_name(
                name.as_str(),
            ).is_ok() {
                Some(name.clone())
            } else {
                None
            }
        },
        None => None,
    }
}

/// Whether the command line itself asked for a session.
pub fn explicit_session_requested(context: &SessionContext) -> (explicit: bool)
    ensures
        explicit == context.explicit,
{
    context.explicit
}

/// The directory of a session's data.
pub fn data_dir_for(config_dir: &str, name: Option<&str>) -> (dir: String)
    ensures
        dir@ == data_dir_view(config_dir@, opt_view(name)),
{
    match name {
        Some(name) => {
            let sessions = path::join(config_dir, "sessions");
            path::join(sessions.as_str(), name)
        },
        None => config_dir.to_owned(),
    }
}

fn as_name(name: &Option<String>) -> (borrowed: Option<&str>)
    ensures
        opt_view(borrowed) == text::text_of(*name),
{
    match name {
        Some(name) => Some(name.as_str()),
        None => None,
    }
}

/// The directory of the active session's data.
pub fn data_dir(context: &SessionContext) -> (dir: String)
    ensures
        dir@ == data_dir_view(
            context.config_dir@,
            active_view(text::text_of(context.env_session)),
        ),
{
    let name = active_name(context);
    data_dir_for(context.config_dir.as_str(), as_name(&name))
}

/// The api socket of a session.
pub fn api_socket_path_for(config_dir: &str, name: Option<&str>) -> (socket: String)
    ensures
        socket@ == path::joined(data_dir_view(config_dir@, opt_view(name)), "herdr.sock"@),
{
    let dir = data_dir_for(config_dir, name);
    path::join(dir.as_str(), "herdr.sock")
}

/// The client socket of a session.
pub fn client_socket_path_for(config_dir: &str, name: Option<&str>) -> (socket: String)
    ensures
        socket@ == path::joined(data_dir_view(config_dir@, opt_view(name)), "herdr-client.sock"@),
{
    let dir = data_dir_for(config_dir, name);
    path::join(dir.as_str(), "herdr-client.sock")
}

/// The api socket to talk to: that of a session the command line asked for, or
/// else the one the environment names, or else that of the active session.
pub fn active_api_socket_path(context: &SessionContext) -> (socket: String)
    ensures
        socket@ == (match context.socket_override {
            Some(socket) => if context.explicit {
                path::joined(
                    data_dir_view(
                        context.config_dir@,
                        active_view(text::text_of(context.env_session)),
                    ),
                    "herdr.sock"@,
                )
            } else {
                socket@
            },
            None => path::joined(
                data_dir_view(
                    context.config_dir@,
                    active_view(text::text_of(context.env_session)),
                ),
                "herdr.sock"@,
            ),
        }),
{
    let name = active_name(context);
    if !explicit_session_requested(context) {
        if let Some(socket) = &context.socket_override {
            return socket.clone();
        }
    }
    api_socket_path_for(context.config_dir.as_str(), as_name(&name))
}

/// Sessions of different names never share a directory or a socket, and none
/// shares the default session's directory.
pub proof fn law_sessions_are_separate(
    config_dir: Seq<char>,
    left: Seq<char>,
    right: Seq<char>,
)
    requires
        name_complaint(left) is None,
        name_complaint(right) is None,
        left != right,
    ensures
        data_dir_view(config_dir, Some(left)) != data_dir_view(config_dir, Some(right)),
        path::joined(data_dir_view(config_dir, Some(left)), "herdr.sock"@) != path::joined(
            data_dir_view(config_dir, Some(right)),
            "herdr.sock"@,
        ),
        path::joined(data_dir_view(config_dir, Some(left)), "herdr-client.sock"@) != path::joined(
            data_dir_view(config_dir, Some(right)),
            "herdr-client.sock"@,
        ),
        data_dir_view(config_dir, Some(left)) != config_dir,
{
    reveal_strlit("sessions");
    reveal_strlit("/");
    reveal_strlit("herdr.sock");
    reveal_strlit("herdr-client.sock");
    law_session_names_are_plain_components(left);
    law_session_names_are_plain_components(right);
    let base = path::joined(config_dir, "sessions"@) + "/"@;
    let l = data_dir_view(config_dir, Some(left));
    let r = data_dir_view(config_dir, Some(right));
    assert(path::joined(config_dir, "sessions"@).last() == 's');
    assert(l =~= base + left);
    assert(r =~= base + right);
    if l == r {
        assert(left =~= l.skip(base.len() as int));
        assert(right =~= r.skip(base.len() as int));
    }
    assert(l.last() == left.last());
    assert(r.last() == right.last());
    assert(left[left.len() - 1] != '/');
    assert(right[right.len() - 1] != '/');
    let ls = path::joined(l, "herdr.sock"@);
    let rs = path::joined(r, "herdr.sock"@);
    if ls == rs {
        assert(l =~= ls.take(ls.len() - 11));
        assert(r =~= rs.take(rs.len() - 11));
    }
    let lc = path::joined(l, "herdr-client.sock"@);
    let rc = path::joined(r, "herdr-client.sock"@);
    if lc == rc {
        assert(l =~= lc.take(lc.len() - 18));
        assert(r =~= rc.take(rc.len() - 18));
    }
    assert(l.len() > config_dir.len());
}

// ---------------------------------------------------------------------------
// Listing, stopping and deleting
// ---------------------------------------------------------------------------

/// A session as it is listed.
#[derive(Debug)]
pub struct SessionInfo {
    pub name: String,
    pub default: bool,
    pub running: bool,
    pub socket_path: String,
    pub session_dir: String,
}

/// A session as it is listed, for contracts.
pub struct SessionInfoView {
    pub name: Seq<char>,
    pub default: bool,
    pub running: bool,
    pub socket_path: Seq<char>,
    pub session_dir: Seq<char>,
}

impl SessionInfo {
    pub open spec fn view(&self) -> SessionInfoView {
        SessionInfoView {
            name: self.name@,
            default: self.default,
            running: self.running,
            socket_path: self.socket_path@,
            session_dir: self.session_dir@,
        }
    }
}

/// The name that a session is shown under.
pub open spec fn shown_name(name: Option<Seq<char>>) -> Seq<char> {
    match name {
        Some(name) => name,
        None => DEFAULT_SESSION_NAME@,
    }
}

pub open spec fn info_view(
    config_dir: Seq<char>,
    name: Option<Seq<char>>,
    running: bool,
) -> SessionInfoView {
    SessionInfoView {
        name: shown_name(name),
        default: name is None,
        running,
        socket_path: path::joined(data_dir_view(config_dir, name), "herdr.sock"@),
        session_dir: data_dir_view(config_dir, name),
    }
}

fn display_name(name: Option<&str>) -> (shown: &str)
    ensures
        shown@ == shown_name(opt_view(name)),
{
    match name {
        Some(name) => name,
        None => DEFAULT_SESSION_NAME,
    }
}

/// Describe a session; `running` tells whether its socket answers.
pub fn session_info(config_dir: &str, name: Option<&str>, running: bool) -> (info: SessionInfo)
    ensures
        info@ == info_view(config_dir@, opt_view(name), running),
{
    SessionInfo {
        name: display_name(name).to_owned(),
        default: name.is_none(),
        running,
        socket_path: api_socket_path_for(config_dir, name),
        session_dir: data_dir_for(config_dir, name),
    }
}

/// An entry of the directory of sessions. A name that is no text has none.
#[derive(Debug)]
pub struct SessionDirEntry {
    pub name: Option<String>,
    pub is_dir: bool,
}

impl SessionDirEntry {
    /// Whether the entry is a named session.
    pub open spec fn is_session(self) -> bool {
        self.is_dir && (self.name matches Some(name) && name@ != DEFAULT_SESSION_NAME@
            && name_complaint(name@) is None)
    }
}

/// The names of the entries that are sessions, in the order of the directory.
pub open spec fn session_names(entries: Seq<SessionDirEntry>) -> Seq<String>
    decreases entries.len(),
{
    if entries.len() == 0 {
        Seq::empty()
    } else {
        let earlier = session_names(entries.drop_last());
        if entries.last().is_session() {
            earlier.push(entries.last().name->0)
        } else {
            earlier
        }
    }
}

/// The named sessions among the entries, in order of their names.
fn named_sessions(entries: &Vec<SessionDirEntry>) -> (names: Vec<String>)
    ensures
        text::is_sorted(names@),
        names@.to_multiset() == session_names(entries@).to_multiset(),
{
    let mut names: Vec<String> = Vec::new();
    let mut i: usize = 0;
    while i < entries.len()
        invariant
            i <= entries.len(),
            text::is_sorted(names@),
            names@.to_multiset() == session_names(entries@.take(i as int)).to_multiset(),
        decreases entries.len() - i,
    {
        let ghost earlier = session_names(entries@.take(i as int));
        proof {
            assert(entries@.take(i + 1).drop_last() =~= entries@.take(i as int));
            assert(entries@.take(i + 1).last() == entries@[i as int]);
        }
        if entries[i].is_dir {
            if let Some(name) = &entries[i].name {
                if !text::same_text(name.as_str(), DEFAULT_SESSION_NAME) && validate_name(
                    name.as_str(),
                ).is_ok() {
                    text::insert_sorted(&mut names, name.clone());
                    proof {
                        vstd::seq_lib::to_multiset_build(earlier, *name);
                    }
                }
            }
        }
        i = i + 1;
    }
    assert(entries@.take(entries@.len() as int) =~= entries@);
    names
}

/// How reading the directory of sessions went.
#[derive(Debug)]
pub enum SessionDirRead {
    /// There is no such directory.
    Missing,
    /// It could not be read, with the reason.
    Failed(String),
    Entries(Vec<SessionDirEntry>),
}

/// The names of the listed sessions behind the first one.
pub open spec fn names_listed(targets: Seq<Option<String>>) -> Seq<String> {
    targets.skip(1).map_values(|target: Option<String>| target->0)
}

/// The sessions to list: the default one, which has no name, and behind it the
/// named ones in order. Directories whose name cannot name a session are passed
/// over, and so is one that carries the default session's name.
pub fn list_sessions(read: SessionDirRead) -> (targets: Result<Vec<Option<String>>, String>)
    ensures
        match read {
            SessionDirRead::Failed(reason) => targets == Err::<Vec<Option<String>>, String>(reason),
            SessionDirRead::Missing => targets matches Ok(targets) && targets@ == seq![
                None::<String>,
            ],
            SessionDirRead::Entries(entries) => targets matches Ok(targets) && {
                &&& targets@.len() > 0
                &&& targets@[0] is None
                &&& forall|i: int| 1 <= i < targets@.len() ==> targets@[i] is Some
                &&& text::is_sorted(names_listed(targets@))
                &&& names_listed(targets@).to_multiset() == session_names(entries@).to_multiset()
            },
        },
{
    let mut targets: Vec<Option<String>> = vec![None];
    let entries = match read {
        SessionDirRead::Missing => {
            assert(targets@ =~= seq![None::<String>]);
            return Ok(targets);
        },
        SessionDirRead::Failed(reason) => {
            return Err(reason);
        },
        SessionDirRead::Entries(entries) => entries,
    };
    let names = named_sessions(&entries);
    let ghost all = names@;
    for name in iter: names
        invariant
            iter.seq() == all,
            targets@.len() == 1 + iter.index(),
            targets@[0] is None,
            forall|i: int| 1 <= i < targets@.len() ==> targets@[i] == Some(all[i - 1]),
    {
        targets.push(Some(name));
    }
    assert(names_listed(targets@) =~= all);
    Ok(targets)
}

/// The line that asks a session to stop.
pub const STOP_REQUEST: &'static str =
    "{\"id\":\"cli:session:stop\",\"method\":\"server.stop\",\"params\":{}}";

/// How asking a session to stop went.
#[derive(Debug)]
pub enum StopOutcome {
    /// The socket could not be reached, with the reason.
    Unreachable(String),
    /// The exchange failed, with the reason.
    Broken(String),
    /// The session answered; `gone` tells whether its socket went away in time,
    /// `running` whether it answers again since.
    Answered { line: String, gone: bool, running: bool },
}

/// What the answer to a stop request means: an error of the session, or a text
/// that cannot be read, is passed on.
pub open spec fn stop_refusal(answer: Result<Option<Seq<char>>, Seq<char>>) -> Option<Seq<char>> {
    match answer {
        Ok(None) => None,
        Ok(Some(error)) => Some(error),
        Err(complaint) => Some(complaint),
    }
}

/// What the answer to a stop request means, given its error member.
pub fn refusal_in(answer: Result<Option<String>, String>) -> (refusal: Option<String>)
    ensures
        text::text_of(refusal) == stop_refusal(
            match answer {
                Ok(error) => Ok(text::text_of(error)),
                Err(complaint) => Err(complaint@),
            },
        ),
{
    match answer {
        Ok(error) => error,
        Err(complaint) => Some(complaint),
    }
}

/// What the answer to a stop request complains of, if it does. There is nothing to
/// wait for then.
pub fn stop_complaint(line: &str) -> (complaint: Option<String>)
    ensures
        text::text_of(complaint) == stop_refusal(crate::json::json_member_text(line@, "error"@)),
{
    refusal_in(crate::json::member_text(line, "error"))
}

/// What stopping a session replies, given what its answer says of an error.
pub open spec fn stop_reply_view(
    config_dir: Seq<char>,
    name: Option<Seq<char>>,
    timeout_ms: nat,
    outcome: StopOutcome,
    answer: Result<Option<Seq<char>>, Seq<char>>,
) -> Result<SessionInfoView, Seq<char>> {
    let socket = path::joined(data_dir_view(config_dir, name), "herdr.sock"@);
    match outcome {
        StopOutcome::Unreachable(reason) => Err(
            "session "@ + shown_name(name) + " is not running or cannot be reached at "@ + socket
                + ": "@ + reason@,
        ),
        StopOutcome::Broken(reason) => Err(reason@),
        StopOutcome::Answered { gone, running, .. } => match stop_refusal(answer) {
            Some(refusal) => Err(refusal),
            None => if gone {
                Ok(info_view(config_dir, name, running))
            } else {
                Err(
                    "session "@ + shown_name(name) + " did not stop within "@ + text::decimal(
                        timeout_ms,
                    ) + "ms; socket is still reachable at "@ + socket,
                )
            },
        },
    }
}

pub open spec fn info_result_view(reply: Result<SessionInfo, String>) -> Result<
    SessionInfoView,
    Seq<char>,
> {
    match reply {
        Ok(info) => Ok(info@),
        Err(complaint) => Err(complaint@),
    }
}

/// What stopping a session replies, given the error member of its answer.
pub fn stop_reply(
    config_dir: &str,
    name: Option<&str>,
    timeout_ms: u64,
    outcome: StopOutcome,
    answer: Result<Option<String>, String>,
) -> (reply: Result<SessionInfo, String>)
    ensures
        info_result_view(reply) == stop_reply_view(
            config_dir@,
            opt_view(name),
            timeout_ms as nat,
            outcome,
            match answer {
                Ok(error) => Ok(text::text_of(error)),
                Err(complaint) => Err(complaint@),
            },
        ),
{
    let socket = api_socket_path_for(config_dir, name);
    match outcome {
        StopOutcome::Unreachable(reason) => {
            let mut complaint = "session ".to_owned();
            complaint.append(display_name(name));
            complaint.append(" is not running or cannot be reached at ");
            complaint.append(socket.as_str());
            complaint.append(": ");
            complaint.append(reason.as_str());
            Err(complaint)
        },
        StopOutcome::Broken(reason) => Err(reason),
        StopOutcome::Answered { gone, running, .. } => match answer {
            Err(complaint) => Err(complaint),
            Ok(Some(error)) => Err(error),
            Ok(None) => {
                if gone {
                    Ok(session_info(config_dir, name, running))
                } else {
                    let mut complaint = "session ".to_owned();
                    complaint.append(display_name(name));
                    complaint.append(" did not stop within ");
                    complaint.append(text::decimal_text(timeout_ms).as_str());
                    complaint.append("ms; socket is still reachable at ");
                    complaint.append(socket.as_str());
                    Err(complaint)
                }
            },
        },
    }
}

/// What stopping a session replies, given how the exchange with it went.
pub fn stop_session(
    config_dir: &str,
    name: Option<&str>,
    timeout_ms: u64,
    outcome: StopOutcome,
) -> (reply: Result<SessionInfo, String>)
    ensures
        info_result_view(reply) == stop_reply_view(
            config_dir@,
            opt_view(name),
            timeout_ms as nat,
            outcome,
            match outcome {
                StopOutcome::Answered { line, .. } => crate::json::json_member_text(
                    line@,
                    "error"@,
                ),
                _ => Ok(None),
            },
        ),
{
    let answer = match &outcome {
        StopOutcome::Answered { line, .. } => crate::json::member_text(line.as_str(), "error"),
        _ => Ok(None),
    };
    stop_reply(config_dir, name, timeout_ms, outcome, answer)
}

/// What waiting for a stopped session does next.
#[derive(Debug, Clone, Copy, PartialEq, Eq, Structural)]
pub enum WaitStep {
    /// The wait is over; tells whether the session is gone.
    Over { gone: bool },
    /// Look again after a while.
    Again,
}

/// Decide how to go on waiting, given whether the session still answers.
pub fn wait_until_stopped(now_ms: u64, deadline_ms: u64, running: bool) -> (step: WaitStep)
    ensures
        step == if !running {
            WaitStep::Over { gone: true }
        } else if now_ms < deadline_ms {
            WaitStep::Again
        } else {
            WaitStep::Over { gone: false }
        },
{
    if !running {
        WaitStep::Over { gone: true }
    } else if now_ms < deadline_ms {
        WaitStep::Again
    } else {
        WaitStep::Over { gone: false }
    }
}

/// Why a session may not be deleted, if it may not.
pub open spec fn delete_complaint(name: Seq<char>, running: bool) -> Option<Seq<char>> {
    if name == DEFAULT_SESSION_NAME@ {
        Some("deleting the default session is not supported"@)
    } else if name_complaint(name) is Some {
        name_complaint(name)
    } else if running {
        Some("session "@ + name + " is running; stop it before deleting"@)
    } else {
        None
    }
}

/// Whether a session may be deleted, given whether it answers.
pub fn check_deletable(name: &str, running: bool) -> (checked: Result<(), String>)
    ensures
        (match checked {
            Ok(()) => None,
            Err(complaint) => Some(complaint@),
        }) == delete_complaint(name@, running),
{
    if text::same_text(name, DEFAULT_SESSION_NAME) {
        return Err("deleting the default session is not supported".to_owned());
    }
    match validate_name(name) {
        Ok(()) => {},
        Err(complaint) => {
            return Err(complaint);
        },
    }
    if running {
        let mut complaint = "session ".to_owned();
        complaint.append(name);
        complaint.append(" is running; stop it before deleting");
        return Err(complaint);
    }
    Ok(())
}

/// How removing a directory went.
#[derive(Debug)]
pub enum DirRemoval {
    Removed,
    /// There was no such directory.
    Absent,
    Failed(String),
}

/// What deleting a session replies, given how removing its directory went. A
/// directory that was not there counts as removed. `running` is whether the
/// session answered before, `running_now` whether it does when it is described.
pub fn delete_session(
    config_dir: &str,
    name: &str,
    running: bool,
    running_now: bool,
    removal: DirRemoval,
) -> (reply: Result<SessionInfo, String>)
    ensures
        info_result_view(reply) == (match delete_complaint(name@, running) {
            Some(complaint) => Err(complaint),
            None => match removal {
                DirRemoval::Removed | DirRemoval::Absent => Ok(
                    info_view(config_dir@, Some(name@), running_now),
                ),
                DirRemoval::Failed(complaint) => Err(complaint@),
            },
        }),
{
    match check_deletable(name, running) {
        Ok(()) => {},
        Err(complaint) => {
            return Err(complaint);
        },
    }
    match removal {
        DirRemoval::Removed | DirRemoval::Absent => Ok(
            session_info(config_dir, Some(name), running_now),
        ),
        DirRemoval::Failed(complaint) => Err(complaint),
    }
}

/// The default session is never deleted, and a running one neither.
pub proof fn law_default_and_running_sessions_stay(name: Seq<char>, running: bool)
    requires
        name == DEFAULT_SESSION_NAME@ || running,
    ensures
        delete_complaint(name, running) is Some,
{
}

/// A plain name names a session: one to 64 bytes of letters, digits, dots,
/// underscores and dashes, other than the two that stand for directories.
/// Anything else is refused with what is wrong with it.
pub proof fn law_plain_names_are_accepted(name: Seq<char>)
    ensures
        ({
            let plain = forall|i: int|
                0 <= i < name.len() ==> {
                    let c = #[trigger] name[i];
                    'a' <= c <= 'z' || 'A' <= c <= 'Z' || '0' <= c <= '9' || c == '.' || c == '_'
                        || c == '-'
                };
            let short = vstd::utf8::encode_utf8(name).len() <= 64;
            let dots = name == "."@ || name == ".."@;
            &&& name_complaint(name) is None <==> name.len() > 0 && short && !dots && plain
            &&& name.len() == 0 ==> name_complaint(name) == Some("session name cannot be empty"@)
            &&& name.len() > 0 && !short ==> name_complaint(name) == Some(
                "session name cannot be longer than 64 bytes"@,
            )
            &&& name.len() > 0 && short && dots ==> name_complaint(name) == Some(
                "session name cannot be . or .."@,
            )
            &&& name.len() > 0 && short && !dots && !plain ==> name_complaint(name) == Some(
                "session name may only contain ASCII letters, numbers, '.', '_' and '-'"@,
            )
        }),
{
    if exists|i: int| 0 <= i < name.len() && !is_name_char(name[i]) {
        let i = choose|i: int| 0 <= i < name.len() && !is_name_char(name[i]);
        let c = name[i];
        assert(!('a' <= c <= 'z' || 'A' <= c <= 'Z' || '0' <= c <= '9' || c == '.' || c == '_' || c
            == '-'));
    } else {
        assert forall|i: int| 0 <= i < name.len() implies {
            let c = #[trigger] name[i];
            'a' <= c <= 'z' || 'A' <= c <= 'Z' || '0' <= c <= '9' || c == '.' || c == '_' || c
                == '-'
        } by {
            assert(is_name_char(name[i]));
        }
    }
}

/// A name that the user gives stands for the session of that name; the default
/// session's name stands for the default session.
pub proof fn law_names_stand_for_their_sessions(name: Seq<char>)
    ensures
        target_view("default"@) == Ok::<Option<Seq<char>>, Seq<char>>(None),
        name != "default"@ && name_complaint(name) is None ==> target_view(name) == Ok::<
            Option<Seq<char>>,
            Seq<char>,
        >(Some(name)),
        name != "default"@ && name_complaint(name) is Some ==> target_view(name) == Err::<
            Option<Seq<char>>,
            Seq<char>,
        >(name_complaint(name)->0),
        active_view(Some("default"@)) is None,
        active_view(None) is None,
        name != "default"@ && name_complaint(name) is None ==> active_view(Some(name)) == Some(
            name,
        ),
        name_complaint(name) is Some ==> active_view(Some(name)) is None,
{
}

/// Whatever comes before it, a session option at the end is taken out of the
/// arguments and counts; any other argument is kept in its place, and an option
/// without a value is missing it.
pub proof fn law_the_last_session_option_counts(args: Seq<Seq<char>>, value: Seq<char>)
    requires
        scanned(args) is Some,
    ensures
        scanned(args + seq!["--session"@, value]) == Some(
            ScannedArgs { kept: scanned(args)->0.kept, requested: Some(value) },
        ),
        scanned(args + seq!["--session="@ + value]) == Some(
            ScannedArgs { kept: scanned(args)->0.kept, requested: Some(value) },
        ),
        scanned(args + seq!["--session"@]) is None,
        value != "--session"@ && !"--session="@.is_prefix_of(value) ==> scanned(args + seq![value])
            == Some(
            ScannedArgs {
                kept: scanned(args)->0.kept.push(value),
                requested: scanned(args)->0.requested,
            },
        ),
    decreases args.len(),
{
    reveal_strlit("--session");
    reveal_strlit("--session=");
    let pair = seq!["--session"@, value];
    let joined = seq!["--session="@ + value];
    let bare = seq!["--session"@];
    let plain = seq![value];
    if args.len() == 0 {
        assert(args + pair =~= pair);
        assert(args + joined =~= joined);
        assert(args + bare =~= bare);
        assert(args + plain =~= plain);
        assert(pair.skip(2) =~= Seq::<Seq<char>>::empty());
        assert(joined.skip(1) =~= Seq::<Seq<char>>::empty());
        assert(plain.skip(1) =~= Seq::<Seq<char>>::empty());
        let option = "--session="@ + value;
        assert("--session="@ =~= option.subrange(0, "--session="@.len() as int));
        assert(option.skip("--session="@.len() as int) =~= value);
        assert(option.len() != "--session"@.len());
        assert(seq![value] + Seq::<Seq<char>>::empty() =~= Seq::<Seq<char>>::empty().push(value));
        let empty = Seq::<Seq<char>>::empty();
        assert(scanned(empty) == Some(ScannedArgs { kept: empty, requested: None }));
    } else {
        let step: int = if args[0] == "--session"@ {
            2
        } else {
            1
        };
        let rest = args.skip(step);
        law_the_last_session_option_counts(rest, value);
        assert((args + pair).skip(step) =~= rest + pair);
        assert((args + joined).skip(step) =~= rest + joined);
        assert((args + bare).skip(step) =~= rest + bare);
        assert((args + plain).skip(step) =~= rest + plain);
        assert((args + pair)[0] == args[0]);
        assert((args + joined)[0] == args[0]);
        assert((args + bare)[0] == args[0]);
        assert((args + plain)[0] == args[0]);
        if step == 2 {
            assert((args + pair)[1] == args[1]);
            assert((args + joined)[1] == args[1]);
            assert((args + bare)[1] == args[1]);
            assert((args + plain)[1] == args[1]);
        } else if !"--session="@.is_prefix_of(args[0]) {
            let kept = scanned(rest)->0.kept;
            assert(seq![args[0]] + kept.push(value) =~= (seq![args[0]] + kept).push(value));
        }
    }
}

/// A command line without a session option asks for none and is kept whole.
pub proof fn law_other_arguments_are_kept(args: Seq<Seq<char>>)
    requires
        forall|i: int|
            0 <= i < args.len() ==> (#[trigger] args[i]) != "--session"@
                && !"--session="@.is_prefix_of(args[i]),
    ensures
        scanned(args) == Some(ScannedArgs { kept: args, requested: None }),
    decreases args.len(),
{
    if args.len() > 0 {
        let rest = args.skip(1);
        assert(args[0] != "--session"@ && !"--session="@.is_prefix_of(args[0]));
        assert forall|i: int| 0 <= i < rest.len() implies (#[trigger] rest[i]) != "--session"@
            && !"--session="@.is_prefix_of(rest[i]) by {
            assert(rest[i] == args[i + 1]);
        }
        law_other_arguments_are_kept(rest);
        assert(seq![args[0]] + rest =~= args);
    } else {
        assert(args =~= Seq::empty());
    }
}

/// A session that the command line asks for wins over the environment: it is
/// set, or the variable removed for the default session. Without one the
/// environment stays as it is, unless it names the default session or, where no
/// api socket is named, something that cannot name a session.
pub proof fn law_the_command_line_wins(
    program: Seq<char>,
    args: Seq<Seq<char>>,
    socket_override: bool,
    env_session: Option<Seq<char>>,
)
    ensures
        ({
            let all = seq![program] + args;
            let chosen = configuration(all, socket_override, env_session);
            let found = scanned(args);
            let kept = seq![program] + found->0.kept;
            &&& found is None ==> chosen == Err::<ConfiguredView, Seq<char>>(
                "missing value for --session"@,
            )
            &&& found is Some && found->0.requested is Some ==> {
                let name = found->0.requested->0;
                &&& name == "default"@ ==> chosen == Ok::<ConfiguredView, Seq<char>>(
                    ConfiguredView { args: kept, explicit: true, env: EnvActionView::Remove },
                )
                &&& name != "default"@ && name_complaint(name) is None ==> chosen == Ok::<
                    ConfiguredView,
                    Seq<char>,
                >(ConfiguredView { args: kept, explicit: true, env: EnvActionView::Assign(name) })
                &&& name != "default"@ && name_complaint(name) is Some ==> chosen is Err
            }
            &&& found is Some && found->0.requested is None ==> {
                let untouched = ConfiguredView {
                    args: kept,
                    explicit: false,
                    env: EnvActionView::Keep,
                };
                &&& env_session is None || socket_override ==> chosen == Ok::<
                    ConfiguredView,
                    Seq<char>,
                >(untouched)
                &&& env_session is Some && !socket_override && env_session->0 == "default"@
                    ==> chosen == Ok::<ConfiguredView, Seq<char>>(
                    ConfiguredView { env: EnvActionView::Remove, ..untouched },
                )
                &&& env_session is Some && !socket_override && env_session->0 != "default"@
                    && name_complaint(env_session->0) is None ==> chosen == Ok::<
                    ConfiguredView,
                    Seq<char>,
                >(untouched)
                &&& env_session is Some && !socket_override && env_session->0 != "default"@
                    && name_complaint(env_session->0) is Some ==> chosen is Err
            }
        }),
{
    let all = seq![program] + args;
    assert(all.take(1) =~= seq![program]);
    assert(all.skip(1) =~= args);
}

/// A session is described by its own name, directory and api socket; the default
/// session lives in the configuration directory itself.
pub proof fn law_sessions_are_described_by_their_own(
    config_dir: Seq<char>,
    name: Seq<char>,
    running: bool,
)
    requires
        name_complaint(name) is None,
        config_dir.len() > 0,
        config_dir.last() != '/',
    ensures
        data_dir_view(config_dir, Some(name)) == config_dir + "/"@ + "sessions"@ + "/"@ + name,
        data_dir_view(config_dir, None) == config_dir,
        info_view(config_dir, Some(name), running) == (SessionInfoView {
            name,
            default: false,
            running,
            socket_path: config_dir + "/"@ + "sessions"@ + "/"@ + name + "/"@ + "herdr.sock"@,
            session_dir: config_dir + "/"@ + "sessions"@ + "/"@ + name,
        }),
        info_view(config_dir, None, running) == (SessionInfoView {
            name: "default"@,
            default: true,
            running,
            socket_path: config_dir + "/"@ + "herdr.sock"@,
            session_dir: config_dir,
        }),
{
    reveal_strlit("sessions");
    reveal_strlit("/");
    reveal_strlit("herdr.sock");
    law_session_names_are_plain_components(name);
    assert(path::joined(config_dir, "sessions"@).last() == 's');
    let dir = data_dir_view(config_dir, Some(name));
    assert(dir =~= config_dir + "/"@ + "sessions"@ + "/"@ + name);
    assert(dir.last() == name.last());
    assert(name[name.len() - 1] != '/');
}

/// A directory is listed as a session exactly where its name can name one and is
/// not the default session's.
pub proof fn law_sessions_are_listed(entries: Seq<SessionDirEntry>, entry: SessionDirEntry)
    ensures
        ({
            let before = session_names(entries);
            let after = session_names(entries.push(entry));
            let listed = entry.is_dir && entry.name is Some && entry.name->0@ != "default"@
                && name_complaint(entry.name->0@) is None;
            &&& listed ==> after == before.push(entry.name->0)
            &&& !listed ==> after == before
            &&& session_names(Seq::empty()).len() == 0
        }),
{
    assert(entries.push(entry).drop_last() =~= entries);
}

/// Stopping succeeds exactly where the session answered without an error and
/// went away in time, and then describes the session as it is now. An error of
/// the session is passed on, and a failed exchange too.
pub proof fn law_a_session_that_goes_away_is_stopped(
    config_dir: Seq<char>,
    name: Option<Seq<char>>,
    timeout_ms: nat,
    outcome: StopOutcome,
    answer: Result<Option<Seq<char>>, Seq<char>>,
)
    ensures
        ({
            let reply = stop_reply_view(config_dir, name, timeout_ms, outcome, answer);
            let fine = answer == Ok::<Option<Seq<char>>, Seq<char>>(None);
            &&& reply is Ok <==> outcome is Answered && outcome->Answered_gone && fine
            &&& reply is Ok ==> reply == Ok::<SessionInfoView, Seq<char>>(
                info_view(config_dir, name, outcome->Answered_running),
            )
            &&& outcome is Broken ==> reply == Err::<SessionInfoView, Seq<char>>(
                outcome->Broken_0@,
            )
            &&& outcome is Answered && answer is Err ==> reply == Err::<SessionInfoView, Seq<char>>(
                answer->Err_0,
            )
            &&& outcome is Answered && answer is Ok && answer->Ok_0 is Some ==> reply == Err::<
                SessionInfoView,
                Seq<char>,
            >(answer->Ok_0->0)
        }),
{
}

/// What stopping complains of names the session, its socket, and how long was
/// waited or why it cannot be reached.
pub proof fn law_stop_complaints_name_the_session(
    config_dir: Seq<char>,
    name: Seq<char>,
    timeout_ms: nat,
    reason: String,
    line: String,
    running: bool,
)
    ensures
        ({
            let socket = path::joined(data_dir_view(config_dir, Some(name)), "herdr.sock"@);
            let fine = Ok::<Option<Seq<char>>, Seq<char>>(None);
            &&& stop_reply_view(
                config_dir,
                Some(name),
                timeout_ms,
                StopOutcome::Unreachable(reason),
                fine,
            ) == Err::<SessionInfoView, Seq<char>>(
                "session "@ + name + " is not running or cannot be reached at "@ + socket + ": "@
                    + reason@,
            )
            &&& stop_reply_view(
                config_dir,
                Some(name),
                timeout_ms,
                StopOutcome::Answered { line, gone: false, running },
                fine,
            ) == Err::<SessionInfoView, Seq<char>>(
                "session "@ + name + " did not stop within "@ + text::decimal(timeout_ms)
                    + "ms; socket is still reachable at "@ + socket,
            )
        }),
{
}

/// A named session that is not running may be deleted; what stands against it is
/// told.
pub proof fn law_stopped_sessions_may_be_deleted(name: Seq<char>, running: bool)
    ensures
        name != "default"@ && name_complaint(name) is None && !running ==> delete_complaint(
            name,
            running,
        ) is None,
        name == "default"@ ==> delete_complaint(name, running) == Some(
            "deleting the default session is not supported"@,
        ),
        name != "default"@ && name_complaint(name) is Some ==> delete_complaint(name, running)
            == name_complaint(name),
        name != "default"@ && name_complaint(name) is None && running ==> delete_complaint(
            name,
            running,
        ) == Some("session "@ + name + " is running; stop it before deleting"@),
{
}

/// A stopped session is waited for until it is gone or the time is over, and no
/// longer.
pub proof fn law_waiting_for_a_stop_ends(
    now_ms: u64,
    deadline_ms: u64,
    running: bool,
    step: WaitStep,
)
    requires
        call_ensures(wait_until_stopped, (now_ms, deadline_ms, running), step),
    ensures
        !running ==> step == (WaitStep::Over { gone: true }),
        running && now_ms >= deadline_ms ==> step == (WaitStep::Over { gone: false }),
        running && now_ms < deadline_ms ==> step is Again,
{
}

/// The default session is listed first, where the directory was read or is missing;
/// the named ones follow in the order of their bytes, and what cannot be read is
/// told.
pub proof fn law_the_default_session_is_listed_first(
    read: SessionDirRead,
    targets: Result<Vec<Option<String>>, String>,
)
    requires
        call_ensures(list_sessions, (read,), targets),
    ensures
        read is Failed ==> targets is Err && targets->Err_0 == read->Failed_0,
        !(read is Failed) ==> targets is Ok && targets->Ok_0@.len() > 0 && targets->Ok_0@[0] is None,
        read is Missing ==> targets->Ok_0@.len() == 1,
        read is Entries ==> {
            let listed = targets->Ok_0@;
            &&& listed.len() == session_names(read->Entries_0@).len() + 1
            &&& forall|i: int| 1 <= i < listed.len() ==> (#[trigger] listed[i]) is Some
            &&& forall|i: int, j: int|
                1 <= i < j < listed.len() ==> text::bytes_le(
                    vstd::utf8::encode_utf8((#[trigger] listed[i])->0@),
                    vstd::utf8::encode_utf8((#[trigger] listed[j])->0@),
                )
        },
{
    broadcast use vstd::seq_lib::group_to_multiset_ensures;

    if read is Entries {
        let listed = targets->Ok_0@;
        let names = names_listed(listed);
        assert(names.to_multiset().len() == session_names(read->Entries_0@).to_multiset().len());
        assert(names.len() == listed.len() - 1);
        assert forall|i: int, j: int| 1 <= i < j < listed.len() implies text::bytes_le(
            vstd::utf8::encode_utf8((#[trigger] listed[i])->0@),
            vstd::utf8::encode_utf8((#[trigger] listed[j])->0@),
        ) by {
            assert(names[i - 1] == listed[i]->0 && names[j - 1] == listed[j]->0);
            assert(text::text_le(names[i - 1]@, names[j - 1]@));
        }
    }
}

/// A running session, and one that was asked for by no good name, is not deleted;
/// one that is gone from the disk is told as it was.
pub proof fn law_deleted_sessions_are_told(
    config_dir: &str,
    name: &str,
    running: bool,
    running_now: bool,
    removal: DirRemoval,
    reply: Result<SessionInfo, String>,
)
    requires
        call_ensures(delete_session, (config_dir, name, running, running_now, removal), reply),
    ensures
        running ==> reply is Err,
        removal is Failed ==> reply is Err,
        reply is Ok ==> delete_complaint(name@, running) is None && !(removal is Failed),
        delete_complaint(name@, running) is None && !(removal is Failed) ==> reply is Ok
            && reply->Ok_0@.name == name@ && reply->Ok_0@.running == running_now,
        delete_complaint(name@, running) is None && removal is Failed ==> reply->Err_0@
            == removal->Failed_0@,
{
}

} // verus!
