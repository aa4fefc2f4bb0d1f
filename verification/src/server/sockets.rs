//! Where clients reach the server.

use vstd::prelude::*;

use crate::path;
use crate::session;
use crate::session::SessionContext;
use crate::text;

verus! {

/// The environment variable that names a client socket when no api socket is
/// named.
pub const CLIENT_SOCKET_PATH_ENV_VAR: &'static str = "HERDR_CLIENT_SOCKET_PATH";

/// Permission bits of the server's sockets: the owner alone.
pub const SOCKET_PERMISSION_MODE: u32 = 0o600;

/// The client socket that belongs to an api socket: in the same directory, under
/// the same name with `-client`.
pub open spec fn client_socket_view(
    parent: Option<Seq<char>>,
    stem: Option<Seq<char>>,
) -> Seq<char> {
    path::joined(
        match parent {
            Some(parent) => parent,
            None => ""@,
        },
        (match stem {
            Some(stem) => stem,
            None => "herdr"@,
        }) + "-client.sock"@,
    )
}

/// The client socket that belongs to an api socket, given the parts of the api
/// socket's path.
pub fn client_socket_beside(parent: Option<String>, stem: Option<String>) -> (socket: String)
    ensures
        socket@ == client_socket_view(text::text_of(parent), text::text_of(stem)),
{
    let mut name = match stem {
        Some(stem) => stem,
        None => "herdr".to_owned(),
    };
    name.append("-client.sock");
    match parent {
        Some(parent) => path::join(parent.as_str(), name.as_str()),
        None => path::join("", name.as_str()),
    }
}

/// The client socket that belongs to an api socket.
pub fn derive_client_socket_from_api_socket(api_socket_path: &str) -> (socket: String)
    ensures
        socket@ == client_socket_view(
            path::path_parent(api_socket_path@),
            path::path_file_stem(api_socket_path@),
        ),
{
    let stem = path::file_stem(api_socket_path);
    let parent = path::parent(api_socket_path);
    client_socket_beside(parent, stem)
}

/// The client socket without an explicit session: beside the api socket that the
/// environment names, or else the client socket it names, or else that of the
/// active session.
pub fn client_socket_path_from_overrides(
    context: &SessionContext,
    client_socket_override: Option<&str>,
) -> (socket: String)
    ensures
        socket@ == (match (context.socket_override, client_socket_override) {
            (Some(api), _) => client_socket_view(
                path::path_parent(api@),
                path::path_file_stem(api@),
            ),
            (None, Some(client)) => client@,
            (None, None) => path::joined(
                session::data_dir_view(
                    context.config_dir@,
                    session::active_view(text::text_of(context.env_session)),
                ),
                "herdr-client.sock"@,
            ),
        }),
{
    if let Some(api) = &context.socket_override {
        return derive_client_socket_from_api_socket(api.as_str());
    }
    if let Some(client) = client_socket_override {
        return client.to_owned();
    }
    session_client_socket(context)
}

fn session_client_socket(context: &SessionContext) -> (socket: String)
    ensures
        socket@ == path::joined(
            session::data_dir_view(
                context.config_dir@,
                session::active_view(text::text_of(context.env_session)),
            ),
            "herdr-client.sock"@,
        ),
{
    let name = session::active_name(context);
    match &name {
        Some(name) => session::client_socket_path_for(
            context.config_dir.as_str(),
            Some(name.as_str()),
        ),
        None => session::client_socket_path_for(context.config_dir.as_str(), None),
    }
}

/// The client socket to listen on and to connect to. A session that the command
/// line asked for wins over every override.
pub fn client_socket_path(
    context: &SessionContext,
    client_socket_override: Option<&str>,
) -> (socket: String)
    ensures
        context.explicit ==> socket@ == path::joined(
            session::data_dir_view(
                context.config_dir@,
                session::active_view(text::text_of(context.env_session)),
            ),
            "herdr-client.sock"@,
        ),
        !context.explicit ==> socket@ == (match (context.socket_override, client_socket_override) {
            (Some(api), _) => client_socket_view(
                path::path_parent(api@),
                path::path_file_stem(api@),
            ),
            (None, Some(client)) => client@,
            (None, None) => path::joined(
                session::data_dir_view(
                    context.config_dir@,
                    session::active_view(text::text_of(context.env_session)),
                ),
                "herdr-client.sock"@,
            ),
        }),
{
    if session::explicit_session_requested(context) {
        return session_client_socket(context);
    }
    client_socket_path_from_overrides(context, client_socket_override)
}

/// The complaint about a socket that a live server holds.
pub fn socket_busy_message(path: &str) -> (message: String)
    ensures
        message@ == "herdr server is already running (socket busy at "@ + path@ + ")"@,
{
    let mut message = "herdr server is already running (socket busy at ".to_owned();
    message.append(path);
    message.append(")");
    message
}

/// The client socket stands in the directory of the api socket, under its name
/// with `-client` behind it.
pub proof fn law_the_client_socket_stands_beside(parent: Seq<char>, stem: Seq<char>)
    requires
        parent.len() > 0,
        parent.last() != '/',
        stem.len() > 0,
        stem[0] != '/',
    ensures
        client_socket_view(Some(parent), Some(stem)) == parent + "/"@ + stem + "-client.sock"@,
        client_socket_view(None, Some(stem)) == stem + "-client.sock"@,
        client_socket_view(Some(parent), None) == parent + "/"@ + "herdr"@ + "-client.sock"@,
{
    reveal_strlit("-client.sock");
    reveal_strlit("herdr");
    reveal_strlit("");
    reveal_strlit("/");
    assert(client_socket_view(Some(parent), Some(stem)) =~= parent + "/"@ + stem
        + "-client.sock"@);
    assert(client_socket_view(None, Some(stem)) =~= stem + "-client.sock"@);
    assert(client_socket_view(Some(parent), None) =~= parent + "/"@ + "herdr"@ + "-client.sock"@);
}

/// The complaint about a busy socket names it.
pub proof fn law_busy_sockets_are_named(path: &str, message: String)
    requires
        call_ensures(socket_busy_message, (path,), message),
    ensures
        exists|k: int|
            0 <= k && k + path@.len() <= message@.len() && #[trigger] message@.subrange(
                k,
                k + path@.len() as int,
            ) == path@,
{
    let k = "herdr server is already running (socket busy at "@.len() as int;
    assert(message@.subrange(k, k + path@.len() as int) =~= path@);
}

} // verus!
