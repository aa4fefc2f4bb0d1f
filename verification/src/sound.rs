//! Sounds for changes of an agent's state.

use vstd::prelude::*;

verus! {

/// Which notification sound to play.
#[derive(Debug, Clone, Copy, PartialEq, Eq, Structural)]
pub enum Sound {
    /// An agent finished its work.
    Done,
    /// An agent needs input.
    Request,
}

/// What to play next.
#[derive(Debug)]
pub enum Playback {
    /// The user's own sound file.
    File(String),
    /// The built-in sound.
    BuiltIn(Sound),
    /// Nothing more.
    Silence,
}

/// How far the playback of a sound has come.
#[derive(Debug, Clone, Copy, PartialEq, Eq, Structural)]
pub enum Played {
    Nothing,
    /// The user's own file, and whether it sounded.
    File { sounded: bool },
    BuiltIn,
}

/// What to play next: the user's own file where there is one, and the built-in
/// sound where there is none or it did not sound.
pub fn next_playback(sound: Sound, custom_path: Option<String>, played: Played) -> (next: Playback)
    ensures
        next == (match played {
            Played::Nothing => match custom_path {
                Some(path) => Playback::File(path),
                None => Playback::BuiltIn(sound),
            },
            Played::File { sounded } => if sounded {
                Playback::Silence
            } else {
                Playback::BuiltIn(sound)
            },
            Played::BuiltIn => Playback::Silence,
        }),
{
    match played {
        Played::Nothing => match custom_path {
            Some(path) => Playback::File(path),
            None => Playback::BuiltIn(sound),
        },
        Played::File { sounded } => {
            if sounded {
                Playback::Silence
            } else {
                Playback::BuiltIn(sound)
            }
        },
        Played::BuiltIn => Playback::Silence,
    }
}

/// The audio players to try in turn.
pub fn players(macos: bool) -> (names: Vec<&'static str>)
    ensures
        macos ==> names@.len() == 1 && names@[0]@ == "afplay"@,
        !macos ==> names@.len() == 2 && names@[0]@ == "paplay"@ && names@[1]@ == "aplay"@,
{
    if macos {
        vec!["afplay"]
    } else {
        vec!["paplay", "aplay"]
    }
}

/// The outcome of a player that ran: a failure names its exit status.
pub fn player_outcome(success: bool, status: &str) -> (outcome: Result<(), String>)
    ensures
        outcome is Ok <==> success,
        outcome matches Err(complaint) ==> complaint@ == "player exited with "@ + status@,
{
    if success {
        Ok(())
    } else {
        let mut complaint = "player exited with ".to_owned();
        complaint.append(status);
        Err(complaint)
    }
}

/// A sound of the user's own is played first, and the built-in one where there is
/// none or it failed; nothing is played twice.
pub proof fn law_own_sounds_come_first(
    sound: Sound,
    custom_path: Option<String>,
    played: Played,
    next: Playback,
)
    requires
        call_ensures(next_playback, (sound, custom_path, played), next),
    ensures
        played is Nothing && custom_path is Some ==> next == Playback::File(custom_path->0),
        played is Nothing && custom_path is None ==> next == Playback::BuiltIn(sound),
        played is File && played->sounded ==> next is Silence,
        played is File && !played->sounded ==> next == Playback::BuiltIn(sound),
        played is BuiltIn ==> next is Silence,
{
}

/// A player that fails is complained about by how it ended, and one that succeeds
/// is not; each system has its own players.
pub proof fn law_failed_players_are_told(
    success: bool,
    status: &str,
    outcome: Result<(), String>,
    macos: bool,
    names: Vec<&'static str>,
)
    ensures
        call_ensures(player_outcome, (success, status), outcome) ==> {
            &&& success ==> outcome is Ok
            &&& !success ==> outcome is Err && outcome->Err_0@ == "player exited with "@ + status@
        },
        call_ensures(players, (macos,), names) ==> {
            &&& macos ==> names@.len() == 1 && names@[0]@ == "afplay"@
            &&& !macos ==> names@.len() == 2 && names@[0]@ == "paplay"@ && names@[1]@ == "aplay"@
        },
{
}

} // verus!
