use herdr::server::autodetect::{
    auto_detect_launch, executable_failure, is_server_listening, spawn_failure,
    wait_for_server_socket, ConnectOutcome, LaunchEvent, LaunchState, ReadyStep,
};
use herdr::session::{
    active_api_socket_path, active_name, check_deletable, configure_from_args, data_dir,
    delete_session, explicit_session_requested, list_sessions, parse_target_name, session_info,
    stop_complaint, stop_session, validate_name, wait_until_stopped, Configured, EnvAction, SessionContext,
    DirRemoval, SessionDirEntry, SessionDirRead, StopOutcome, WaitStep, DEFAULT_SESSION_NAME, STOP_REQUEST,
};
use herdr::sound::{next_playback, player_outcome, players, Playback, Played, Sound};

fn args(words: &[&str]) -> Vec<String> {
    words.iter().map(|word| word.to_string()).collect()
}

fn assigned(configured: &Configured) -> Option<&str> {
    match &configured.env {
        EnvAction::Assign(name) => Some(name.as_str()),
        _ => None,
    }
}

#[test]
fn configure_from_args_removes_global_session_option() {
    let configured = configure_from_args(
        &args(&["herdr", "--session", "work", "workspace", "list"]),
        false,
        None,
    )
    .unwrap();
    assert_eq!(assigned(&configured), Some("work"));
    assert!(configured.explicit);
    assert_eq!(configured.args, vec!["herdr", "workspace", "list"]);
}

#[test]
fn configure_from_args_accepts_equals_form() {
    let configured =
        configure_from_args(&args(&["herdr", "server", "stop", "--session=api"]), false, None)
            .unwrap();
    assert_eq!(assigned(&configured), Some("api"));
    assert!(configured.explicit);
    assert_eq!(configured.args, vec!["herdr", "server", "stop"]);
}

#[test]
fn configure_from_args_maps_default_session_name_to_default_path() {
    let configured = configure_from_args(
        &args(&["herdr", "--session", DEFAULT_SESSION_NAME, "workspace", "list"]),
        true,
        Some("work"),
    )
    .unwrap();
    assert_eq!(configured.args, vec!["herdr", "workspace", "list"]);
    assert!(matches!(configured.env, EnvAction::Remove));
    assert!(configured.explicit);
    let context = SessionContext {
        config_dir: "/home/user/.config/herdr".to_string(),
        explicit: configured.explicit,
        env_session: None,
        socket_override: Some("/tmp/inherited.sock".to_string()),
    };
    assert_eq!(active_api_socket_path(&context), "/home/user/.config/herdr/herdr.sock");
}

#[test]
fn env_session_does_not_mark_session_explicit() {
    let configured =
        configure_from_args(&args(&["herdr", "workspace", "list"]), false, Some("env-session"))
            .unwrap();
    assert_eq!(configured.args, vec!["herdr", "workspace", "list"]);
    assert!(matches!(configured.env, EnvAction::Keep));
    assert!(!configured.explicit);
}

#[test]
fn env_default_session_name_uses_default_path() {
    let configured = configure_from_args(
        &args(&["herdr", "workspace", "list"]),
        false,
        Some(DEFAULT_SESSION_NAME),
    )
    .unwrap();
    assert_eq!(configured.args, vec!["herdr", "workspace", "list"]);
    assert!(matches!(configured.env, EnvAction::Remove));
    assert!(!configured.explicit);
    let context = SessionContext {
        config_dir: "/home/user/.config/herdr".to_string(),
        explicit: false,
        env_session: None,
        socket_override: None,
    };
    assert_eq!(active_api_socket_path(&context), "/home/user/.config/herdr/herdr.sock");
}

#[test]
fn explicit_session_socket_ignores_inherited_socket_override() {
    let context = SessionContext {
        config_dir: "/home/user/.config/herdr".to_string(),
        explicit: true,
        env_session: Some("work".to_string()),
        socket_override: Some("/tmp/inherited.sock".to_string()),
    };
    assert!(explicit_session_requested(&context));
    assert_eq!(active_name(&context), Some("work".to_string()));
    assert_eq!(data_dir(&context), "/home/user/.config/herdr/sessions/work");
    assert_eq!(
        active_api_socket_path(&context),
        "/home/user/.config/herdr/sessions/work/herdr.sock"
    );
}

#[test]
fn env_socket_override_wins_without_explicit_session() {
    let context = SessionContext {
        config_dir: "/home/user/.config/herdr".to_string(),
        explicit: false,
        env_session: Some("work".to_string()),
        socket_override: Some("/tmp/explicit.sock".to_string()),
    };
    assert_eq!(active_api_socket_path(&context), "/tmp/explicit.sock");
}

#[test]
fn env_socket_override_skips_invalid_env_session_validation_without_explicit_session() {
    let configured =
        configure_from_args(&args(&["herdr", "workspace", "list"]), true, Some("bad/name"))
            .unwrap();
    assert_eq!(configured.args, vec!["herdr", "workspace", "list"]);
    assert!(!configured.explicit);
    assert!(matches!(configured.env, EnvAction::Keep));
    // Without the override the same name is refused.
    assert!(
        configure_from_args(&args(&["herdr", "workspace", "list"]), false, Some("bad/name"))
            .is_err()
    );
}

#[test]
fn a_session_option_needs_a_value() {
    assert!(configure_from_args(&args(&["herdr", "--session"]), false, None).is_err());
    assert!(configure_from_args(&args(&["herdr", "--session="]), false, None).is_err());
}

#[test]
fn stop_session_fails_when_socket_remains_reachable_after_timeout() {
    let outcome = StopOutcome::Answered {
        line: "{\"id\":\"cli:session:stop\",\"result\":{}}\n".to_string(),
        gone: false,
        running: true,
    };
    let err = stop_session("/tmp/hs-stop", Some("slow"), 75, outcome)
        .expect_err("still-running session should fail");
    assert!(err.contains("did not stop"), "{err}");
    assert!(err.contains("/tmp/hs-stop/sessions/slow/herdr.sock"), "{err}");
    assert!(err.contains("75ms"), "{err}");
}

#[test]
fn a_stopped_session_is_described() {
    let outcome = StopOutcome::Answered {
        line: "{\"result\":{}}\n".to_string(),
        gone: true,
        running: false,
    };
    let info = stop_session("/c", None, 75, outcome).expect("the session stopped");
    assert_eq!(info.name, DEFAULT_SESSION_NAME);
    assert!(info.default);
    assert!(!info.running);
    assert_eq!(info.socket_path, "/c/herdr.sock");
}

#[test]
fn a_refused_stop_shows_the_servers_error() {
    let outcome = StopOutcome::Answered {
        line: "{ \"error\": { \"code\": \"busy\" } }".to_string(),
        gone: true,
        running: false,
    };
    let err = stop_session("/c", None, 75, outcome).expect_err("the server refused");
    assert_eq!(err, "{\"code\":\"busy\"}");
}

#[test]
fn an_unreadable_answer_is_an_error() {
    let outcome =
        StopOutcome::Answered { line: "nonsense".to_string(), gone: true, running: false };
    assert!(stop_session("/c", None, 75, outcome).is_err());
    let unreachable = StopOutcome::Unreachable("Connection refused".to_string());
    assert_eq!(
        stop_session("/c", Some("work"), 75, unreachable).unwrap_err(),
        "session work is not running or cannot be reached at /c/sessions/work/herdr.sock: Connection refused"
    );
    let broken = StopOutcome::Broken("Broken pipe".to_string());
    assert_eq!(stop_session("/c", None, 75, broken).unwrap_err(), "Broken pipe");
}

#[test]
fn the_stop_request_is_json() {
    let value: serde_json::Value = serde_json::from_str(STOP_REQUEST).expect("valid json");
    assert_eq!(value["id"], "cli:session:stop");
    assert_eq!(value["method"], "server.stop");
}

#[test]
fn waiting_ends_with_the_session_or_the_deadline() {
    assert!(matches!(wait_until_stopped(0, 75, false), WaitStep::Over { gone: true }));
    assert!(matches!(wait_until_stopped(0, 75, true), WaitStep::Again));
    assert!(matches!(wait_until_stopped(75, 75, true), WaitStep::Over { gone: false }));
}

#[test]
fn invalid_names_are_rejected() {
    assert!(validate_name("../prod").is_err());
    assert!(validate_name("").is_err());
    assert!(validate_name("work session").is_err());
}

#[test]
fn each_bad_name_has_its_own_complaint() {
    assert_eq!(validate_name(""), Err("session name cannot be empty".to_string()));
    assert_eq!(
        validate_name(&"x".repeat(65)),
        Err("session name cannot be longer than 64 bytes".to_string())
    );
    assert_eq!(validate_name(&"x".repeat(64)), Ok(()));
    assert_eq!(validate_name(".."), Err("session name cannot be . or ..".to_string()));
    assert_eq!(
        validate_name("a/b"),
        Err("session name may only contain ASCII letters, numbers, '.', '_' and '-'".to_string())
    );
    assert_eq!(validate_name("a.b_c-9"), Ok(()));
}

#[test]
fn parse_default_target_name_maps_to_default_session() {
    assert_eq!(parse_target_name(DEFAULT_SESSION_NAME).unwrap(), None);
    assert_eq!(parse_target_name("work").unwrap(), Some("work".to_string()));
}

#[test]
fn delete_default_session_is_rejected() {
    assert!(delete_session("/c", DEFAULT_SESSION_NAME, false, false, DirRemoval::Removed).is_err());
}

#[test]
fn a_running_session_is_not_deleted() {
    assert_eq!(
        check_deletable("work", true),
        Err("session work is running; stop it before deleting".to_string())
    );
    let deleted = delete_session("/c", "work", false, false, DirRemoval::Removed).expect("deleted");
    assert_eq!(deleted.session_dir, "/c/sessions/work");
    let absent = delete_session("/c", "work", false, false, DirRemoval::Absent);
    assert_eq!(absent.expect("nothing was left to delete").session_dir, "/c/sessions/work");
    let denied = DirRemoval::Failed("denied".to_string());
    assert_eq!(delete_session("/c", "work", false, false, denied).unwrap_err(), "denied");
}

#[test]
fn list_sessions_skips_reserved_default_directory() {
    let entry = |name: &str, is_dir: bool| SessionDirEntry { name: Some(name.to_string()), is_dir };
    let entries = vec![
        entry(DEFAULT_SESSION_NAME, true),
        entry("work", true),
        entry("api", true),
        entry("file", false),
        entry("bad name", true),
        SessionDirEntry { name: None, is_dir: true },
    ];
    let targets = list_sessions(SessionDirRead::Entries(entries)).unwrap();
    let names: Vec<String> = targets
        .iter()
        .map(|target| session_info("/c", target.as_deref(), false).name)
        .collect();
    assert_eq!(names, vec![DEFAULT_SESSION_NAME, "api", "work"]);
    assert_eq!(list_sessions(SessionDirRead::Missing), Ok(vec![None]));
    assert_eq!(
        list_sessions(SessionDirRead::Failed("denied".to_string())),
        Err("denied".to_string())
    );
    let info = session_info("/c", Some("work"), true);
    assert_eq!(info.name, "work");
    assert!(!info.default);
}

#[test]
fn is_server_listening_returns_false_for_nonexistent_path() {
    assert!(!is_server_listening(false, ConnectOutcome::NotFound));
}

#[test]
fn is_server_listening_returns_true_for_live_socket() {
    assert!(is_server_listening(true, ConnectOutcome::Connected));
}

#[test]
fn is_server_listening_returns_false_for_stale_socket() {
    assert!(!is_server_listening(true, ConnectOutcome::Refused));
}

#[test]
fn wait_for_server_socket_times_out() {
    assert!(matches!(wait_for_server_socket(0, 50, false, 5, "/s"), ReadyStep::Again));
    assert!(matches!(wait_for_server_socket(0, 50, true, 5, "/s"), ReadyStep::Ready));
    assert!(matches!(wait_for_server_socket(51, 50, false, 5, "/s"), ReadyStep::GiveUp(_)));
}

#[test]
fn a_missing_server_is_spawned_and_awaited() {
    let start = LaunchState::Detecting;
    let found = auto_detect_launch(start, LaunchEvent::Detected { listening: true });
    assert_eq!(found, LaunchState::Attaching);
    let missing = auto_detect_launch(start, LaunchEvent::Detected { listening: false });
    assert_eq!(missing, LaunchState::Spawning);
    let spawned = auto_detect_launch(missing, LaunchEvent::Spawned { started: true });
    assert_eq!(spawned, LaunchState::Waiting);
    let ready = auto_detect_launch(spawned, LaunchEvent::Waited { ready: true });
    assert_eq!(ready, LaunchState::Attaching);
    let late = auto_detect_launch(spawned, LaunchEvent::Waited { ready: false });
    assert_eq!(late, LaunchState::Failed);
    assert!(spawn_failure("no fork").contains("no fork"));
    assert!(executable_failure("no path").contains("no path"));
}

#[test]
fn a_custom_sound_falls_back_to_the_built_in_one() {
    let custom = || Some("/tmp/ding.mp3".to_string());
    assert!(matches!(
        next_playback(Sound::Done, custom(), Played::Nothing),
        Playback::File(path) if path == "/tmp/ding.mp3"
    ));
    assert!(matches!(
        next_playback(Sound::Done, custom(), Played::File { sounded: false }),
        Playback::BuiltIn(Sound::Done)
    ));
    assert!(matches!(
        next_playback(Sound::Done, custom(), Played::File { sounded: true }),
        Playback::Silence
    ));
    assert!(matches!(
        next_playback(Sound::Request, None, Played::Nothing),
        Playback::BuiltIn(Sound::Request)
    ));
    assert_eq!(players(true)[0], "afplay");
    assert_eq!(player_outcome(true, "exit status: 0"), Ok(()));
    assert!(player_outcome(false, "exit status: 1").is_err());
}

#[test]
fn a_refused_stop_is_known_from_the_answer_alone() {
    assert_eq!(stop_complaint(r#"{"id":"x","result":{}}"#), None);
    let refused = stop_complaint(r#"{"id":"x","error":{"code":"busy"}}"#);
    assert_eq!(refused, Some(r#"{"code":"busy"}"#.to_string()));
    assert!(stop_complaint("nonsense").is_some());
}
