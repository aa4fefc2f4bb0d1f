use herdr::server::clipboard_image::{
    ensure_staging_dir_at, is_stale, sanitize_extension, stage, staged_file_name,
    staging_dir_name, staging_root_defect, CreateOutcome, EnsureStep, StageStep, StagingRoot,
    StatOutcome, MAX_STAGE_ATTEMPTS, STAGED_CLIPBOARD_IMAGE_MAX_AGE_NANOS,
};
use herdr::terminal::runtime_registry::TerminalRuntimeRegistry;
use herdr::terminal::source::{LocalChild, TerminalLifecyclePolicy};

const DIR_MODE: u32 = 0o040700;
const EUID: u32 = 1000;

fn private_root() -> StagingRoot {
    StagingRoot { is_symlink: false, is_dir: true, uid: EUID, mode: DIR_MODE }
}

fn refusal(step: EnsureStep) -> String {
    match step {
        EnsureStep::Refuse(reason) => reason,
        other => panic!("expected a refusal, got {other:?}"),
    }
}

#[test]
fn sanitize_extension_accepts_known_image_extensions() {
    assert_eq!(sanitize_extension("PNG"), "png");
    assert_eq!(sanitize_extension("jpeg"), "jpg");
    assert_eq!(sanitize_extension("webp"), "webp");
    assert_eq!(sanitize_extension("sh"), "png");
}

#[test]
fn a_staging_root_owned_by_another_user_is_refused() {
    let euid = 1000;
    assert_eq!(
        staging_root_defect(false, true, euid, DIR_MODE, euid),
        None,
        "a private directory this user owns must be accepted"
    );
    assert_eq!(
        staging_root_defect(false, true, euid + 1, DIR_MODE, euid),
        Some("directory is owned by another user"),
        "a directory owned by another user must be refused"
    );
    assert_eq!(
        staging_root_defect(true, false, euid, DIR_MODE, euid),
        Some("path is not a directory"),
        "a symlink must be refused even when this user owns the link"
    );
    assert_eq!(
        staging_root_defect(false, true, euid, 0o040707, euid),
        Some("directory is accessible to other users"),
        "a directory other users can reach must be refused"
    );
}

#[test]
fn ensure_staging_dir_at_creates_a_private_directory() {
    let missing = || StatOutcome::Missing("No such file".to_string());
    let first = ensure_staging_dir_at("/tmp/root", EUID, missing(), false);
    assert!(matches!(first, EnsureStep::Create), "a fresh root is created");
    let second = ensure_staging_dir_at("/tmp/root", EUID, StatOutcome::Found(private_root()), true);
    assert!(matches!(second, EnsureStep::Restrict), "an owned private root is accepted");
    let gone = ensure_staging_dir_at("/tmp/root", EUID, missing(), true);
    assert_eq!(refusal(gone), "No such file");
}

#[test]
fn ensure_staging_dir_at_refuses_a_symlinked_root_without_touching_the_target() {
    let link = StagingRoot { is_symlink: true, is_dir: false, ..private_root() };
    let err = refusal(ensure_staging_dir_at("/tmp/root", EUID, StatOutcome::Found(link), false));
    assert!(err.contains("not a directory"), "unexpected error: {err}");
    assert_eq!(err, "clipboard image staging path is not a directory: /tmp/root");
}

#[test]
fn ensure_staging_dir_at_refuses_a_root_reachable_by_other_users() {
    let loose = StagingRoot { mode: 0o040777, ..private_root() };
    let err = refusal(ensure_staging_dir_at("/tmp/root", EUID, StatOutcome::Found(loose), false));
    assert!(err.contains("accessible to other users"), "unexpected error: {err}");
}

#[test]
fn ensure_staging_dir_at_refuses_a_root_that_is_a_regular_file() {
    let file = StagingRoot { is_dir: false, mode: 0o100600, ..private_root() };
    let err = refusal(ensure_staging_dir_at("/tmp/root", EUID, StatOutcome::Found(file), false));
    assert!(err.contains("not a directory"), "unexpected error: {err}");
    let unreadable = StatOutcome::Failed("Permission denied".to_string());
    let err = refusal(ensure_staging_dir_at("/tmp/root", EUID, unreadable, false));
    assert_eq!(err, "Permission denied");
}

#[test]
fn a_taken_name_is_retried_until_the_attempts_are_used_up() {
    assert!(matches!(stage(0, CreateOutcome::Created), StageStep::Write));
    assert!(matches!(stage(0, CreateOutcome::AlreadyExists), StageStep::Retry(1)));
    assert!(matches!(
        stage(MAX_STAGE_ATTEMPTS - 1, CreateOutcome::AlreadyExists),
        StageStep::GiveUp(reason)
            if reason == "failed to allocate unique clipboard image staging path"
    ));
    assert!(matches!(
        stage(0, CreateOutcome::Failed("disk full".to_string())),
        StageStep::GiveUp(reason) if reason == "disk full"
    ));
}

#[test]
fn staged_files_are_named_after_client_and_time() {
    let name = staged_file_name(7, 12345, 2, "png");
    assert!(name.contains('7') && name.contains("12345"));
    assert!(name.ends_with(".png"));
    assert_ne!(name, staged_file_name(7, 12345, 3, "png"));
    assert!(staging_dir_name(1000).contains("1000"));
}

#[test]
fn staged_files_grow_stale_after_a_day() {
    assert!(!is_stale(Some(STAGED_CLIPBOARD_IMAGE_MAX_AGE_NANOS)));
    assert!(is_stale(Some(STAGED_CLIPBOARD_IMAGE_MAX_AGE_NANOS + 1)));
    assert!(!is_stale(None));
}

struct RemoteShapedStub;

impl TerminalLifecyclePolicy for RemoteShapedStub {
    fn emits_pane_died_on_reader_exit(&self) -> bool {
        false
    }
}

#[test]
fn local_child_policy_emits_pane_died_on_reader_exit() {
    assert!(LocalChild.emits_pane_died_on_reader_exit());
}

#[test]
fn remote_shaped_policy_does_not_emit_pane_died_on_reader_exit() {
    assert!(!RemoteShapedStub.emits_pane_died_on_reader_exit());
}

#[test]
fn a_registry_keeps_one_runtime_per_terminal() {
    let mut registry: TerminalRuntimeRegistry<u8> = TerminalRuntimeRegistry::new();
    assert_eq!(registry.insert("t1".to_string(), 1), None);
    assert_eq!(registry.insert("t2".to_string(), 2), None);
    assert_eq!(registry.insert("t1".to_string(), 3), Some(1));
    assert_eq!(registry.len(), 2);
    let mut values = registry.values();
    values.sort();
    assert_eq!(values, vec![&2, &3]);
    assert_eq!(registry.get("t1"), Some(&3));
    assert_eq!(registry.remove("t1"), Some(3));
    assert_eq!(registry.remove("t1"), None);
    assert_eq!(registry.get("t1"), None);
}
