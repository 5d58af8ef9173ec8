use scribecli::background::ActiveRecordingState;
use scribecli::cleanup::{
    cleanup_report, config_after_cleanup, path_size_bytes, removal_of, remove_path_if_exists,
    require_scope, run_cleanup, total_bytes, CleanupArgs, Removal, SizeTree,
};
use scribecli::config::{AppPaths, ConfigFile};
use scribecli::disk::PathKind;
use scribecli::path;

fn none() -> CleanupArgs {
    CleanupArgs {
        all: false,
        models: false,
        sessions: false,
        bin: false,
        helper: false,
        config: false,
    }
}

fn paths() -> AppPaths {
    AppPaths::from_base("/cfg".to_string())
}

fn config() -> ConfigFile {
    ConfigFile {
        whisper_cli_path: Some("/w".to_string()),
        whisper_model_path: Some("/m".to_string()),
        display_id: Some(9),
        ..ConfigFile::default()
    }
}

fn recording() -> Option<ActiveRecordingState> {
    Some(ActiveRecordingState {
        object: "active_recording".to_string(),
        status: "recording".to_string(),
        session_id: "s".to_string(),
        started_at: String::new(),
        pid: 1,
        session_dir: String::new(),
        audio_path: String::new(),
        transcript_path: String::new(),
        event_log_path: String::new(),
        runner_stdout_path: String::new(),
        runner_stderr_path: String::new(),
        stop_request_path: String::new(),
    })
}

#[test]
fn remove_path_if_exists_reports_removed_size() {
    let mut removed = Vec::new();
    let size = path_size_bytes(&SizeTree::File("12345".len() as u64)).unwrap();
    let bytes = remove_path_if_exists("/t/model.bin", PathKind::File, size, &mut removed);
    assert_eq!(bytes, 5);
    assert_eq!(removed, vec!["/t/model.bin"]);
    assert_eq!(remove_path_if_exists("/gone", PathKind::Missing, 7, &mut removed), 0);
    assert_eq!(removed, vec!["/t/model.bin"]);
}

#[test]
fn sizes_add_up() {
    let tree = SizeTree::Directory(vec![
        SizeTree::File(3),
        SizeTree::Directory(vec![SizeTree::File(4), SizeTree::Directory(Vec::new())]),
        SizeTree::File(5),
    ]);
    assert_eq!(path_size_bytes(&tree), Some(12));
    let huge = SizeTree::Directory(vec![SizeTree::File(u64::MAX), SizeTree::File(1)]);
    assert_eq!(path_size_bytes(&huge), None);
    assert_eq!(total_bytes(&vec![1, 2, 3]), Some(6));
    assert_eq!(total_bytes(&Vec::new()), Some(0));
    assert_eq!(total_bytes(&vec![u64::MAX, 0, 1]), None);
}

#[test]
fn every_scope_has_its_place() {
    let all_scopes = CleanupArgs {
        all: false,
        models: true,
        sessions: true,
        bin: true,
        helper: true,
        config: true,
    };
    let targets = run_cleanup(all_scopes, &paths(), &None, false).unwrap();
    assert_eq!(
        targets,
        [
            "/cfg/models",
            "/cfg/sessions",
            "/cfg/bin",
            "/cfg/native-helper",
            "/cfg/config.toml",
            "/cfg/active-recording.json",
        ]
    );
    assert!(targets.iter().all(|target| path::starts_with(target, "/cfg")));
    let everything = CleanupArgs { all: true, ..all_scopes };
    assert_eq!(run_cleanup(everything, &paths(), &None, false).unwrap(), ["/cfg"]);
    let sessions = CleanupArgs { sessions: true, ..none() };
    assert_eq!(
        run_cleanup(sessions, &paths(), &recording(), false).unwrap(),
        ["/cfg/sessions"]
    );
}

#[test]
fn cleanup_can_be_refused() {
    assert!(require_scope(CleanupArgs { helper: true, ..none() }).is_ok());
    assert!(require_scope(none()).is_err());
    assert_eq!(
        run_cleanup(none(), &paths(), &recording(), true).unwrap_err().full_text(),
        "pass at least one cleanup scope like `--models`, `--sessions`, or `--all`"
    );
    let everything = CleanupArgs { all: true, ..none() };
    assert_eq!(
        run_cleanup(everything, &paths(), &recording(), true).unwrap_err().full_text(),
        "an active recording is running: s; stop it before cleanup"
    );
}

#[test]
fn removed_paths_are_forgotten() {
    let models = CleanupArgs { models: true, ..none() };
    let after = config_after_cleanup(models, config()).unwrap();
    assert_eq!(after.whisper_model_path, None);
    assert_eq!(after.whisper_cli_path, Some("/w".to_string()));
    assert_eq!(after.display_id, Some(9));
    let bin = CleanupArgs { bin: true, ..none() };
    let after = config_after_cleanup(bin, config()).unwrap();
    assert_eq!(after.whisper_model_path, Some("/m".to_string()));
    assert_eq!(after.whisper_cli_path, None);
    for args in [
        CleanupArgs { sessions: true, helper: true, ..none() },
        CleanupArgs { models: true, config: true, ..none() },
        CleanupArgs { bin: true, all: true, ..none() },
    ] {
        assert!(config_after_cleanup(args, config()).is_none());
    }
}

#[test]
fn directories_go_with_all_they_hold() {
    assert_eq!(removal_of(PathKind::Missing), Removal::Skip);
    assert_eq!(removal_of(PathKind::Directory), Removal::Directory);
    assert_eq!(removal_of(PathKind::File), Removal::File);
    assert_eq!(removal_of(PathKind::Other), Removal::File);
}

#[test]
fn a_cleanup_is_reported() {
    let report = cleanup_report(&paths(), vec!["/cfg/models".to_string()], 12);
    assert_eq!(report.object, "cleanup");
    assert_eq!(report.status, "completed");
    assert_eq!(report.config_dir, "/cfg");
    assert_eq!(report.removed_paths, ["/cfg/models"]);
    assert_eq!(report.bytes_removed, 12);
}
