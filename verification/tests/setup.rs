use scribecli::config::{AppPaths, ConfigFile, EffectiveConfig, InputMode};
use scribecli::disk::{Environment, PathFact, PathKind, Snapshot};
use scribecli::setup::{
    cli_source_paths, cli_sources_to_try, cli_wrapper_script, download_temp_path,
    ensure_managed_model, existing_cli_path, existing_cli_source, existing_model_path,
    install_cli, install_model, install_paths, list_managed_model_paths, managed_bin_dir, managed_cli_path, managed_model_dir,
    resolve_model_selection, run_setup, sort_by_file_name, CliAction, ManagedModel, ModelAction,
    SetupArgs, Transfer,
};

fn files(paths: &[&str]) -> Snapshot {
    Snapshot {
        facts: paths
            .iter()
            .map(|path| PathFact { path: path.to_string(), kind: PathKind::File })
            .collect(),
        listings: Vec::new(),
        resolved: Vec::new(),
    }
}

fn config(cli: Option<&str>, model: Option<&str>) -> EffectiveConfig {
    EffectiveConfig {
        ffmpeg_path: "ffmpeg".to_string(),
        whisper_cli_path: cli.map(str::to_string),
        whisper_model_path: model.map(str::to_string),
        artifacts_dir: "/cfg/sessions".to_string(),
        partial_interval_seconds: 15,
        input_mode: InputMode::MicSystemMix,
        display_id: None,
        microphone_device: None,
        system_device: None,
        single_input_device: None,
        config_file: "/cfg/config.toml".to_string(),
    }
}

fn models() -> [ManagedModel; 4] {
    [
        ManagedModel::BaseEn,
        ManagedModel::SmallEn,
        ManagedModel::MediumEn,
        ManagedModel::LargeV3Turbo,
    ]
}

/// What a shell reads from a word of quoted and escaped characters.
fn shell_word(word: &str) -> Option<String> {
    let mut out = String::new();
    let mut quoted = false;
    let mut chars = word.chars();
    while let Some(c) = chars.next() {
        if c == '\'' {
            quoted = !quoted;
        } else if quoted {
            out.push(c);
        } else if c == '\\' {
            out.push(chars.next()?);
        } else {
            return None;
        }
    }
    if quoted {
        None
    } else {
        Some(out)
    }
}

#[test]
fn setup_copies_existing_model_into_managed_dir() {
    let existing = "/t/ggml-large-v3-turbo.bin";
    let installed =
        install_model("/t/models", None, false, Some(existing), &files(&[existing])).unwrap();
    assert_eq!(installed.action, ModelAction::CopiedExisting);
    assert_eq!(installed.path, "/t/models/ggml-large-v3-turbo.bin");
    match installed.transfer {
        Transfer::CopyFrom(source) => assert_eq!(source, existing),
        other => panic!("{other:?}"),
    }
}

#[test]
fn requested_model_downloads_when_existing_name_differs() {
    let existing = "/tmp/ggml-large-v3-turbo.bin";
    let selection = resolve_model_selection(Some(ManagedModel::SmallEn), Some(existing)).unwrap();
    assert_eq!(selection.file_name, "ggml-small.en.bin");
    assert!(selection.copy_source.is_none());
    assert_eq!(selection.download_model, Some(ManagedModel::SmallEn));
}

#[test]
fn existing_managed_model_is_reused() {
    let managed = "/t/models/ggml-small.en.bin";
    let installed =
        install_model("/t/models", None, false, Some(managed), &files(&[managed])).unwrap();
    assert_eq!(installed.action, ModelAction::ReusedManaged);
    assert_eq!(installed.path, managed);
}

#[test]
fn setup_copies_existing_cli_into_managed_bin_dir() {
    let plan = install_cli("/t/bin", PathKind::Missing, false, Some("/t/whisper-cli".to_string()));
    assert!(!plan.remove_stale);
    let installed = plan.outcome.unwrap();
    assert_eq!(installed.action, CliAction::WrappedExisting);
    assert_eq!(installed.path, Some("/t/bin/whisper-cli".to_string()));
    assert_eq!(
        installed.script.unwrap(),
        "#!/bin/sh\nexec '/t/whisper-cli' \"$@\"\n"
    );
}

#[test]
fn existing_managed_cli_is_reused() {
    let plan = install_cli("/t/bin", PathKind::File, true, None);
    assert!(!plan.remove_stale);
    let installed = plan.outcome.unwrap();
    assert_eq!(installed.action, CliAction::ReusedManaged);
    assert_eq!(installed.path, Some("/t/bin/whisper-cli".to_string()));
    assert_eq!(installed.script, None);
    assert_eq!(managed_cli_path("/t/bin"), "/t/bin/whisper-cli");
}

#[test]
fn setup_errors_when_cli_is_missing() {
    let error = install_cli("/t/bin", PathKind::Missing, false, None)
        .outcome
        .unwrap_err()
        .message;
    assert!(error.contains("bundled scribecli release"));
    assert!(error.contains("brew install whisper-cpp"));
}

#[test]
fn a_broken_managed_cli_is_removed() {
    let plan = install_cli("/t/bin", PathKind::File, false, None);
    assert!(plan.remove_stale);
    assert!(plan.outcome.is_err());
    let plan = install_cli("/t/bin", PathKind::Directory, true, Some("/x".to_string()));
    assert!(plan.remove_stale);
    assert_eq!(plan.outcome.unwrap().action, CliAction::WrappedExisting);
}

#[test]
fn managed_model_accepts_cli_alias_and_file_name() {
    assert_eq!(ManagedModel::from_cli_input("small-en"), Some(ManagedModel::SmallEn));
    assert_eq!(
        ManagedModel::from_cli_input("ggml-large-v3-turbo.bin"),
        Some(ManagedModel::LargeV3Turbo)
    );
    assert!(ManagedModel::from_cli_input("unknown-model").is_none());
}

#[test]
fn every_model_is_found_by_its_names() {
    for model in models() {
        assert_eq!(ManagedModel::from_cli_input(model.cli_name()), Some(model));
        assert_eq!(ManagedModel::from_cli_input(model.file_name()), Some(model));
        let path = format!("/any/where/{}", model.file_name());
        assert_eq!(ManagedModel::from_file_name(&path), Some(model));
        assert_eq!(
            model.download_url(),
            format!(
                "https://huggingface.co/ggerganov/whisper.cpp/resolve/main/{}?download=true",
                model.file_name()
            )
        );
    }
    assert_eq!(ManagedModel::from_file_name("small-en"), None);
}

#[test]
fn without_any_wish_the_default_is_downloaded() {
    let installed = ensure_managed_model("/m", None, false, None, &files(&[])).unwrap();
    assert_eq!(installed.path, "/m/ggml-small.en.bin");
    assert_eq!(installed.action, ModelAction::Downloaded);
    assert_eq!(installed.model_name, "ggml-small.en.bin");
    match installed.transfer {
        Transfer::DownloadFrom(url) => assert_eq!(url, ManagedModel::SmallEn.download_url()),
        other => panic!("{other:?}"),
    }
    assert_eq!(download_temp_path("/m/ggml-small.en.bin"), "/m/ggml-small.en.download");
}

#[test]
fn force_decides_over_a_managed_copy() {
    let disk = files(&["/m/ggml-base.en.bin"]);
    let base = Some(ManagedModel::BaseEn);
    let kept = ensure_managed_model("/m", base, false, None, &disk).unwrap();
    assert_eq!(kept.action, ModelAction::ReusedManaged);
    let forced = ensure_managed_model("/m", base, true, None, &disk).unwrap();
    assert_eq!(forced.action, ModelAction::Downloaded);
    let again = ensure_managed_model("/m", base, false, None, &files(&[&forced.path])).unwrap();
    assert_eq!(again.action, ModelAction::ReusedManaged);
    assert_eq!(again.path, forced.path);
}

#[test]
fn unknown_models_cannot_be_downloaded() {
    let error =
        ensure_managed_model("/m", None, true, Some("/x/ggml-mine.bin"), &files(&[])).unwrap_err();
    assert_eq!(error.full_text(), "no download URL is available for ggml-mine.bin");
    let error = ensure_managed_model("/m", None, false, Some("/"), &files(&[])).unwrap_err();
    assert_eq!(error.full_text(), "existing model path has no file name");
}

#[test]
fn configured_files_count_only_where_they_are() {
    let disk = files(&["/w", "/m"]);
    assert_eq!(existing_model_path(&config(None, Some("/m")), &disk), Some("/m".to_string()));
    assert_eq!(existing_model_path(&config(None, Some("/gone")), &disk), None);
    assert_eq!(existing_cli_path(&config(Some("/w"), None), &disk), Some("/w".to_string()));
    assert_eq!(existing_cli_path(&config(None, None), &disk), None);
}

#[test]
fn a_working_tool_is_wrapped() {
    let env = Environment {
        home: None,
        whisper_cli_path: Some("/other".to_string()),
        whisper_model_path: None,
        path_dirs: Vec::new(),
        current_exe: None,
    };
    let disk = files(&["/w", "/other"]);
    let configured = config(Some("/w"), None);
    let both = vec!["/other".to_string(), "/w".to_string()];
    assert_eq!(existing_cli_source(&configured, &both, &env, &disk), Some("/w".to_string()));
    let other = vec!["/other".to_string()];
    assert_eq!(existing_cli_source(&configured, &other, &env, &disk), Some("/other".to_string()));
    assert_eq!(existing_cli_source(&configured, &Vec::new(), &env, &disk), None);
}

#[test]
fn wrapper_scripts_run_their_source() {
    for source in ["/plain", "/with space", "/it's", "''", "a'b\\c\"d$e`f\n"] {
        let script = cli_wrapper_script(source);
        let word = script
            .strip_prefix("#!/bin/sh\nexec ")
            .unwrap()
            .strip_suffix(" \"$@\"\n")
            .unwrap();
        assert_eq!(shell_word(word).as_deref(), Some(source));
    }
}

#[test]
fn listings_are_sorted_by_file_name() {
    let paths: Vec<String> =
        ["/b/z", "/a/m", "/c/a", "/", "/b/a"].iter().map(|s| s.to_string()).collect();
    assert_eq!(sort_by_file_name(&paths), ["/", "/c/a", "/b/a", "/a/m", "/b/z"]);
    let listed = list_managed_model_paths("/m", true, &Ok(paths)).unwrap();
    assert_eq!(listed.len(), 5);
    assert!(list_managed_model_paths("/m", false, &Ok(vec!["/m/x".to_string()]))
        .unwrap()
        .is_empty());
    let error = list_managed_model_paths("/m", true, &Err("denied".to_string())).unwrap_err();
    assert_eq!(error.full_text(), "failed to read /m: denied");
}

#[test]
fn setup_configures_what_it_reports() {
    let paths = AppPaths::from_base("/cfg".to_string());
    let args = SetupArgs { model: Some(ManagedModel::MediumEn), force_download: false };
    let cli = install_cli(
        &managed_bin_dir(&paths),
        PathKind::Missing,
        false,
        Some("/w".to_string()),
    )
    .outcome
    .unwrap();
    let model = ensure_managed_model(
        &managed_model_dir(&paths),
        args.model,
        args.force_download,
        None,
        &files(&[]),
    )
    .unwrap();
    let before = ConfigFile { ffmpeg_path: "/f".to_string(), ..ConfigFile::default() };
    let (config, report) = run_setup(&paths, before, &cli, &model);
    assert_eq!(config.ffmpeg_path, "/f");
    assert_eq!(config.whisper_cli_path, Some("/cfg/bin/whisper-cli".to_string()));
    assert_eq!(
        config.whisper_model_path,
        Some("/cfg/models/ggml-medium.en.bin".to_string())
    );
    assert_eq!(report.object, "setup");
    assert!(report.ok);
    assert_eq!(report.managed_bin_dir, "/cfg/bin");
    assert_eq!(report.managed_model_dir, "/cfg/models");
    assert_eq!(report.whisper_cli_path, config.whisper_cli_path);
    assert_eq!(report.whisper_cli_action, CliAction::WrappedExisting);
    assert_eq!(Some(report.whisper_model_path), config.whisper_model_path);
    assert_eq!(report.model_action, ModelAction::Downloaded);
    assert_eq!(report.model_name, "ggml-medium.en.bin");
    assert_eq!(report.config_file, "/cfg/config.toml");
    assert!(report.warnings.is_empty());
}

#[test]
fn the_paths_of_an_install_are_named() {
    assert_eq!(
        install_paths("/m", None, &config(None, Some("/old/mine.bin"))),
        ["/m/ggml-small.en.bin", "/old/mine.bin", "/m/mine.bin"]
    );
    assert_eq!(
        install_paths("/m", Some(ManagedModel::BaseEn), &config(None, None)),
        ["/m/ggml-base.en.bin"]
    );
    assert_eq!(
        install_paths("/m", None, &config(None, Some("/"))),
        ["/m/ggml-small.en.bin", "/"]
    );
}

#[test]
fn the_tools_to_try_are_named() {
    let env = Environment {
        home: None,
        whisper_cli_path: Some("/env/cli".to_string()),
        whisper_model_path: None,
        path_dirs: Vec::new(),
        current_exe: None,
    };
    let configured = config(Some("/my/cli"), None);
    assert_eq!(
        cli_source_paths(&configured, &env, &files(&[])),
        ["/env/cli", "/opt/homebrew/bin/whisper-cli", "/usr/local/bin/whisper-cli", "/my/cli"]
    );
    let disk = files(&["/my/cli", "/env/cli"]);
    assert_eq!(cli_sources_to_try(&configured, &env, &disk), ["/my/cli", "/env/cli"]);
    assert_eq!(cli_sources_to_try(&configured, &env, &files(&["/env/cli"])), ["/env/cli"]);
    let works = vec!["/env/cli".to_string()];
    assert_eq!(
        existing_cli_source(&configured, &works, &env, &disk),
        Some("/env/cli".to_string())
    );
}
