use scribecli::config::{AppPaths, ConfigFile, EffectiveConfig, InputMode};
use scribecli::disk::{Listing, PathFact, PathKind, Snapshot};
use scribecli::models::{
    apply_model_choice, choice_paths, config_after_removal, model_remove_report, removal_paths,
    resolve_managed_model_path, run_model_list, run_model_remove, run_model_use, ModelChoice,
    ModelFile, ModelRemoveArgs, ModelUseArgs,
};
use scribecli::setup::ModelAction;

fn files(paths: &[&str]) -> Snapshot {
    Snapshot {
        facts: paths
            .iter()
            .map(|path| PathFact { path: path.to_string(), kind: PathKind::File })
            .collect(),
        listings: Vec::new(),
        resolved: Vec::new(),
    }
}

fn config(model: Option<&str>) -> EffectiveConfig {
    EffectiveConfig {
        ffmpeg_path: "ffmpeg".to_string(),
        whisper_cli_path: None,
        whisper_model_path: model.map(str::to_string),
        artifacts_dir: "/cfg/sessions".to_string(),
        partial_interval_seconds: 15,
        input_mode: InputMode::MicSystemMix,
        display_id: None,
        microphone_device: None,
        system_device: None,
        single_input_device: None,
        config_file: "/cfg/config.toml".to_string(),
    }
}

fn paths() -> AppPaths {
    AppPaths::from_base("/cfg".to_string())
}

fn home() -> Option<String> {
    Some("/home/me".to_string())
}

fn wanted(target: &str, force_download: bool) -> ModelUseArgs {
    ModelUseArgs { target: target.to_string(), force_download }
}

#[test]
fn resolve_managed_model_path_accepts_alias_and_file_name() {
    let disk = files(&["/t/models/ggml-small.en.bin"]);
    assert_eq!(
        resolve_managed_model_path("/t/models", "small-en", &None, &disk).unwrap(),
        "/t/models/ggml-small.en.bin"
    );
    assert_eq!(
        resolve_managed_model_path("/t/models", "ggml-small.en.bin", &None, &disk).unwrap(),
        "/t/models/ggml-small.en.bin"
    );
}

#[test]
fn only_managed_models_are_resolved() {
    let disk = files(&["/t/models/a.bin", "/elsewhere/a.bin", "/home/me/b.bin"]);
    let resolve = |raw: &str| resolve_managed_model_path("/t/models", raw, &home(), &disk);
    assert_eq!(resolve("/t/models/a.bin").unwrap(), "/t/models/a.bin");
    for raw in ["/elsewhere/a.bin", "~/b.bin"] {
        assert_eq!(
            resolve(raw).unwrap_err().full_text(),
            "only managed models under /t/models can be removed with `scribecli model remove`"
        );
    }
    assert_eq!(
        resolve("large-v3-turbo").unwrap_err().full_text(),
        "managed model `large-v3-turbo` was not found under /t/models"
    );
}

#[test]
fn models_are_listed_with_their_names() {
    let listed = vec![
        ModelFile { path: "/cfg/models/ggml-base.en.bin".to_string(), size_bytes: 7 },
        ModelFile { path: "/cfg/models/mine.bin".to_string(), size_bytes: 9 },
    ];
    let report = run_model_list(&paths(), &config(Some("/cfg/models//mine.bin")), &listed);
    assert_eq!(report.object, "model_list");
    assert_eq!(report.managed_model_dir, "/cfg/models");
    assert_eq!(report.active_model_path, Some("/cfg/models//mine.bin".to_string()));
    assert_eq!(report.models.len(), 2);
    assert_eq!(report.models[0].name, "base-en");
    assert_eq!(report.models[0].file_name, "ggml-base.en.bin");
    assert_eq!(report.models[0].size_bytes, 7);
    assert!(!report.models[0].active);
    assert_eq!(report.models[1].name, "mine.bin");
    assert_eq!(report.models[1].path, "/cfg/models/mine.bin");
    assert!(report.models[1].active);
}

#[test]
fn a_managed_model_can_be_chosen() {
    let args = wanted("medium-en", false);
    let disk = files(&["/old/ggml-medium.en.bin"]);
    let current = config(Some("/old/ggml-medium.en.bin"));
    let choice = run_model_use(&args, &paths(), &current, &None, &disk).unwrap();
    let (after, report) = apply_model_choice(ConfigFile::default(), &choice, &paths());
    assert_eq!(after.whisper_model_path, Some("/cfg/models/ggml-medium.en.bin".to_string()));
    assert_eq!(report.object, "model");
    assert_eq!(report.status, "selected");
    assert_eq!(report.model_path, "/cfg/models/ggml-medium.en.bin");
    assert!(report.managed);
    assert_eq!(report.model_action, Some(ModelAction::CopiedExisting));
    assert_eq!(report.config_file, "/cfg/config.toml");
    let none = run_model_use(&args, &paths(), &config(None), &None, &disk).unwrap();
    let (_, report) = apply_model_choice(ConfigFile::default(), &none, &paths());
    assert_eq!(report.model_action, Some(ModelAction::Downloaded));
}

#[test]
fn a_model_file_can_be_chosen() {
    let disk = files(&["/home/me/ggml-x.bin", "/home/me/notes.txt"]);
    let choose =
        |args: &ModelUseArgs| run_model_use(args, &paths(), &config(None), &home(), &disk);
    let choice = choose(&wanted("~/ggml-x.bin", false)).unwrap();
    assert!(matches!(choice, ModelChoice::File(_)));
    let before = ConfigFile { display_id: Some(3), ..ConfigFile::default() };
    let (after, report) = apply_model_choice(before, &choice, &paths());
    assert_eq!(after.whisper_model_path, Some("/home/me/ggml-x.bin".to_string()));
    assert_eq!(after.display_id, Some(3));
    assert!(!report.managed);
    assert_eq!(report.model_action, None);
    assert_eq!(
        choose(&wanted("~/ggml-x.bin", true)).unwrap_err().full_text(),
        "--force-download only applies to managed model names like `small-en`"
    );
    assert_eq!(
        choose(&wanted("/gone.bin", false)).unwrap_err().full_text(),
        "model path does not exist: /gone.bin; pass a managed model name or a model file path"
    );
    assert_eq!(
        choose(&wanted("~/notes.txt", false)).unwrap_err().full_text(),
        "model path does not look like a Whisper model: /home/me/notes.txt"
    );
}

#[test]
fn models_are_removed_all_or_by_name() {
    let disk = files(&["/m/ggml-base.en.bin"]);
    let listing = Ok(vec!["/m/b".to_string(), "/m/a".to_string()]);
    let remove = |target: Option<&str>, all: bool, present: bool| {
        let args = ModelRemoveArgs { target: target.map(str::to_string), all };
        run_model_remove(&args, "/m", present, &listing, &None, &disk)
    };
    assert_eq!(remove(None, true, true).unwrap(), ["/m/a", "/m/b"]);
    assert_eq!(remove(Some("base-en"), false, true).unwrap(), ["/m/ggml-base.en.bin"]);
    for (target, all) in [(None, false), (Some("base-en"), true)] {
        assert_eq!(
            remove(target, all, true).unwrap_err().full_text(),
            "pass either a managed model name/file name or `--all`"
        );
    }
    assert_eq!(
        remove(None, true, false).unwrap_err().full_text(),
        "no managed models were found under /m"
    );
    assert!(remove(Some("small-en"), false, true).is_err());
}

#[test]
fn a_removed_model_is_replaced_by_the_best_left() {
    let mut disk = files(&[]);
    disk.listings.push(Listing {
        dir: "/m".to_string(),
        files: vec!["/m/ggml-tiny.bin".to_string(), "/m/ggml-small.en.bin".to_string()],
    });
    let removed = vec!["/m/ggml-base.en.bin".to_string()];
    let stored = ConfigFile {
        whisper_model_path: Some("/m/ggml-base.en.bin".to_string()),
        ..ConfigFile::default()
    };
    let effective = config(Some("/m/ggml-base.en.bin"));
    let after = config_after_removal(stored, &effective, &removed, "/m", &disk).unwrap();
    assert_eq!(after.whisper_model_path, Some("/m/ggml-small.en.bin".to_string()));
    assert!(config_after_removal(
        ConfigFile::default(),
        &config(Some("/m/other.bin")),
        &removed,
        "/m",
        &disk
    )
    .is_none());
    assert!(
        config_after_removal(ConfigFile::default(), &config(None), &removed, "/m", &disk).is_none()
    );
    let report = model_remove_report(removed, &config(after.whisper_model_path.as_deref()), &paths());
    assert_eq!(report.object, "model_remove");
    assert_eq!(report.status, "completed");
    assert_eq!(report.removed_paths, ["/m/ggml-base.en.bin"]);
    assert_eq!(report.active_model_path, Some("/m/ggml-small.en.bin".to_string()));
    assert_eq!(report.config_file, "/cfg/config.toml");
}

#[test]
fn a_path_to_a_managed_models_file_is_that_file() {
    let home = Some("/h".to_string());
    let disk = files(&["/h/Downloads/ggml-large-v3-turbo.bin", "ggml-small.en.bin"]);
    let choose = |target: &str, force: bool| {
        let choice =
            run_model_use(&wanted(target, force), &paths(), &config(None), &home, &disk).unwrap();
        apply_model_choice(ConfigFile::default(), &choice, &paths())
    };
    let (after, report) = choose("~/Downloads/ggml-large-v3-turbo.bin", false);
    assert_eq!(report.model_path, "/h/Downloads/ggml-large-v3-turbo.bin");
    assert!(!report.managed);
    assert_eq!(report.model_action, None);
    assert_eq!(
        after.whisper_model_path,
        Some("/h/Downloads/ggml-large-v3-turbo.bin".to_string())
    );

    let (_, report) = choose("~/Downloads/ggml-large-v3-turbo.bin", true);
    assert!(report.managed);
    assert_eq!(report.model_path, "/cfg/models/ggml-large-v3-turbo.bin");
    for bare in ["small-en", "ggml-small.en.bin"] {
        let (_, report) = choose(bare, false);
        assert!(report.managed);
        assert_eq!(report.model_path, "/cfg/models/ggml-small.en.bin");
        assert_eq!(report.model_action, Some(ModelAction::Downloaded));
    }
}

#[test]
fn what_leads_out_of_the_directory_is_not_removed() {
    let disk = files(&["/c/models/../config.toml", "/c/models/sub/../../x.bin", "/c/models/a.bin"]);
    for raw in ["../config.toml", "/c/models/../config.toml", "sub/../../x.bin"] {
        assert_eq!(
            resolve_managed_model_path("/c/models", raw, &None, &disk).unwrap_err().full_text(),
            "only managed models under /c/models can be removed with `scribecli model remove`"
        );
    }
    assert_eq!(
        resolve_managed_model_path("/c/models", "a.bin", &None, &disk).unwrap(),
        "/c/models/a.bin"
    );
}

#[test]
fn the_paths_to_look_at_are_named() {
    assert_eq!(
        choice_paths(&wanted("small-en", false), &paths(), &config(Some("/m.bin")), &home()),
        ["small-en", "/m.bin", "/cfg/models/ggml-small.en.bin"]
    );
    assert_eq!(
        choice_paths(&wanted("~/x.bin", false), &paths(), &config(None), &home()),
        ["/home/me/x.bin"]
    );
    let by_name = ModelRemoveArgs { target: Some("base-en".to_string()), all: false };
    assert_eq!(
        removal_paths(&by_name, "/cfg/models", &home()),
        ["base-en", "/cfg/models/ggml-base.en.bin"]
    );
    let all = ModelRemoveArgs { target: None, all: true };
    assert!(removal_paths(&all, "/cfg/models", &home()).is_empty());
}

#[test]
fn nothing_else_on_disk_decides_the_choice() {
    let targets = ["small-en", "~/x/ggml-small.en.bin", "/gone.bin", "/h/notes.txt"];
    let all = files(&["/home/me/x/ggml-small.en.bin", "/h/notes.txt", "/other.bin", "/m.bin"]);
    let current = config(Some("/m.bin"));
    for target in targets {
        let args = wanted(target, false);
        let looked_at = choice_paths(&args, &paths(), &current, &home());
        let seen = Snapshot {
            facts: looked_at
                .iter()
                .map(|path| PathFact { path: path.clone(), kind: all.kind(path) })
                .collect(),
            listings: Vec::new(),
            resolved: Vec::new(),
        };
        assert_eq!(
            format!("{:?}", run_model_use(&args, &paths(), &current, &home(), &all)),
            format!("{:?}", run_model_use(&args, &paths(), &current, &home(), &seen))
        );
    }
}

#[test]
fn what_leads_back_into_the_directory_is_removed() {
    let disk = files(&["/t/models/../models/x.bin", "/t/models/sub/../x.bin"]);
    for (raw, found) in [
        ("/t/models/../models/x.bin", "/t/models/../models/x.bin"),
        ("../models/x.bin", "/t/models/../models/x.bin"),
        ("sub/../x.bin", "/t/models/sub/../x.bin"),
    ] {
        assert_eq!(resolve_managed_model_path("/t/models", raw, &None, &disk).unwrap(), found);
    }
}
