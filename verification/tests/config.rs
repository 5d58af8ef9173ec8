use scribecli::config::{
    config_keys, AppPaths, ConfigFile, ConfigKey, ConfigStore, EffectiveConfig, InputMode,
};
use scribecli::disk::{Environment, Listing, PathFact, PathKind, Snapshot};
use scribecli::encoding::path_bytes;
use scribecli::json::{Field, Json};

fn no_env() -> Environment {
    Environment {
        home: None,
        whisper_cli_path: None,
        whisper_model_path: None,
        path_dirs: Vec::new(),
        current_exe: None,
    }
}

fn files(paths: &[&str]) -> Snapshot {
    Snapshot {
        facts: paths
            .iter()
            .map(|path| PathFact { path: path.to_string(), kind: PathKind::File })
            .collect(),
        listings: Vec::new(),
        resolved: Vec::new(),
    }
}

fn all_keys() -> [ConfigKey; 10] {
    [
        ConfigKey::FfmpegPath,
        ConfigKey::WhisperCliPath,
        ConfigKey::WhisperModelPath,
        ConfigKey::ArtifactsDir,
        ConfigKey::PartialIntervalSeconds,
        ConfigKey::InputMode,
        ConfigKey::DisplayId,
        ConfigKey::MicrophoneDevice,
        ConfigKey::SystemDevice,
        ConfigKey::SingleInputDevice,
    ]
}

fn shown(value: &Json) -> String {
    match value {
        Json::Null => "null".to_string(),
        Json::Bool(b) => b.to_string(),
        Json::Number(n) => n.to_string(),
        Json::Text(s) => format!("{s:?}"),
    }
}

fn effective(config: ConfigFile) -> EffectiveConfig {
    config.into_effective(&AppPaths::from_base("/cfg".to_string()), &no_env(), &files(&[]))
}

#[test]
fn config_roundtrip_and_effective_defaults() {
    let paths = AppPaths::from_base("/tmp/cfg".to_string());
    let store = ConfigStore { paths: paths.copy() };

    let mut config = ConfigFile::default();
    config.set_value(ConfigKey::WhisperCliPath, "/tmp/whisper-cli").unwrap();
    config.set_value(ConfigKey::PartialIntervalSeconds, "5").unwrap();

    let saved = Some(store.save(&config));

    let loaded = store.load(&saved).unwrap();
    assert_eq!(loaded.partial_interval_seconds, 5);
    assert_eq!(loaded.whisper_cli_path, Some("/tmp/whisper-cli".to_string()));

    let effective = loaded.into_effective(&paths, &no_env(), &files(&[]));
    assert_eq!(effective.ffmpeg_path, "ffmpeg");
    assert_eq!(effective.artifacts_dir, "/tmp/cfg/sessions");
}

#[test]
fn unset_resets_to_defaults() {
    let mut config = ConfigFile::default();
    config.set_value(ConfigKey::SystemDevice, "System Capture").unwrap();
    config.unset_value(ConfigKey::SystemDevice);
    assert_eq!(config.system_device, None);
}

#[test]
fn effective_config_auto_detects_whisper_paths_from_env() {
    let paths = AppPaths::from_base("/tmp/x/cfg".to_string());
    let env = Environment {
        whisper_cli_path: Some("/tmp/x/whisper-cli".to_string()),
        whisper_model_path: Some("/tmp/x/ggml-large-v3-turbo.bin".to_string()),
        ..no_env()
    };
    let disk = files(&["/tmp/x/whisper-cli", "/tmp/x/ggml-large-v3-turbo.bin"]);
    let effective = ConfigFile::default().into_effective(&paths, &env, &disk);
    assert_eq!(effective.whisper_cli_path, Some("/tmp/x/whisper-cli".to_string()));
    assert_eq!(
        effective.whisper_model_path,
        Some("/tmp/x/ggml-large-v3-turbo.bin".to_string())
    );
}

#[test]
fn stored_paths_win_over_detected_ones() {
    let env = Environment {
        home: Some("/home/me".to_string()),
        whisper_cli_path: Some("/tmp/x/whisper-cli".to_string()),
        ..no_env()
    };
    let disk = files(&["/tmp/x/whisper-cli"]);
    let mut config = ConfigFile::default();
    config.set_value(ConfigKey::WhisperCliPath, "~/bin/whisper-cli").unwrap();
    config.set_value(ConfigKey::WhisperModelPath, "~").unwrap();
    config.set_value(ConfigKey::ArtifactsDir, "~user/x").unwrap();
    let paths = AppPaths::from_base("/cfg".to_string());
    let effective = config.into_effective(&paths, &env, &disk);
    assert_eq!(effective.whisper_cli_path, Some("/home/me/bin/whisper-cli".to_string()));
    assert_eq!(effective.whisper_model_path, Some("/home/me".to_string()));
    assert_eq!(effective.artifacts_dir, "~user/x");
    assert_eq!(effective.config_file, "/cfg/config.toml");
}

#[test]
fn a_model_is_found_near_the_tool() {
    let env = Environment {
        whisper_cli_path: Some("/opt/w/bin/whisper-cli".to_string()),
        ..no_env()
    };
    let mut disk = files(&["/opt/w/bin/whisper-cli"]);
    disk.facts.push(PathFact { path: "/opt/w/models".to_string(), kind: PathKind::Directory });
    disk.listings.push(Listing {
        dir: "/opt/w/models".to_string(),
        files: vec![
            "/opt/w/models/readme.txt".to_string(),
            "/opt/w/models/ggml-base.en.bin".to_string(),
        ],
    });
    let paths = AppPaths::from_base("/cfg".to_string());
    let effective = ConfigFile::default().into_effective(&paths, &env, &disk);
    assert_eq!(
        effective.whisper_model_path,
        Some("/opt/w/models/ggml-base.en.bin".to_string())
    );
}

#[test]
fn values_that_are_refused_change_nothing() {
    let mut config = ConfigFile::default();
    let error = config.set_value(ConfigKey::PartialIntervalSeconds, "x").unwrap_err();
    assert_eq!(error.message, "partial interval must be an integer number of seconds");
    assert_eq!(error.cause.as_deref(), Some("invalid digit found in string"));
    assert_eq!(
        error.full_text(),
        "partial interval must be an integer number of seconds: invalid digit found in string"
    );
    let error = config.set_value(ConfigKey::PartialIntervalSeconds, "").unwrap_err();
    assert_eq!(error.cause.as_deref(), Some("cannot parse integer from empty string"));
    let error = config.set_value(ConfigKey::PartialIntervalSeconds, "0").unwrap_err();
    assert_eq!(error.full_text(), "partial interval must be at least 1 second");
    let error = config.set_value(ConfigKey::InputMode, "microphone").unwrap_err();
    assert_eq!(error.full_text(), "input mode must be `mic_system_mix` or `single_device`");
    let error = config.set_value(ConfigKey::DisplayId, "4294967296").unwrap_err();
    assert_eq!(error.message, "display ID must be an integer");
    assert_eq!(error.cause.as_deref(), Some("number too large to fit in target type"));
    assert_eq!(config.partial_interval_seconds, 15);
    assert_eq!(config.display_id, None);
    assert_eq!(config.input_mode, InputMode::MicSystemMix);
}

#[test]
fn every_key_is_set_and_read_alone() {
    for key in all_keys() {
        let raw = match key {
            ConfigKey::PartialIntervalSeconds => "7",
            ConfigKey::InputMode => "single_device",
            ConfigKey::DisplayId => "42",
            _ => "/some/value",
        };
        let mut config = ConfigFile::default();
        config.set_value(key, raw).unwrap();
        let changed = effective(config);
        let untouched = effective(ConfigFile::default());
        for other in all_keys() {
            let now = shown(&changed.get_value(other));
            if other == key {
                assert!(now == raw || now == format!("{raw:?}"), "{now}");
            } else {
                assert_eq!(now, shown(&untouched.get_value(other)));
            }
        }
    }
}

#[test]
fn unsetting_undoes_setting() {
    for key in all_keys() {
        let raw = match key {
            ConfigKey::PartialIntervalSeconds => "7",
            ConfigKey::InputMode => "single_device",
            ConfigKey::DisplayId => "42",
            _ => "/some/value",
        };
        let mut config = ConfigFile::default();
        config.set_value(key, raw).unwrap();
        config.set_value(key, raw).unwrap();
        config.unset_value(key);
        let back = effective(config);
        let untouched = effective(ConfigFile::default());
        for other in all_keys() {
            assert_eq!(
                shown(&back.get_value(other)),
                shown(&untouched.get_value(other))
            );
        }
    }
}

#[test]
fn an_interval_of_nothing_is_one_second_in_effect() {
    let config = ConfigFile { partial_interval_seconds: 0, ..ConfigFile::default() };
    assert_eq!(effective(config).partial_interval_seconds, 1);
}

#[test]
fn key_names_are_those_of_the_file() {
    let names: Vec<&str> = all_keys().iter().map(|key| key.as_str()).collect();
    assert_eq!(
        names,
        [
            "ffmpeg_path",
            "whisper_cli_path",
            "whisper_model_path",
            "artifacts_dir",
            "partial_interval_seconds",
            "input_mode",
            "display_id",
            "microphone_device",
            "system_device",
            "single_input_device",
        ]
    );
}

#[test]
fn an_override_decides_where_state_lies() {
    let store = ConfigStore::discover(Some("/state".to_string())).unwrap();
    assert_eq!(store.paths.config_dir, "/state");
    assert_eq!(store.paths.config_file, "/state/config.toml");
    let effective = store.load_effective(&None, &no_env(), &files(&[])).unwrap();
    assert_eq!(effective.artifacts_dir, "/state/sessions");
}

#[test]
fn the_system_assigns_a_directory() {
    match ConfigStore::discover(None) {
        Ok(store) => {
            let dir = &store.paths.config_dir;
            assert!(
                dir.ends_with("/scribecli")
                    || dir.ends_with("/Library/Application Support/com.scribecli.scribecli")
            );
            assert_eq!(
                store.paths.config_file,
                format!("{}/config.toml", store.paths.config_dir)
            );
        }
        Err(error) => assert_eq!(
            error.full_text(),
            "failed to determine config directory for scribecli"
        ),
    }
    let found = "/Users/u/Library/Application Support/com.scribecli.scribecli";
    let paths = AppPaths::from_found(Some(found.as_bytes().to_vec()), "scribecli").unwrap();
    assert_eq!(
        paths.config_file,
        "/Users/u/Library/Application Support/com.scribecli.scribecli/config.toml"
    );
    let error = AppPaths::from_found(None, "scribecli").unwrap_err();
    assert_eq!(error.full_text(), "failed to determine config directory for scribecli");
}

#[test]
fn every_value_is_shown_under_its_name() {
    let mut config = ConfigFile::default();
    config.set_value(ConfigKey::DisplayId, "9").unwrap();
    config.set_value(ConfigKey::SystemDevice, "Loopback").unwrap();
    let effective = effective(config);
    let fields = effective.fields();
    let names: Vec<&str> = fields.iter().map(|field| field.name.as_str()).collect();
    assert_eq!(
        names,
        [
            "ffmpeg_path",
            "whisper_cli_path",
            "whisper_model_path",
            "artifacts_dir",
            "partial_interval_seconds",
            "input_mode",
            "display_id",
            "microphone_device",
            "system_device",
            "single_input_device",
            "config_file",
        ]
    );
    let keys = config_keys();
    assert_eq!(keys.len() + 1, fields.len());
    for (key, field) in keys.iter().zip(&fields) {
        assert_eq!(field.name, key.as_str());
        assert_eq!(format!("{:?}", field.value), format!("{:?}", effective.get_value(*key)));
    }
    assert!(matches!(fields[6].value, Json::Number(9)));
    assert!(matches!(&fields[8].value, Json::Text(name) if name == "Loopback"));
    assert!(matches!(&fields[10].value, Json::Text(path) if path == "/cfg/config.toml"));
}

#[test]
fn the_tool_in_effect_is_the_stored_one() {
    let mut config = ConfigFile::default();
    let disk = files(&["/opt/homebrew/bin/whisper-cli"]);
    assert_eq!(
        config.effective_cli(&no_env(), &disk),
        Some("/opt/homebrew/bin/whisper-cli".to_string())
    );
    config.set_value(ConfigKey::WhisperCliPath, "/my/cli").unwrap();
    assert_eq!(config.effective_cli(&no_env(), &disk), Some("/my/cli".to_string()));
    assert!(matches!(
        config.stored_value(ConfigKey::WhisperCliPath),
        Json::Text(path) if path == "/my/cli"
    ));
}

#[test]
fn a_directory_need_not_be_unicode() {
    let found = b"/home/\xff\xc3\xa9/.config/scribecli".to_vec();
    let paths = AppPaths::from_found(Some(found), "scribecli").unwrap();
    assert_eq!(path_bytes(&paths.config_dir), b"/home/\xff\xc3\xa9/.config/scribecli");
    assert_eq!(
        path_bytes(&paths.config_file),
        b"/home/\xff\xc3\xa9/.config/scribecli/config.toml"
    );
    assert!(paths.config_dir.ends_with("/.config/scribecli"));
}

fn field(name: &str, value: Json) -> Field {
    Field { name: name.to_string(), value }
}

fn same_config(a: &ConfigFile, b: &ConfigFile) -> bool {
    format!("{a:?}") == format!("{b:?}")
}

#[test]
fn every_field_is_read_back() {
    let store = ConfigStore::discover(Some("/state".to_string())).unwrap();
    for input_mode in [
        InputMode::MicSystemMix,
        InputMode::Microphone,
        InputMode::SystemAudio,
        InputMode::SingleDevice,
    ] {
        let config = ConfigFile {
            ffmpeg_path: "/f".to_string(),
            whisper_cli_path: Some("/w".to_string()),
            whisper_model_path: Some("/m".to_string()),
            artifacts_dir: Some("/a".to_string()),
            partial_interval_seconds: 0,
            input_mode,
            display_id: Some(u32::MAX),
            microphone_device: Some("Mic".to_string()),
            system_device: Some(String::new()),
            single_input_device: Some("One".to_string()),
        };
        assert!(same_config(&store.load(&Some(store.save(&config))).unwrap(), &config));
    }
    let default = ConfigFile::default();
    let saved = store.save(&default);
    let names: Vec<&str> = saved.iter().map(|field| field.name.as_str()).collect();
    assert_eq!(names, ["ffmpeg_path", "partial_interval_seconds", "input_mode"]);
    assert!(same_config(&store.load(&Some(saved)).unwrap(), &default));
}

#[test]
fn missing_keys_have_their_defaults() {
    let store = ConfigStore::discover(Some("/state".to_string())).unwrap();
    let default = ConfigFile::default();
    assert!(same_config(&store.load(&None).unwrap(), &default));
    let other = field("theme", Json::Text("dark".to_string()));
    assert!(same_config(&store.load(&Some(vec![other])).unwrap(), &default));
    let one = field("display_id", Json::Number(4));
    assert_eq!(store.load(&Some(vec![one])).unwrap().display_id, Some(4));
}

#[test]
fn values_of_the_wrong_kind_are_refused() {
    let store = ConfigStore::discover(Some("/state".to_string())).unwrap();
    for (name, value) in [
        ("ffmpeg_path", Json::Number(1)),
        ("partial_interval_seconds", Json::Text("5".to_string())),
        ("input_mode", Json::Text("both".to_string())),
        ("display_id", Json::Number(u64::from(u32::MAX) + 1)),
        ("system_device", Json::Bool(true)),
    ] {
        let error = store.load(&Some(vec![field(name, value)])).unwrap_err();
        assert_eq!(error.message, "failed to parse config file /state/config.toml");
        assert_eq!(error.cause, Some(format!("invalid value for `{name}`")));
    }
}
