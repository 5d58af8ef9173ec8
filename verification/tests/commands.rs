use scribecli::commands::{
    config_report, default_log_filter, handle_config, ConfigCommand, ConfigReport,
};
use scribecli::config::{AppPaths, ConfigFile, ConfigKey, EffectiveConfig};
use scribecli::disk::{Environment, Snapshot};
use scribecli::json::Json;

fn effective(config: ConfigFile) -> EffectiveConfig {
    let env = Environment {
        home: None,
        whisper_cli_path: None,
        whisper_model_path: None,
        path_dirs: Vec::new(),
        current_exe: None,
    };
    let disk = Snapshot { facts: Vec::new(), listings: Vec::new(), resolved: Vec::new() };
    config.into_effective(&AppPaths::from_base("/cfg".to_string()), &env, &disk)
}

#[test]
fn assigning_stores_and_showing_does_not() {
    let assign = ConfigCommand::Assign(ConfigKey::DisplayId, "5".to_string());
    let after = handle_config(&assign, ConfigFile::default()).unwrap().unwrap();
    assert_eq!(after.display_id, Some(5));
    let reset = ConfigCommand::Reset(ConfigKey::DisplayId);
    let back = handle_config(&reset, after).unwrap().unwrap();
    assert_eq!(back.display_id, None);
    assert!(handle_config(&ConfigCommand::Show(None), back).unwrap().is_none());
    let bad = ConfigCommand::Assign(ConfigKey::DisplayId, "five".to_string());
    assert_eq!(
        handle_config(&bad, ConfigFile::default()).unwrap_err().message,
        "display ID must be an integer"
    );
}

#[test]
fn one_value_or_all_are_shown() {
    let one = ConfigCommand::Show(Some(ConfigKey::FfmpegPath));
    match config_report(&one, &ConfigFile::default(), effective(ConfigFile::default())) {
        ConfigReport::Value { object, key, value } => {
            assert_eq!(object, "config_value");
            assert_eq!(key, "ffmpeg_path");
            assert!(matches!(value, Json::Text(path) if path == "ffmpeg"));
        }
        other => panic!("{other:?}"),
    }
    for command in [
        ConfigCommand::Show(None),
        ConfigCommand::Assign(ConfigKey::FfmpegPath, "x".to_string()),
        ConfigCommand::Reset(ConfigKey::FfmpegPath),
    ] {
        match config_report(&command, &ConfigFile::default(), effective(ConfigFile::default())) {
            ConfigReport::Whole { object, config } => {
                assert_eq!(object, "config");
                assert_eq!(config.config_file, "/cfg/config.toml");
            }
            other => panic!("{other:?}"),
        }
    }
}

#[test]
fn more_is_logged_when_more_is_asked_for() {
    assert_eq!(default_log_filter(0), "scribecli=warn");
    assert_eq!(default_log_filter(1), "scribecli=info");
    assert_eq!(default_log_filter(2), "scribecli=debug");
    assert_eq!(default_log_filter(255), "scribecli=debug");
}

#[test]
fn a_single_value_is_the_stored_one() {
    let stored = || ConfigFile {
        whisper_model_path: Some("~/m.bin".to_string()),
        partial_interval_seconds: 0,
        ..ConfigFile::default()
    };
    let shown = |key: ConfigKey| {
        match config_report(&ConfigCommand::Show(Some(key)), &stored(), effective(stored())) {
            ConfigReport::Value { object: _, key: _, value } => value,
            other => panic!("{other:?}"),
        }
    };
    assert!(matches!(shown(ConfigKey::ArtifactsDir), Json::Null));
    assert!(matches!(shown(ConfigKey::PartialIntervalSeconds), Json::Number(0)));
    assert!(matches!(shown(ConfigKey::WhisperModelPath), Json::Text(path) if path == "~/m.bin"));
    assert!(matches!(shown(ConfigKey::DisplayId), Json::Null));
    match config_report(&ConfigCommand::Show(None), &stored(), effective(stored())) {
        ConfigReport::Whole { object: _, config } => {
            assert_eq!(config.artifacts_dir, "/cfg/sessions");
            assert_eq!(config.partial_interval_seconds, 1);
        }
        other => panic!("{other:?}"),
    }
}
