//! Configuration: what is stored, how single values are set, and what is in effect.
use crate::detect;
use crate::disk;
use crate::disk::{Environment, Snapshot};
use crate::encoding;
use crate::error;
use crate::error::{Error, ErrorView};
use crate::json;
use crate::json::{Field, FieldView, Json, JsonView};
use crate::path;
use crate::text;
use vstd::prelude::*;

verus! {

/// The name of the program.
pub const APP_NAME: &'static str = "scribecli";

const APP_QUALIFIER: &'static str = "com";

const APP_ORGANIZATION: &'static str = "scribecli";

// ---------------------------------------------------------------------------------------------
// Where the configuration lies
// ---------------------------------------------------------------------------------------------
/// The directory that holds all managed state, and the configuration file in it.
#[derive(Debug)]
pub struct AppPaths {
    pub config_dir: String,
    pub config_file: String,
}

/// The failure to find a directory for the program's state.
pub open spec fn no_config_dir(app_name: Seq<char>) -> ErrorView {
    error::plain("failed to determine config directory for "@ + app_name)
}

/// Whether these are the names under which the operating system knows this program.
pub open spec fn is_identity(
    qualifier: Seq<char>,
    organization: Seq<char>,
    application: Seq<char>,
) -> bool {
    &&& qualifier == "com"@
    &&& organization == "scribecli"@
    &&& application == "scribecli"@
}

/// Whether `dir` is called as one that is assigned to this program: on macOS by all three of its
/// names, in the user's `Library/Application Support`, on Linux by its own name, and on Windows by the
/// last two, with a directory for the configuration in it.
pub open spec fn is_assigned_dir(dir: Seq<char>) -> bool {
    ||| text::spec_ends_with(dir, "/Library/Application Support/com.scribecli.scribecli"@)
    ||| text::spec_ends_with(dir, "/scribecli"@)
    ||| text::spec_ends_with(dir, "scribecli\\scribecli\\config"@)
}

/// Whether the bytes of a path end as those of a directory that is assigned to this program do.
pub open spec fn are_assigned(dir: Seq<u8>) -> bool {
    ||| encoding::end_in(dir, "/Library/Application Support/com.scribecli.scribecli"@)
    ||| encoding::end_in(dir, "/scribecli"@)
    ||| encoding::end_in(dir, "scribecli\\scribecli\\config"@)
}

/// `directories::ProjectDirs::from` and `ProjectDirs::config_dir`: the configuration directory that
/// the operating system assigns to this program, as the system has it. Its last part is made of the
/// program's names, each system in its own way. What comes before depends on the system and on the
/// user's environment, and so does whether there is a directory at all: nothing is promised of either.
#[verifier::external_body]
fn system_config_dir(qualifier: &str, organization: &str, application: &str) -> (r: Option<Vec<u8>>)
    requires
        is_identity(qualifier@, organization@, application@),
    ensures
        r matches Some(dir) ==> are_assigned(dir@),
{
    let dirs = directories::ProjectDirs::from(qualifier, organization, application)?;
    Some(dirs.config_dir().as_os_str().as_encoded_bytes().to_vec())
}

impl AppPaths {
    /// Whether these are the paths for state under `base`.
    pub open spec fn lie_under(self, base: Seq<char>) -> bool {
        self.config_dir@ == base && self.config_file@ == path::spec_join(base, "config.toml"@)
    }

    /// The paths for state under `base`.
    pub fn from_base(base: String) -> (r: AppPaths)
        ensures
            r.lie_under(base@),
    {
        let config_file = path::join(base.as_str(), "config.toml");
        AppPaths { config_dir: base, config_file }
    }

    /// The paths for state under the directory that was found for the program, if one was. It need
    /// not be Unicode.
    pub fn from_found(found: Option<Vec<u8>>, app_name: &str) -> (r: Result<AppPaths, Error>)
        ensures
            match r {
                Ok(paths) => found is Some && paths.lie_under(encoding::text_of(found->0@)),
                Err(e) => found is None && e@ == no_config_dir(app_name@),
            },
    {
        match found {
            Some(dir) => Ok(AppPaths::from_base(encoding::path_text(dir.as_slice()))),
            None => Err(
                Error::new(text::cat2("failed to determine config directory for ", app_name)),
            ),
        }
    }

    /// The paths under `override_dir` where one is given, and else under the directory that the
    /// operating system assigns to the program.
    pub fn discover(override_dir: Option<String>) -> (r: Result<AppPaths, Error>)
        ensures
            override_dir matches Some(base) ==> r is Ok && r->Ok_0.lie_under(base@),
            match r {
                Ok(paths) => paths.lie_under(paths.config_dir@) && (override_dir is None
                    ==> is_assigned_dir(paths.config_dir@)),
                Err(e) => override_dir is None && e@ == no_config_dir(APP_NAME@),
            },
    {
        match override_dir {
            Some(base) => Ok(AppPaths::from_base(base)),
            None => project_config_dir(APP_QUALIFIER, APP_ORGANIZATION, APP_NAME),
        }
    }

    /// The same paths again.
    pub fn copy(&self) -> (r: AppPaths)
        ensures
            r == *self,
    {
        AppPaths { config_dir: self.config_dir.clone(), config_file: self.config_file.clone() }
    }
}

proof fn lemma_assigned_text(dir: Seq<u8>)
    requires
        are_assigned(dir),
    ensures
        is_assigned_dir(encoding::text_of(dir)),
{
    if encoding::end_in(dir, "/Library/Application Support/com.scribecli.scribecli"@) {
        encoding::law_text_ends_as_bytes_do(
            dir,
            "/Library/Application Support/com.scribecli.scribecli"@,
        );
    } else if encoding::end_in(dir, "/scribecli"@) {
        encoding::law_text_ends_as_bytes_do(dir, "/scribecli"@);
    } else {
        encoding::law_text_ends_as_bytes_do(dir, "scribecli\\scribecli\\config"@);
    }
}

/// The paths under the directory that the operating system assigns to this program.
fn project_config_dir(qualifier: &str, organization: &str, app_name: &str) -> (r: Result<
    AppPaths,
    Error,
>)
    requires
        is_identity(qualifier@, organization@, app_name@),
    ensures
        match r {
            Ok(paths) => paths.lie_under(paths.config_dir@) && is_assigned_dir(paths.config_dir@),
            Err(e) => e@ == no_config_dir(app_name@),
        },
{
    let found = system_config_dir(qualifier, organization, app_name);
    proof {
        if found is Some {
            lemma_assigned_text(found->0@);
        }
    }
    AppPaths::from_found(found, app_name)
}

// ---------------------------------------------------------------------------------------------
// What is stored
// ---------------------------------------------------------------------------------------------
/// What is recorded.
#[derive(Debug, Clone, Copy, PartialEq, Eq, Structural)]
pub enum InputMode {
    /// Microphone and system audio, mixed.
    MicSystemMix,
    /// The microphone.
    Microphone,
    /// System audio.
    SystemAudio,
    /// A single input device.
    SingleDevice,
}

impl Default for InputMode {
    fn default() -> (r: InputMode)
        ensures
            r == InputMode::MicSystemMix,
    {
        InputMode::MicSystemMix
    }
}

impl InputMode {
    /// The mode's name in the configuration file.
    pub open spec fn spec_stored_name(self) -> Seq<char> {
        match self {
            InputMode::MicSystemMix => "mic_system_mix"@,
            InputMode::Microphone => "microphone"@,
            InputMode::SystemAudio => "system_audio"@,
            InputMode::SingleDevice => "single_device"@,
        }
    }

    /// The mode's name in the configuration file.
    pub fn stored_name(self) -> (r: &'static str)
        ensures
            r@ == self.spec_stored_name(),
    {
        match self {
            InputMode::MicSystemMix => "mic_system_mix",
            InputMode::Microphone => "microphone",
            InputMode::SystemAudio => "system_audio",
            InputMode::SingleDevice => "single_device",
        }
    }
}

/// The configuration as it is stored.
#[derive(Debug)]
pub struct ConfigFile {
    pub ffmpeg_path: String,
    pub whisper_cli_path: Option<String>,
    pub whisper_model_path: Option<String>,
    pub artifacts_dir: Option<String>,
    pub partial_interval_seconds: u64,
    pub input_mode: InputMode,
    pub display_id: Option<u32>,
    pub microphone_device: Option<String>,
    pub system_device: Option<String>,
    pub single_input_device: Option<String>,
}

/// What a [`ConfigFile`] holds.
pub struct ConfigFileView {
    pub ffmpeg_path: Seq<char>,
    pub whisper_cli_path: Option<Seq<char>>,
    pub whisper_model_path: Option<Seq<char>>,
    pub artifacts_dir: Option<Seq<char>>,
    pub partial_interval_seconds: u64,
    pub input_mode: InputMode,
    pub display_id: Option<u32>,
    pub microphone_device: Option<Seq<char>>,
    pub system_device: Option<Seq<char>>,
    pub single_input_device: Option<Seq<char>>,
}

impl View for ConfigFile {
    type V = ConfigFileView;

    open spec fn view(&self) -> ConfigFileView {
        ConfigFileView {
            ffmpeg_path: self.ffmpeg_path@,
            whisper_cli_path: self.whisper_cli_path.deep_view(),
            whisper_model_path: self.whisper_model_path.deep_view(),
            artifacts_dir: self.artifacts_dir.deep_view(),
            partial_interval_seconds: self.partial_interval_seconds,
            input_mode: self.input_mode,
            display_id: self.display_id,
            microphone_device: self.microphone_device.deep_view(),
            system_device: self.system_device.deep_view(),
            single_input_device: self.single_input_device.deep_view(),
        }
    }
}

/// The configuration of a program that was never configured.
pub open spec fn default_config() -> ConfigFileView {
    ConfigFileView {
        ffmpeg_path: "ffmpeg"@,
        whisper_cli_path: None,
        whisper_model_path: None,
        artifacts_dir: None,
        partial_interval_seconds: 15,
        input_mode: InputMode::MicSystemMix,
        display_id: None,
        microphone_device: None,
        system_device: None,
        single_input_device: None,
    }
}

/// The ffmpeg to use where none is configured.
pub fn default_ffmpeg_path() -> (r: String)
    ensures
        r@ == default_config().ffmpeg_path,
{
    "ffmpeg".to_owned()
}

/// The seconds between partial transcripts where none are configured.
pub fn default_partial_interval_seconds() -> (r: u64)
    ensures
        r == default_config().partial_interval_seconds,
{
    15
}

impl Default for ConfigFile {
    fn default() -> (r: ConfigFile)
        ensures
            r@ == default_config(),
    {
        ConfigFile {
            ffmpeg_path: default_ffmpeg_path(),
            whisper_cli_path: None,
            whisper_model_path: None,
            artifacts_dir: None,
            partial_interval_seconds: default_partial_interval_seconds(),
            input_mode: InputMode::MicSystemMix,
            display_id: None,
            microphone_device: None,
            system_device: None,
            single_input_device: None,
        }
    }
}

/// The name of a single configuration value.
#[derive(Debug, Clone, Copy, PartialEq, Eq, Structural)]
pub enum ConfigKey {
    FfmpegPath,
    WhisperCliPath,
    WhisperModelPath,
    ArtifactsDir,
    PartialIntervalSeconds,
    InputMode,
    DisplayId,
    MicrophoneDevice,
    SystemDevice,
    SingleInputDevice,
}

impl ConfigKey {
    /// The key as it is written in the configuration file.
    pub open spec fn spec_name(self) -> Seq<char> {
        match self {
            ConfigKey::FfmpegPath => "ffmpeg_path"@,
            ConfigKey::WhisperCliPath => "whisper_cli_path"@,
            ConfigKey::WhisperModelPath => "whisper_model_path"@,
            ConfigKey::ArtifactsDir => "artifacts_dir"@,
            ConfigKey::PartialIntervalSeconds => "partial_interval_seconds"@,
            ConfigKey::InputMode => "input_mode"@,
            ConfigKey::DisplayId => "display_id"@,
            ConfigKey::MicrophoneDevice => "microphone_device"@,
            ConfigKey::SystemDevice => "system_device"@,
            ConfigKey::SingleInputDevice => "single_input_device"@,
        }
    }

    /// The key as it is written in the configuration file.
    pub fn as_str(self) -> (r: &'static str)
        ensures
            r@ == self.spec_name(),
    {
        match self {
            ConfigKey::FfmpegPath => "ffmpeg_path",
            ConfigKey::WhisperCliPath => "whisper_cli_path",
            ConfigKey::WhisperModelPath => "whisper_model_path",
            ConfigKey::ArtifactsDir => "artifacts_dir",
            ConfigKey::PartialIntervalSeconds => "partial_interval_seconds",
            ConfigKey::InputMode => "input_mode",
            ConfigKey::DisplayId => "display_id",
            ConfigKey::MicrophoneDevice => "microphone_device",
            ConfigKey::SystemDevice => "system_device",
            ConfigKey::SingleInputDevice => "single_input_device",
        }
    }
}

impl ConfigFileView {
    /// The configuration with the value of one key read from `raw`, or why `raw` is no such value.
    pub open spec fn with(self, key: ConfigKey, raw: Seq<char>) -> Result<
        ConfigFileView,
        ErrorView,
    > {
        match key {
            ConfigKey::FfmpegPath => Ok(ConfigFileView { ffmpeg_path: raw, ..self }),
            ConfigKey::WhisperCliPath => Ok(
                ConfigFileView { whisper_cli_path: Some(raw), ..self },
            ),
            ConfigKey::WhisperModelPath => Ok(
                ConfigFileView { whisper_model_path: Some(raw), ..self },
            ),
            ConfigKey::ArtifactsDir => Ok(ConfigFileView { artifacts_dir: Some(raw), ..self }),
            ConfigKey::PartialIntervalSeconds => match text::spec_parse(raw, u64::MAX as nat) {
                Ok(seconds) => if seconds == 0 {
                    Err(error::plain("partial interval must be at least 1 second"@))
                } else {
                    Ok(ConfigFileView { partial_interval_seconds: seconds as u64, ..self })
                },
                Err(e) => Err(
                    error::caused(
                        "partial interval must be an integer number of seconds"@,
                        e.spec_message(),
                    ),
                ),
            },
            ConfigKey::InputMode => if raw == "mic_system_mix"@ {
                Ok(ConfigFileView { input_mode: InputMode::MicSystemMix, ..self })
            } else if raw == "single_device"@ {
                Ok(ConfigFileView { input_mode: InputMode::SingleDevice, ..self })
            } else {
                Err(error::plain("input mode must be `mic_system_mix` or `single_device`"@))
            },
            ConfigKey::DisplayId => match text::spec_parse(raw, u32::MAX as nat) {
                Ok(id) => Ok(ConfigFileView { display_id: Some(id as u32), ..self }),
                Err(e) => Err(error::caused("display ID must be an integer"@, e.spec_message())),
            },
            ConfigKey::MicrophoneDevice => Ok(
                ConfigFileView { microphone_device: Some(raw), ..self },
            ),
            ConfigKey::SystemDevice => Ok(ConfigFileView { system_device: Some(raw), ..self }),
            ConfigKey::SingleInputDevice => Ok(
                ConfigFileView { single_input_device: Some(raw), ..self },
            ),
        }
    }

    /// The configuration with the default value of one key.
    pub open spec fn without(self, key: ConfigKey) -> ConfigFileView {
        match key {
            ConfigKey::FfmpegPath => ConfigFileView {
                ffmpeg_path: default_config().ffmpeg_path,
                ..self
            },
            ConfigKey::WhisperCliPath => ConfigFileView { whisper_cli_path: None, ..self },
            ConfigKey::WhisperModelPath => ConfigFileView { whisper_model_path: None, ..self },
            ConfigKey::ArtifactsDir => ConfigFileView { artifacts_dir: None, ..self },
            ConfigKey::PartialIntervalSeconds => ConfigFileView {
                partial_interval_seconds: default_config().partial_interval_seconds,
                ..self
            },
            ConfigKey::InputMode => ConfigFileView {
                input_mode: default_config().input_mode,
                ..self
            },
            ConfigKey::DisplayId => ConfigFileView { display_id: None, ..self },
            ConfigKey::MicrophoneDevice => ConfigFileView { microphone_device: None, ..self },
            ConfigKey::SystemDevice => ConfigFileView { system_device: None, ..self },
            ConfigKey::SingleInputDevice => ConfigFileView { single_input_device: None, ..self },
        }
    }
}

impl ConfigFile {
    /// Sets the value of one key. Where `raw` is no such value, nothing changes.
    pub fn set_value(&mut self, key: ConfigKey, raw: &str) -> (r: Result<(), Error>)
        ensures
            match r {
                Ok(_) => old(self)@.with(key, raw@) == Ok::<ConfigFileView, ErrorView>(
                    final(self)@,
                ),
                Err(e) => old(self)@.with(key, raw@) == Err::<ConfigFileView, ErrorView>(e@)
                    && *final(self) == *old(self),
            },
    {
        match key {
            ConfigKey::FfmpegPath => {
                self.ffmpeg_path = raw.to_owned();
            },
            ConfigKey::WhisperCliPath => {
                self.whisper_cli_path = Some(raw.to_owned());
            },
            ConfigKey::WhisperModelPath => {
                self.whisper_model_path = Some(raw.to_owned());
            },
            ConfigKey::ArtifactsDir => {
                self.artifacts_dir = Some(raw.to_owned());
            },
            ConfigKey::PartialIntervalSeconds => match text::parse_u64(raw) {
                Ok(seconds) => {
                    if seconds == 0 {
                        return Err(
                            Error::new("partial interval must be at least 1 second".to_owned()),
                        );
                    }
                    self.partial_interval_seconds = seconds;
                },
                Err(e) => {
                    return Err(
                        Error::with_cause(
                            "partial interval must be an integer number of seconds".to_owned(),
                            e.message(),
                        ),
                    );
                },
            },
            ConfigKey::InputMode => {
                if text::same(raw, "mic_system_mix") {
                    self.input_mode = InputMode::MicSystemMix;
                } else if text::same(raw, "single_device") {
                    self.input_mode = InputMode::SingleDevice;
                } else {
                    return Err(
                        Error::new(
                            "input mode must be `mic_system_mix` or `single_device`".to_owned(),
                        ),
                    );
                }
            },
            ConfigKey::DisplayId => match text::parse_u32(raw) {
                Ok(id) => {
                    self.display_id = Some(id);
                },
                Err(e) => {
                    return Err(
                        Error::with_cause("display ID must be an integer".to_owned(), e.message()),
                    );
                },
            },
            ConfigKey::MicrophoneDevice => {
                self.microphone_device = Some(raw.to_owned());
            },
            ConfigKey::SystemDevice => {
                self.system_device = Some(raw.to_owned());
            },
            ConfigKey::SingleInputDevice => {
                self.single_input_device = Some(raw.to_owned());
            },
        }
        Ok(())
    }

    /// Gives one key its default value.
    pub fn unset_value(&mut self, key: ConfigKey)
        ensures
            final(self)@ == old(self)@.without(key),
    {
        match key {
            ConfigKey::FfmpegPath => {
                self.ffmpeg_path = default_ffmpeg_path();
            },
            ConfigKey::WhisperCliPath => {
                self.whisper_cli_path = None;
            },
            ConfigKey::WhisperModelPath => {
                self.whisper_model_path = None;
            },
            ConfigKey::ArtifactsDir => {
                self.artifacts_dir = None;
            },
            ConfigKey::PartialIntervalSeconds => {
                self.partial_interval_seconds = default_partial_interval_seconds();
            },
            ConfigKey::InputMode => {
                self.input_mode = InputMode::MicSystemMix;
            },
            ConfigKey::DisplayId => {
                self.display_id = None;
            },
            ConfigKey::MicrophoneDevice => {
                self.microphone_device = None;
            },
            ConfigKey::SystemDevice => {
                self.system_device = None;
            },
            ConfigKey::SingleInputDevice => {
                self.single_input_device = None;
            },
        }
    }
}

impl ConfigFileView {
    /// The stored value of one key.
    pub open spec fn value_of(self, key: ConfigKey) -> JsonView {
        match key {
            ConfigKey::FfmpegPath => JsonView::Text(self.ffmpeg_path),
            ConfigKey::WhisperCliPath => json::optional_text(self.whisper_cli_path),
            ConfigKey::WhisperModelPath => json::optional_text(self.whisper_model_path),
            ConfigKey::ArtifactsDir => json::optional_text(self.artifacts_dir),
            ConfigKey::PartialIntervalSeconds => JsonView::Number(self.partial_interval_seconds),
            ConfigKey::InputMode => JsonView::Text(self.input_mode.spec_stored_name()),
            ConfigKey::DisplayId => json::optional_number(self.display_id),
            ConfigKey::MicrophoneDevice => json::optional_text(self.microphone_device),
            ConfigKey::SystemDevice => json::optional_text(self.system_device),
            ConfigKey::SingleInputDevice => json::optional_text(self.single_input_device),
        }
    }
}

impl ConfigFile {
    /// The stored value of one key.
    pub fn stored_value(&self, key: ConfigKey) -> (r: Json)
        ensures
            r.deep_view() == self@.value_of(key),
    {
        match key {
            ConfigKey::FfmpegPath => Json::text(self.ffmpeg_path.as_str()),
            ConfigKey::WhisperCliPath => Json::from_text(&self.whisper_cli_path),
            ConfigKey::WhisperModelPath => Json::from_text(&self.whisper_model_path),
            ConfigKey::ArtifactsDir => Json::from_text(&self.artifacts_dir),
            ConfigKey::PartialIntervalSeconds => Json::Number(self.partial_interval_seconds),
            ConfigKey::InputMode => Json::text(self.input_mode.stored_name()),
            ConfigKey::DisplayId => Json::from_number(self.display_id),
            ConfigKey::MicrophoneDevice => Json::from_text(&self.microphone_device),
            ConfigKey::SystemDevice => Json::from_text(&self.system_device),
            ConfigKey::SingleInputDevice => Json::from_text(&self.single_input_device),
        }
    }
}

/// Every key, in the order in which their values are written and shown.
pub open spec fn all_keys() -> Seq<ConfigKey> {
    seq![
        ConfigKey::FfmpegPath,
        ConfigKey::WhisperCliPath,
        ConfigKey::WhisperModelPath,
        ConfigKey::ArtifactsDir,
        ConfigKey::PartialIntervalSeconds,
        ConfigKey::InputMode,
        ConfigKey::DisplayId,
        ConfigKey::MicrophoneDevice,
        ConfigKey::SystemDevice,
        ConfigKey::SingleInputDevice,
    ]
}

/// Every key, in the order in which their values are written and shown.
pub fn config_keys() -> (r: Vec<ConfigKey>)
    ensures
        r@ == all_keys(),
{
    vec![
        ConfigKey::FfmpegPath,
        ConfigKey::WhisperCliPath,
        ConfigKey::WhisperModelPath,
        ConfigKey::ArtifactsDir,
        ConfigKey::PartialIntervalSeconds,
        ConfigKey::InputMode,
        ConfigKey::DisplayId,
        ConfigKey::MicrophoneDevice,
        ConfigKey::SystemDevice,
        ConfigKey::SingleInputDevice,
    ]
}

// ---------------------------------------------------------------------------------------------
// The configuration file
// ---------------------------------------------------------------------------------------------
/// The mode that has this name in the configuration file.
pub open spec fn mode_by_stored_name(name: Seq<char>) -> Option<InputMode> {
    if name == InputMode::MicSystemMix.spec_stored_name() {
        Some(InputMode::MicSystemMix)
    } else if name == InputMode::Microphone.spec_stored_name() {
        Some(InputMode::Microphone)
    } else if name == InputMode::SystemAudio.spec_stored_name() {
        Some(InputMode::SystemAudio)
    } else if name == InputMode::SingleDevice.spec_stored_name() {
        Some(InputMode::SingleDevice)
    } else {
        None
    }
}

fn mode_from_stored_name(name: &str) -> (r: Option<InputMode>)
    ensures
        r == mode_by_stored_name(name@),
{
    if text::same(name, "mic_system_mix") {
        Some(InputMode::MicSystemMix)
    } else if text::same(name, "microphone") {
        Some(InputMode::Microphone)
    } else if text::same(name, "system_audio") {
        Some(InputMode::SystemAudio)
    } else if text::same(name, "single_device") {
        Some(InputMode::SingleDevice)
    } else {
        None
    }
}

impl ConfigKey {
    /// Whether the configuration file can hold `value` under this key; a key may be missing.
    pub open spec fn takes(self, value: JsonView) -> bool {
        match value {
            JsonView::Null => true,
            JsonView::Bool(_) => false,
            JsonView::Number(n) => match self {
                ConfigKey::PartialIntervalSeconds => true,
                ConfigKey::DisplayId => n <= u32::MAX,
                _ => false,
            },
            JsonView::Text(s) => match self {
                ConfigKey::PartialIntervalSeconds => false,
                ConfigKey::DisplayId => false,
                ConfigKey::InputMode => mode_by_stored_name(s) is Some,
                _ => true,
            },
        }
    }

    fn accepts(self, value: &Json) -> (r: bool)
        ensures
            r == self.takes(value.deep_view()),
    {
        match value {
            Json::Null => true,
            Json::Bool(_) => false,
            Json::Number(n) => match self {
                ConfigKey::PartialIntervalSeconds => true,
                ConfigKey::DisplayId => *n <= u32::MAX as u64,
                _ => false,
            },
            Json::Text(s) => match self {
                ConfigKey::PartialIntervalSeconds => false,
                ConfigKey::DisplayId => false,
                ConfigKey::InputMode => mode_from_stored_name(s.as_str()).is_some(),
                _ => true,
            },
        }
    }
}

impl ConfigFileView {
    /// The values of `keys` under their names, but for those that are missing.
    pub open spec fn written(self, keys: Seq<ConfigKey>) -> Seq<FieldView>
        decreases keys.len(),
    {
        if keys.len() == 0 {
            Seq::empty()
        } else {
            let before = self.written(keys.drop_last());
            let key = keys.last();
            if self.value_of(key) == JsonView::Null {
                before
            } else {
                before.push(FieldView { name: key.spec_name(), value: self.value_of(key) })
            }
        }
    }

    /// What the configuration file holds of this configuration.
    pub open spec fn saved(self) -> Seq<FieldView> {
        self.written(all_keys())
    }
}

/// The value under a key's name in the configuration file.
pub open spec fn held(fields: Seq<FieldView>, key: ConfigKey) -> JsonView {
    json::value_named(fields, key.spec_name())
}

/// The first of `keys` under whose name the configuration file holds what it cannot.
pub open spec fn first_unfit(fields: Seq<FieldView>, keys: Seq<ConfigKey>) -> Option<ConfigKey>
    decreases keys.len(),
{
    if keys.len() == 0 {
        None
    } else if !keys[0].takes(held(fields, keys[0])) {
        Some(keys[0])
    } else {
        first_unfit(fields, keys.skip(1))
    }
}

/// A value, or, where it is missing, another.
pub open spec fn value_or<T>(value: Option<T>, other: T) -> T {
    match value {
        Some(value) => value,
        None => other,
    }
}

/// The configuration that a configuration file holds, with the default of each key that is missing,
/// or why it holds none.
pub open spec fn loaded(fields: Seq<FieldView>) -> Result<ConfigFileView, ErrorView> {
    match first_unfit(fields, all_keys()) {
        Some(key) => Err(error::plain("invalid value for `"@ + key.spec_name() + "`"@)),
        None => Ok(
            ConfigFileView {
                ffmpeg_path: value_or(
                    held(fields, ConfigKey::FfmpegPath).as_text(),
                    default_config().ffmpeg_path,
                ),
                whisper_cli_path: held(fields, ConfigKey::WhisperCliPath).as_text(),
                whisper_model_path: held(fields, ConfigKey::WhisperModelPath).as_text(),
                artifacts_dir: held(fields, ConfigKey::ArtifactsDir).as_text(),
                partial_interval_seconds: value_or(
                    held(fields, ConfigKey::PartialIntervalSeconds).as_number(),
                    default_config().partial_interval_seconds,
                ),
                input_mode: match held(fields, ConfigKey::InputMode).as_text() {
                    Some(name) => value_or(
                        mode_by_stored_name(name),
                        default_config().input_mode,
                    ),
                    None => default_config().input_mode,
                },
                display_id: match held(fields, ConfigKey::DisplayId).as_number() {
                    Some(id) => Some(id as u32),
                    None => None,
                },
                microphone_device: held(fields, ConfigKey::MicrophoneDevice).as_text(),
                system_device: held(fields, ConfigKey::SystemDevice).as_text(),
                single_input_device: held(fields, ConfigKey::SingleInputDevice).as_text(),
            },
        ),
    }
}

fn find_unfit(fields: &Vec<Field>) -> (r: Option<ConfigKey>)
    ensures
        r == first_unfit(fields.deep_view(), all_keys()),
{
    let keys = config_keys();
    let mut i: usize = 0;
    assert(keys@.skip(0) =~= keys@);
    while i < keys.len()
        invariant
            i <= keys@.len(),
            keys@ == all_keys(),
            first_unfit(fields.deep_view(), all_keys()) == first_unfit(
                fields.deep_view(),
                keys@.skip(i as int),
            ),
        decreases keys@.len() - i,
    {
        let key = keys[i];
        assert(keys@.skip(i as int)[0] == key);
        assert(keys@.skip(i as int).skip(1) =~= keys@.skip(i + 1));
        if let Some(value) = json::find_value(fields, key.as_str()) {
            if !key.accepts(value) {
                return Some(key);
            }
        }
        i = i + 1;
    }
    None
}

impl ConfigFile {
    /// What the configuration file is to hold of this configuration.
    pub fn stored_fields(&self) -> (r: Vec<Field>)
        ensures
            r.deep_view() == self@.saved(),
    {
        let keys = config_keys();
        let ghost all = keys@;
        let mut fields: Vec<Field> = Vec::new();
        let mut i: usize = 0;
        assert(all.take(0) =~= Seq::<ConfigKey>::empty());
        assert(fields.deep_view() =~= self@.written(all.take(0)));
        while i < keys.len()
            invariant
                i <= keys@.len(),
                all == keys@,
                fields.deep_view() == self@.written(all.take(i as int)),
            decreases keys@.len() - i,
        {
            let key = keys[i];
            assert(all.take(i + 1).drop_last() =~= all.take(i as int));
            assert(all.take(i + 1).last() == key);
            match self.stored_value(key) {
                Json::Null => {},
                value => {
                    json::push_field(&mut fields, key.as_str(), value);
                },
            }
            i = i + 1;
        }
        assert(all.take(i as int) =~= all);
        fields
    }

    /// The configuration that a configuration file holds.
    pub fn from_fields(fields: &Vec<Field>) -> (r: Result<ConfigFile, Error>)
        ensures
            match r {
                Ok(config) => loaded(fields.deep_view()) == Ok::<ConfigFileView, ErrorView>(
                    config@,
                ),
                Err(e) => loaded(fields.deep_view()) == Err::<ConfigFileView, ErrorView>(e@),
            },
    {
        if let Some(key) = find_unfit(fields) {
            return Err(Error::new(text::cat3("invalid value for `", key.as_str(), "`")));
        }
        let ffmpeg_path = match json::find_text(fields, "ffmpeg_path") {
            Some(path) => path,
            None => default_ffmpeg_path(),
        };
        let partial_interval_seconds = match json::find_number(fields, "partial_interval_seconds") {
            Some(seconds) => seconds,
            None => default_partial_interval_seconds(),
        };
        let input_mode = match json::find_text(fields, "input_mode") {
            Some(name) => match mode_from_stored_name(name.as_str()) {
                Some(mode) => mode,
                None => InputMode::MicSystemMix,
            },
            None => InputMode::MicSystemMix,
        };
        let display_id = match json::find_number(fields, "display_id") {
            Some(id) => {
                proof {
                    assert(all_keys()[6] == ConfigKey::DisplayId);
                    lemma_fit(fields.deep_view(), all_keys(), ConfigKey::DisplayId);
                }
                Some(id as u32)
            },
            None => None,
        };
        Ok(
            ConfigFile {
                ffmpeg_path,
                whisper_cli_path: json::find_text(fields, "whisper_cli_path"),
                whisper_model_path: json::find_text(fields, "whisper_model_path"),
                artifacts_dir: json::find_text(fields, "artifacts_dir"),
                partial_interval_seconds,
                input_mode,
                display_id,
                microphone_device: json::find_text(fields, "microphone_device"),
                system_device: json::find_text(fields, "system_device"),
                single_input_device: json::find_text(fields, "single_input_device"),
            },
        )
    }
}

proof fn lemma_fit(fields: Seq<FieldView>, keys: Seq<ConfigKey>, key: ConfigKey)
    requires
        first_unfit(fields, keys) is None,
        keys.contains(key),
    ensures
        key.takes(held(fields, key)),
    decreases keys.len(),
{
    let i = choose|i: int| 0 <= i < keys.len() && keys[i] == key;
    if i > 0 {
        assert(keys.skip(1)[i - 1] == key);
        lemma_fit(fields, keys.skip(1), key);
    }
}

// ---------------------------------------------------------------------------------------------
// What is in effect
// ---------------------------------------------------------------------------------------------
/// The configuration in effect: every stored value, with what was found in place of what is not
/// stored.
#[derive(Debug)]
pub struct EffectiveConfig {
    pub ffmpeg_path: String,
    pub whisper_cli_path: Option<String>,
    pub whisper_model_path: Option<String>,
    pub artifacts_dir: String,
    pub partial_interval_seconds: u64,
    pub input_mode: InputMode,
    pub display_id: Option<u32>,
    pub microphone_device: Option<String>,
    pub system_device: Option<String>,
    pub single_input_device: Option<String>,
    pub config_file: String,
}

/// What an [`EffectiveConfig`] holds.
pub struct EffectiveView {
    pub ffmpeg_path: Seq<char>,
    pub whisper_cli_path: Option<Seq<char>>,
    pub whisper_model_path: Option<Seq<char>>,
    pub artifacts_dir: Seq<char>,
    pub partial_interval_seconds: u64,
    pub input_mode: InputMode,
    pub display_id: Option<u32>,
    pub microphone_device: Option<Seq<char>>,
    pub system_device: Option<Seq<char>>,
    pub single_input_device: Option<Seq<char>>,
    pub config_file: Seq<char>,
}

impl View for EffectiveConfig {
    type V = EffectiveView;

    open spec fn view(&self) -> EffectiveView {
        EffectiveView {
            ffmpeg_path: self.ffmpeg_path@,
            whisper_cli_path: self.whisper_cli_path.deep_view(),
            whisper_model_path: self.whisper_model_path.deep_view(),
            artifacts_dir: self.artifacts_dir@,
            partial_interval_seconds: self.partial_interval_seconds,
            input_mode: self.input_mode,
            display_id: self.display_id,
            microphone_device: self.microphone_device.deep_view(),
            system_device: self.system_device.deep_view(),
            single_input_device: self.single_input_device.deep_view(),
            config_file: self.config_file@,
        }
    }
}

/// A number of seconds, but at least one.
pub open spec fn at_least_one(seconds: u64) -> u64 {
    if seconds == 0 {
        1
    } else {
        seconds
    }
}

/// A stored path with its `~` expanded, or, where none is stored, the one that was found.
pub open spec fn stored_or(
    stored: Option<Seq<char>>,
    home: Option<Seq<char>>,
    found: Option<Seq<char>>,
) -> Option<Seq<char>> {
    match stored {
        Some(raw) => Some(detect::expanded(raw, home)),
        None => found,
    }
}

impl ConfigFileView {
    /// The whisper-cli in effect.
    pub open spec fn cli_in_effect(self, env: Environment, disk: Snapshot) -> Option<Seq<char>> {
        stored_or(self.whisper_cli_path, env.home.deep_view(), detect::detected_cli(env, disk))
    }

    /// The configuration in effect, for state under `paths`.
    pub open spec fn in_effect(
        self,
        paths: AppPaths,
        env: Environment,
        disk: Snapshot,
    ) -> EffectiveView {
        let home = env.home.deep_view();
        EffectiveView {
            ffmpeg_path: detect::expanded(self.ffmpeg_path, home),
            whisper_cli_path: self.cli_in_effect(env, disk),
            whisper_model_path: stored_or(
                self.whisper_model_path,
                home,
                detect::detected_model(self.cli_in_effect(env, disk), env, disk),
            ),
            artifacts_dir: match self.artifacts_dir {
                Some(dir) => detect::expanded(dir, home),
                None => path::spec_join(paths.config_dir@, "sessions"@),
            },
            partial_interval_seconds: at_least_one(self.partial_interval_seconds),
            input_mode: self.input_mode,
            display_id: self.display_id,
            microphone_device: self.microphone_device,
            system_device: self.system_device,
            single_input_device: self.single_input_device,
            config_file: paths.config_file@,
        }
    }
}

/// A number of seconds, but at least one.
pub fn clamp_seconds(seconds: u64) -> (r: u64)
    ensures
        r == at_least_one(seconds),
{
    if seconds == 0 {
        1
    } else {
        seconds
    }
}

impl ConfigFile {
    /// The whisper-cli in effect, given what the environment holds and what was found on disk.
    pub fn effective_cli(&self, env: &Environment, disk: &Snapshot) -> (r: Option<String>)
        ensures
            r.deep_view() == self@.cli_in_effect(*env, *disk),
    {
        match &self.whisper_cli_path {
            Some(stored) => Some(detect::expand_home(stored.clone(), &env.home)),
            None => detect::detect_whisper_cli_path(env, disk),
        }
    }

    /// The configuration in effect, given what the environment holds and what was found on disk.
    pub fn into_effective(self, paths: &AppPaths, env: &Environment, disk: &Snapshot) -> (r:
        EffectiveConfig)
        ensures
            r@ == self@.in_effect(*paths, *env, *disk),
    {
        let whisper_cli_path = self.effective_cli(env, disk);
        let artifacts_dir = match self.artifacts_dir {
            Some(dir) => detect::expand_home(dir, &env.home),
            None => path::join(paths.config_dir.as_str(), "sessions"),
        };
        let whisper_model_path = match self.whisper_model_path {
            Some(stored) => Some(detect::expand_home(stored, &env.home)),
            None => detect::detect_whisper_model_path(&whisper_cli_path, env, disk),
        };
        EffectiveConfig {
            ffmpeg_path: detect::expand_home(self.ffmpeg_path, &env.home),
            whisper_cli_path,
            whisper_model_path,
            artifacts_dir,
            partial_interval_seconds: clamp_seconds(self.partial_interval_seconds),
            input_mode: self.input_mode,
            display_id: self.display_id,
            microphone_device: self.microphone_device,
            system_device: self.system_device,
            single_input_device: self.single_input_device,
            config_file: paths.config_file.clone(),
        }
    }
}

impl EffectiveView {
    /// The value of one key.
    pub open spec fn value_of(self, key: ConfigKey) -> JsonView {
        match key {
            ConfigKey::FfmpegPath => JsonView::Text(self.ffmpeg_path),
            ConfigKey::WhisperCliPath => json::optional_text(self.whisper_cli_path),
            ConfigKey::WhisperModelPath => json::optional_text(self.whisper_model_path),
            ConfigKey::ArtifactsDir => JsonView::Text(self.artifacts_dir),
            ConfigKey::PartialIntervalSeconds => JsonView::Number(self.partial_interval_seconds),
            ConfigKey::InputMode => JsonView::Text(self.input_mode.spec_stored_name()),
            ConfigKey::DisplayId => json::optional_number(self.display_id),
            ConfigKey::MicrophoneDevice => json::optional_text(self.microphone_device),
            ConfigKey::SystemDevice => json::optional_text(self.system_device),
            ConfigKey::SingleInputDevice => json::optional_text(self.single_input_device),
        }
    }
}

impl EffectiveView {
    /// The values of all keys under their names.
    pub open spec fn named_values(self) -> Seq<FieldView> {
        Seq::new(
            all_keys().len(),
            |i: int|
                FieldView { name: all_keys()[i].spec_name(), value: self.value_of(all_keys()[i]) },
        )
    }

    /// The configuration as it is shown: the values of all keys, and the configuration file.
    pub open spec fn shown(self) -> Seq<FieldView> {
        self.named_values().push(
            FieldView { name: "config_file"@, value: JsonView::Text(self.config_file) },
        )
    }
}

impl EffectiveConfig {
    /// The configuration as it is shown: the values of all keys, and the configuration file.
    pub fn fields(&self) -> (r: Vec<Field>)
        ensures
            r.deep_view() == self@.shown(),
    {
        let keys = config_keys();
        let mut fields: Vec<Field> = Vec::new();
        let ghost all = self@.named_values();
        let mut i: usize = 0;
        assert(fields.deep_view() =~= all.take(0));
        while i < keys.len()
            invariant
                i <= keys@.len(),
                keys@ == all_keys(),
                all == self@.named_values(),
                fields.deep_view() == all.take(i as int),
            decreases keys@.len() - i,
        {
            json::push_field(&mut fields, keys[i].as_str(), self.get_value(keys[i]));
            assert(all.take(i + 1) =~= all.take(i as int).push(all[i as int]));
            i = i + 1;
        }
        assert(all.take(i as int) =~= all);
        json::push_field(&mut fields, "config_file", Json::text(self.config_file.as_str()));
        fields
    }

    /// The value of one key.
    pub fn get_value(&self, key: ConfigKey) -> (r: Json)
        ensures
            r.deep_view() == self@.value_of(key),
    {
        match key {
            ConfigKey::FfmpegPath => Json::text(self.ffmpeg_path.as_str()),
            ConfigKey::WhisperCliPath => Json::from_text(&self.whisper_cli_path),
            ConfigKey::WhisperModelPath => Json::from_text(&self.whisper_model_path),
            ConfigKey::ArtifactsDir => Json::text(self.artifacts_dir.as_str()),
            ConfigKey::PartialIntervalSeconds => Json::Number(self.partial_interval_seconds),
            ConfigKey::InputMode => Json::text(self.input_mode.stored_name()),
            ConfigKey::DisplayId => Json::from_number(self.display_id),
            ConfigKey::MicrophoneDevice => Json::from_text(&self.microphone_device),
            ConfigKey::SystemDevice => Json::from_text(&self.system_device),
            ConfigKey::SingleInputDevice => Json::from_text(&self.single_input_device),
        }
    }

    /// The same configuration again.
    pub fn copy(&self) -> (r: EffectiveConfig)
        ensures
            r@ == self@,
    {
        EffectiveConfig {
            ffmpeg_path: self.ffmpeg_path.clone(),
            whisper_cli_path: self.whisper_cli_path.clone(),
            whisper_model_path: self.whisper_model_path.clone(),
            artifacts_dir: self.artifacts_dir.clone(),
            partial_interval_seconds: self.partial_interval_seconds,
            input_mode: self.input_mode,
            display_id: self.display_id,
            microphone_device: self.microphone_device.clone(),
            system_device: self.system_device.clone(),
            single_input_device: self.single_input_device.clone(),
            config_file: self.config_file.clone(),
        }
    }
}

// ---------------------------------------------------------------------------------------------
// The store
// ---------------------------------------------------------------------------------------------
/// Where the configuration is kept.
#[derive(Debug)]
pub struct ConfigStore {
    pub paths: AppPaths,
}

/// The configuration in `stored`, which is what the configuration file at `path` holds, or the
/// default where there is no such file. A value of the wrong kind is refused.
pub open spec fn stored_config(stored: Option<Seq<FieldView>>, path: Seq<char>) -> Result<
    ConfigFileView,
    ErrorView,
> {
    match stored {
        Some(fields) => match loaded(fields) {
            Ok(config) => Ok(config),
            Err(e) => Err(error::caused("failed to parse config file "@ + path, e.message)),
        },
        None => Ok(default_config()),
    }
}

impl ConfigStore {
    /// The store under `override_dir` where one is given, and else under the directory that the
    /// operating system assigns to the program.
    pub fn discover(override_dir: Option<String>) -> (r: Result<ConfigStore, Error>)
        ensures
            override_dir matches Some(base) ==> r is Ok && r->Ok_0.paths.lie_under(base@),
            match r {
                Ok(store) => store.paths.lie_under(store.paths.config_dir@) && (
                override_dir is None ==> is_assigned_dir(store.paths.config_dir@)),
                Err(e) => override_dir is None && e@ == no_config_dir(APP_NAME@),
            },
    {
        match AppPaths::discover(override_dir) {
            Ok(paths) => Ok(ConfigStore { paths }),
            Err(e) => Err(e),
        }
    }

    /// The configuration in what the configuration file holds, or the default where there is none.
    pub fn load(&self, stored: &Option<Vec<Field>>) -> (r: Result<ConfigFile, Error>)
        ensures
            match r {
                Ok(config) => stored_config(stored.deep_view(), self.paths.config_file@) == Ok::<
                    ConfigFileView,
                    ErrorView,
                >(config@),
                Err(e) => stored_config(stored.deep_view(), self.paths.config_file@) == Err::<
                    ConfigFileView,
                    ErrorView,
                >(e@),
            },
    {
        match stored {
            Some(fields) => match ConfigFile::from_fields(fields) {
                Ok(config) => Ok(config),
                Err(e) => Err(
                    Error::with_cause(
                        text::cat2("failed to parse config file ", self.paths.config_file.as_str()),
                        e.message,
                    ),
                ),
            },
            None => Ok(ConfigFile::default()),
        }
    }

    /// What the configuration file is to hold of a configuration.
    pub fn save(&self, config: &ConfigFile) -> (r: Vec<Field>)
        ensures
            r.deep_view() == config@.saved(),
    {
        config.stored_fields()
    }

    /// The configuration in effect.
    pub fn load_effective(
        &self,
        stored: &Option<Vec<Field>>,
        env: &Environment,
        disk: &Snapshot,
    ) -> (r: Result<EffectiveConfig, Error>)
        ensures
            match r {
                Ok(effective) => stored_config(
                    stored.deep_view(),
                    self.paths.config_file@,
                ) matches Ok(config) && effective@ == config.in_effect(self.paths, *env, *disk),
                Err(e) => stored_config(stored.deep_view(), self.paths.config_file@) == Err::<
                    ConfigFileView,
                    ErrorView,
                >(e@),
            },
    {
        match self.load(stored) {
            Ok(config) => Ok(config.into_effective(&self.paths, env, disk)),
            Err(e) => Err(e),
        }
    }
}

// ---------------------------------------------------------------------------------------------
// Laws
// ---------------------------------------------------------------------------------------------
proof fn lemma_written_value(config: ConfigFileView, keys: Seq<ConfigKey>, key: ConfigKey)
    requires
        keys.no_duplicates(),
    ensures
        held(config.written(keys), key) == if keys.contains(key) {
            config.value_of(key)
        } else {
            JsonView::Null
        },
    decreases keys.len(),
{
    if keys.len() > 0 {
        let before = keys.drop_last();
        let last = keys.last();
        assert(before.no_duplicates());
        lemma_written_value(config, before, key);
        law_key_names_differ(last, key);
        assert(keys.contains(key) <==> before.contains(key) || last == key) by {
            if keys.contains(key) {
                let i = choose|i: int| 0 <= i < keys.len() && keys[i] == key;
                if i < before.len() {
                    assert(before[i] == key);
                }
            }
            if before.contains(key) {
                let i = choose|i: int| 0 <= i < before.len() && before[i] == key;
                assert(keys[i] == key);
            }
            assert(keys[keys.len() - 1] == last);
        }
        if last == key && before.contains(key) {
            let i = choose|i: int| 0 <= i < before.len() && before[i] == key;
            assert(keys[i] == keys[keys.len() - 1]);
        }
        let shorter = config.written(before);
        let field = FieldView { name: last.spec_name(), value: config.value_of(last) };
        assert(shorter.push(field).drop_last() =~= shorter);
    }
}

proof fn lemma_every_key(key: ConfigKey)
    ensures
        all_keys().contains(key),
        all_keys().no_duplicates(),
{
    let keys = all_keys();
    let i = match key {
        ConfigKey::FfmpegPath => 0int,
        ConfigKey::WhisperCliPath => 1,
        ConfigKey::WhisperModelPath => 2,
        ConfigKey::ArtifactsDir => 3,
        ConfigKey::PartialIntervalSeconds => 4,
        ConfigKey::InputMode => 5,
        ConfigKey::DisplayId => 6,
        ConfigKey::MicrophoneDevice => 7,
        ConfigKey::SystemDevice => 8,
        ConfigKey::SingleInputDevice => 9,
    };
    assert(keys[i] == key);
}

proof fn lemma_all_fit(fields: Seq<FieldView>, keys: Seq<ConfigKey>)
    requires
        forall|key: ConfigKey| #[trigger] key.takes(held(fields, key)),
    ensures
        first_unfit(fields, keys) is None,
    decreases keys.len(),
{
    if keys.len() > 0 {
        lemma_all_fit(fields, keys.skip(1));
    }
}

/// What is loaded is what was saved: a configuration that is read back from what the configuration
/// file holds of it is the same in every field.
pub proof fn law_loaded_is_what_was_saved(config: ConfigFileView, path: Seq<char>)
    ensures
        loaded(config.saved()) == Ok::<ConfigFileView, ErrorView>(config),
        stored_config(Some(config.saved()), path) == Ok::<ConfigFileView, ErrorView>(config),
{
    law_mode_is_read_back(config.input_mode);
    assert forall|key: ConfigKey| #[trigger] held(config.saved(), key) == config.value_of(
        key,
    ) by {
        lemma_every_key(key);
        lemma_written_value(config, all_keys(), key);
    }
    assert forall|key: ConfigKey| #[trigger] key.takes(held(config.saved(), key)) by {
        assert(held(config.saved(), key) == config.value_of(key));
    }
    lemma_all_fit(config.saved(), all_keys());
}

/// Every mode is read back from its name in the configuration file.
pub proof fn law_mode_is_read_back(mode: InputMode)
    ensures
        mode_by_stored_name(mode.spec_stored_name()) == Some(mode),
{
    reveal_strlit("mic_system_mix");
    reveal_strlit("microphone");
    reveal_strlit("system_audio");
    reveal_strlit("single_device");
    assert("mic_system_mix"@.len() == 14);
    assert("microphone"@.len() == 10);
    assert("system_audio"@.len() == 12);
    assert("single_device"@.len() == 13);
}

/// A configuration file that holds nothing is as good as none: everything has its default.
pub proof fn law_missing_keys_have_defaults(path: Seq<char>)
    ensures
        stored_config(Some(Seq::empty()), path) == stored_config(None, path),
        stored_config(None, path) == Ok::<ConfigFileView, ErrorView>(default_config()),
{
    lemma_all_fit(Seq::empty(), all_keys());
}

proof fn lemma_unfit_agrees(a: Seq<FieldView>, b: Seq<FieldView>, keys: Seq<ConfigKey>)
    requires
        forall|key: ConfigKey| #[trigger] held(a, key) == held(b, key),
    ensures
        first_unfit(a, keys) == first_unfit(b, keys),
    decreases keys.len(),
{
    if keys.len() > 0 {
        assert(held(a, keys[0]) == held(b, keys[0]));
        lemma_unfit_agrees(a, b, keys.skip(1));
    }
}

/// What the configuration file holds under another name than a key's does not matter.
pub proof fn law_other_fields_are_ignored(fields: Seq<FieldView>, other: FieldView)
    requires
        forall|key: ConfigKey| #[trigger] key.spec_name() != other.name,
    ensures
        loaded(fields.push(other)) == loaded(fields),
{
    assert(fields.push(other).drop_last() =~= fields);
    assert forall|key: ConfigKey| #[trigger] held(fields.push(other), key) == held(
        fields,
        key,
    ) by {
        assert(key.spec_name() != other.name);
    }
    lemma_unfit_agrees(fields.push(other), fields, all_keys());
}

/// Setting or unsetting one key leaves the value of every other key as it was.
pub proof fn law_keys_are_independent(
    config: ConfigFileView,
    key: ConfigKey,
    raw: Seq<char>,
    other: ConfigKey,
)
    requires
        key != other,
    ensures
        config.with(key, raw) matches Ok(changed) ==> changed.value_of(other) == config.value_of(
            other,
        ),
        config.without(key).value_of(other) == config.value_of(other),
{
}

/// Unsetting a key gives back its default, whatever it was set to before.
pub proof fn law_unset_restores_default(config: ConfigFileView, key: ConfigKey, raw: Seq<char>)
    ensures
        config.without(key).value_of(key) == default_config().value_of(key),
        config.with(key, raw) matches Ok(changed) ==> changed.without(key) == config.without(key),
        config.without(key).without(key) == config.without(key),
        default_config().without(key) == default_config(),
{
}

/// The last of two values that are set for a key is the one that is kept.
pub proof fn law_last_set_wins(
    config: ConfigFileView,
    key: ConfigKey,
    first: Seq<char>,
    second: Seq<char>,
)
    ensures
        config.with(key, first) matches Ok(changed) ==> changed.with(key, second) == config.with(
            key,
            second,
        ),
{
}

/// A key that holds text keeps the text that it was set to. A key that holds a number keeps the
/// number.
pub proof fn law_set_is_kept(config: ConfigFileView, raw: Seq<char>, seconds: u64, id: u32)
    requires
        seconds > 0,
    ensures
        forall|key: ConfigKey|
            key != ConfigKey::PartialIntervalSeconds && key != ConfigKey::InputMode && key
                != ConfigKey::DisplayId ==> (#[trigger] config.with(key, raw) matches Ok(changed)
                && changed.value_of(key) == JsonView::Text(raw)),
        config.with(ConfigKey::PartialIntervalSeconds, text::decimal(seconds as nat)) matches Ok(
            changed,
        ) && changed.value_of(ConfigKey::PartialIntervalSeconds) == JsonView::Number(seconds),
        config.with(ConfigKey::DisplayId, text::decimal(id as nat)) matches Ok(changed)
            && changed.value_of(ConfigKey::DisplayId) == JsonView::Number(id as u64),
{
    text::law_decimal_round_trip(seconds as nat, u64::MAX as nat);
    text::law_decimal_round_trip(id as nat, u32::MAX as nat);
}

/// An input mode that can be set by its stored name is kept under that name.
pub proof fn law_set_input_mode_by_name(config: ConfigFileView, mode: InputMode)
    ensures
        config.with(ConfigKey::InputMode, mode.spec_stored_name()) matches Ok(changed)
            ==> changed.input_mode == mode,
        config.with(ConfigKey::InputMode, mode.spec_stored_name()) is Ok <==> mode
            == InputMode::MicSystemMix || mode == InputMode::SingleDevice,
{
    reveal_strlit("mic_system_mix");
    reveal_strlit("microphone");
    reveal_strlit("system_audio");
    reveal_strlit("single_device");
    assert("mic_system_mix"@.len() == 14);
    assert("microphone"@.len() == 10);
    assert("system_audio"@.len() == 12);
    assert("single_device"@.len() == 13);
}

/// The interval in effect is never less than a second.
pub proof fn law_interval_in_effect(
    config: ConfigFileView,
    paths: AppPaths,
    env: Environment,
    disk: Snapshot,
)
    ensures
        config.in_effect(paths, env, disk).partial_interval_seconds >= 1,
        config.partial_interval_seconds >= 1 ==> config.in_effect(
            paths,
            env,
            disk,
        ).partial_interval_seconds == config.partial_interval_seconds,
{
}

/// What is stored takes precedence: a whisper-cli or a model that is configured is in effect,
/// whatever the environment names and whatever is found on disk.
pub proof fn law_stored_paths_take_precedence(
    config: ConfigFileView,
    paths: AppPaths,
    env: Environment,
    disk: Snapshot,
)
    ensures
        config.whisper_cli_path matches Some(cli) ==> config.in_effect(
            paths,
            env,
            disk,
        ).whisper_cli_path == Some(detect::expanded(cli, env.home.deep_view())),
        config.whisper_model_path matches Some(model) ==> config.in_effect(
            paths,
            env,
            disk,
        ).whisper_model_path == Some(detect::expanded(model, env.home.deep_view())),
{
}

/// What is in effect depends on nothing on disk but what was looked at: what the paths of the running
/// program and of the whisper-cli in effect stand for, what is where a whisper-cli is looked for, and
/// what is at and in the places where a model is looked for.
pub proof fn law_effective_looks_at(
    config: ConfigFileView,
    paths: AppPaths,
    env: Environment,
    a: Snapshot,
    b: Snapshot,
)
    requires
        disk::agree_on_target(a, b, env.current_exe.deep_view()),
        disk::agree_on(a, b, detect::cli_candidates(env, a)),
        disk::agree_on_target(a, b, config.cli_in_effect(env, a)),
        disk::agree_within(
            a,
            b,
            detect::model_candidates(config.cli_in_effect(env, a), env, a),
        ),
    ensures
        config.in_effect(paths, env, a) == config.in_effect(paths, env, b),
{
    detect::law_cli_detection_looks_at(env, a, b);
    detect::law_model_detection_looks_at(config.cli_in_effect(env, a), env, a, b);
}

/// The value that is shown under a key's name is the value of that key, and there is one.
pub proof fn law_shown_value_is_that_of_its_key(config: EffectiveView, key: ConfigKey)
    ensures
        config.shown().contains(
            FieldView { name: key.spec_name(), value: config.value_of(key) },
        ),
        forall|i: int|
            0 <= i < config.shown().len() && (#[trigger] config.shown()[i]).name == key.spec_name()
                ==> config.shown()[i].value == config.value_of(key),
{
    let keys = all_keys();
    lemma_every_key(key);
    let i = choose|i: int| 0 <= i < keys.len() && keys[i] == key;
    assert(config.shown()[i] == FieldView { name: key.spec_name(), value: config.value_of(key) });
    assert forall|j: int|
        0 <= j < config.shown().len() && (#[trigger] config.shown()[j]).name
            == key.spec_name() implies config.shown()[j].value == config.value_of(key) by {
        if j < keys.len() {
            law_key_names_differ(keys[j], key);
        } else {
            lemma_config_file_is_no_key(key);
        }
    }
}

/// The configuration file is shown under a name of its own.
pub proof fn law_config_file_is_shown(config: EffectiveView, key: ConfigKey)
    ensures
        config.shown().last() == (FieldView {
            name: "config_file"@,
            value: JsonView::Text(config.config_file),
        }),
        key.spec_name() != "config_file"@,
{
    lemma_config_file_is_no_key(key);
}

proof fn lemma_config_file_is_no_key(key: ConfigKey)
    ensures
        key.spec_name() != "config_file"@,
{
    reveal_strlit("config_file");
    reveal_strlit("ffmpeg_path");
    reveal_strlit("whisper_cli_path");
    reveal_strlit("whisper_model_path");
    reveal_strlit("artifacts_dir");
    reveal_strlit("partial_interval_seconds");
    reveal_strlit("input_mode");
    reveal_strlit("display_id");
    reveal_strlit("microphone_device");
    reveal_strlit("system_device");
    reveal_strlit("single_input_device");
    assert("config_file"@[0] == 'c');
    assert(key.spec_name()[0] != 'c');
}

/// A value that is set is the one in effect: a path with its `~` expanded, and anything else as it
/// is.
pub proof fn law_set_value_is_in_effect(
    config: ConfigFileView,
    key: ConfigKey,
    raw: Seq<char>,
    paths: AppPaths,
    env: Environment,
    disk: Snapshot,
)
    ensures
        config.with(key, raw) matches Ok(changed) ==> changed.in_effect(
            paths,
            env,
            disk,
        ).value_of(key) == match key {
            ConfigKey::FfmpegPath
            | ConfigKey::WhisperCliPath
            | ConfigKey::WhisperModelPath
            | ConfigKey::ArtifactsDir => JsonView::Text(
                detect::expanded(raw, env.home.deep_view()),
            ),
            _ => changed.value_of(key),
        },
{
    text::lemma_parse_bound(raw, u64::MAX as nat);
}

/// No two keys have the same name.
pub proof fn law_key_names_differ(a: ConfigKey, b: ConfigKey)
    ensures
        a.spec_name() == b.spec_name() ==> a == b,
{
    reveal_strlit("ffmpeg_path");
    reveal_strlit("whisper_cli_path");
    reveal_strlit("whisper_model_path");
    reveal_strlit("artifacts_dir");
    reveal_strlit("partial_interval_seconds");
    reveal_strlit("input_mode");
    reveal_strlit("display_id");
    reveal_strlit("microphone_device");
    reveal_strlit("system_device");
    reveal_strlit("single_input_device");
    assert(a.spec_name() == b.spec_name() ==> a.spec_name().len() == b.spec_name().len()
        && a.spec_name()[0] == b.spec_name()[0]);
    assert("input_mode"@[0] == 'i');
    assert("display_id"@[0] == 'd');
    assert("artifacts_dir"@[0] == 'a');
    assert("system_device"@[0] == 's');
}

// ---------------------------------------------------------------------------------------------
// What the keys stand for
// ---------------------------------------------------------------------------------------------
/// What the keys and the modes are called.
pub proof fn law_keys_have_their_names()
    ensures
        ConfigKey::FfmpegPath.spec_name() == "ffmpeg_path"@,
        ConfigKey::WhisperCliPath.spec_name() == "whisper_cli_path"@,
        ConfigKey::WhisperModelPath.spec_name() == "whisper_model_path"@,
        ConfigKey::ArtifactsDir.spec_name() == "artifacts_dir"@,
        ConfigKey::PartialIntervalSeconds.spec_name() == "partial_interval_seconds"@,
        ConfigKey::InputMode.spec_name() == "input_mode"@,
        ConfigKey::DisplayId.spec_name() == "display_id"@,
        ConfigKey::MicrophoneDevice.spec_name() == "microphone_device"@,
        ConfigKey::SystemDevice.spec_name() == "system_device"@,
        ConfigKey::SingleInputDevice.spec_name() == "single_input_device"@,
        InputMode::MicSystemMix.spec_stored_name() == "mic_system_mix"@,
        InputMode::Microphone.spec_stored_name() == "microphone"@,
        InputMode::SystemAudio.spec_stored_name() == "system_audio"@,
        InputMode::SingleDevice.spec_stored_name() == "single_device"@,
{
}

/// Each key stands for the setting of its name, and one that is missing has no value; what is in
/// effect is told alike.
pub proof fn law_key_tells_its_setting(config: ConfigFileView, effective: EffectiveView)
    ensures
        config.value_of(ConfigKey::FfmpegPath) == JsonView::Text(config.ffmpeg_path),
        config.value_of(ConfigKey::WhisperCliPath) == json::optional_text(config.whisper_cli_path),
        config.value_of(ConfigKey::WhisperModelPath) == json::optional_text(
            config.whisper_model_path,
        ),
        config.value_of(ConfigKey::ArtifactsDir) == json::optional_text(config.artifacts_dir),
        config.value_of(ConfigKey::PartialIntervalSeconds) == JsonView::Number(
            config.partial_interval_seconds,
        ),
        config.value_of(ConfigKey::InputMode) == JsonView::Text(
            config.input_mode.spec_stored_name(),
        ),
        config.value_of(ConfigKey::DisplayId) == json::optional_number(config.display_id),
        config.value_of(ConfigKey::MicrophoneDevice) == json::optional_text(
            config.microphone_device,
        ),
        config.value_of(ConfigKey::SystemDevice) == json::optional_text(config.system_device),
        config.value_of(ConfigKey::SingleInputDevice) == json::optional_text(
            config.single_input_device,
        ),
        effective.value_of(ConfigKey::FfmpegPath) == JsonView::Text(effective.ffmpeg_path),
        effective.value_of(ConfigKey::WhisperCliPath) == json::optional_text(
            effective.whisper_cli_path,
        ),
        effective.value_of(ConfigKey::WhisperModelPath) == json::optional_text(
            effective.whisper_model_path,
        ),
        effective.value_of(ConfigKey::ArtifactsDir) == JsonView::Text(effective.artifacts_dir),
        effective.value_of(ConfigKey::PartialIntervalSeconds) == JsonView::Number(
            effective.partial_interval_seconds,
        ),
        effective.value_of(ConfigKey::InputMode) == JsonView::Text(
            effective.input_mode.spec_stored_name(),
        ),
        effective.value_of(ConfigKey::DisplayId) == json::optional_number(effective.display_id),
        effective.value_of(ConfigKey::MicrophoneDevice) == json::optional_text(
            effective.microphone_device,
        ),
        effective.value_of(ConfigKey::SystemDevice) == json::optional_text(
            effective.system_device,
        ),
        effective.value_of(ConfigKey::SingleInputDevice) == json::optional_text(
            effective.single_input_device,
        ),
{
}

/// What a program that was never configured works with.
pub proof fn law_defaults()
    ensures
        default_config().ffmpeg_path == "ffmpeg"@,
        default_config().partial_interval_seconds == 15,
        default_config().input_mode == InputMode::MicSystemMix,
        default_config().whisper_cli_path is None,
        default_config().whisper_model_path is None,
        default_config().artifacts_dir is None,
        default_config().display_id is None,
        default_config().microphone_device is None,
        default_config().system_device is None,
        default_config().single_input_device is None,
{
}

// ---------------------------------------------------------------------------------------------
// Which values are taken
// ---------------------------------------------------------------------------------------------
/// A text that is no number, or stands for none that fits, is refused where a number is wanted, and
/// so is an interval of no seconds; every other number is kept as it is.
pub proof fn law_numbers_are_read(config: ConfigFileView, raw: Seq<char>)
    ensures
        ({
            let changed = config.with(ConfigKey::PartialIntervalSeconds, raw);
            match text::spec_parse(raw, u64::MAX as nat) {
                Ok(n) => {
                    &&& n == 0 ==> changed == Err::<ConfigFileView, ErrorView>(
                        error::plain("partial interval must be at least 1 second"@),
                    )
                    &&& n > 0 ==> (changed matches Ok(after) && after.partial_interval_seconds == n)
                },
                Err(e) => changed == Err::<ConfigFileView, ErrorView>(
                    error::caused(
                        "partial interval must be an integer number of seconds"@,
                        e.spec_message(),
                    ),
                ),
            }
        }),
        ({
            let changed = config.with(ConfigKey::DisplayId, raw);
            match text::spec_parse(raw, u32::MAX as nat) {
                Ok(n) => changed matches Ok(after) && (after.display_id matches Some(id) && id == n),
                Err(e) => changed == Err::<ConfigFileView, ErrorView>(
                    error::caused("display ID must be an integer"@, e.spec_message()),
                ),
            }
        }),
{
    text::lemma_parse_bound(raw, u64::MAX as nat);
    text::lemma_parse_bound(raw, u32::MAX as nat);
}

/// Of the modes, the mix and the single device can be set, each by its name; every other text is
/// refused.
pub proof fn law_two_modes_can_be_set(config: ConfigFileView, raw: Seq<char>)
    ensures
        config.with(ConfigKey::InputMode, raw) is Ok <==> raw == "mic_system_mix"@ || raw
            == "single_device"@,
        raw == "mic_system_mix"@ ==> config.with(ConfigKey::InputMode, raw)->Ok_0.input_mode
            == InputMode::MicSystemMix,
        raw == "single_device"@ ==> config.with(ConfigKey::InputMode, raw)->Ok_0.input_mode
            == InputMode::SingleDevice,
        config.with(ConfigKey::InputMode, raw) matches Err(e) ==> e == error::plain(
            "input mode must be `mic_system_mix` or `single_device`"@,
        ),
{
    reveal_strlit("mic_system_mix");
    reveal_strlit("single_device");
    assert("mic_system_mix"@.len() == 14);
    assert("single_device"@.len() == 13);
}

/// A path or a device is kept as it was given, whatever it holds, and whatever was there before.
pub proof fn law_texts_are_kept(config: ConfigFileView, raw: Seq<char>)
    ensures
        config.with(ConfigKey::FfmpegPath, raw) matches Ok(after) && after.ffmpeg_path == raw,
        config.with(ConfigKey::WhisperCliPath, raw) matches Ok(after) && after.whisper_cli_path
            == Some(raw),
        config.with(ConfigKey::WhisperModelPath, raw) matches Ok(after) && after.whisper_model_path
            == Some(raw),
        config.with(ConfigKey::ArtifactsDir, raw) matches Ok(after) && after.artifacts_dir == Some(
            raw,
        ),
        config.with(ConfigKey::MicrophoneDevice, raw) matches Ok(after) && after.microphone_device
            == Some(raw),
        config.with(ConfigKey::SystemDevice, raw) matches Ok(after) && after.system_device == Some(
            raw,
        ),
        config.with(ConfigKey::SingleInputDevice, raw) matches Ok(after)
            && after.single_input_device == Some(raw),
{
}

// ---------------------------------------------------------------------------------------------
// What is read from the configuration file, and what is in effect
// ---------------------------------------------------------------------------------------------
/// What the configuration file may hold: under the interval and the display a number, under the mode
/// the name of one, under every other key a text; nothing at all under any of them.
pub proof fn law_configuration_file_may_hold(key: ConfigKey, s: Seq<char>, n: u64, b: bool)
    ensures
        key.takes(JsonView::Null),
        !key.takes(JsonView::Bool(b)),
        key.takes(JsonView::Number(n)) <==> key == ConfigKey::PartialIntervalSeconds || (key
            == ConfigKey::DisplayId && n <= 0xffff_ffff),
        key.takes(JsonView::Text(s)) <==> {
            &&& key != ConfigKey::PartialIntervalSeconds
            &&& key != ConfigKey::DisplayId
            &&& key == ConfigKey::InputMode ==> s == "mic_system_mix"@ || s == "microphone"@ || s
                == "system_audio"@ || s == "single_device"@
        },
{
}

proof fn lemma_some_unfit(fields: Seq<FieldView>, keys: Seq<ConfigKey>, key: ConfigKey)
    ensures
        first_unfit(fields, keys) matches Some(unfit) ==> keys.contains(unfit) && !unfit.takes(
            held(fields, unfit),
        ),
        keys.contains(key) && !key.takes(held(fields, key)) ==> first_unfit(fields, keys) is Some,
    decreases keys.len(),
{
    if keys.len() > 0 {
        let rest = keys.skip(1);
        lemma_some_unfit(fields, rest, key);
        assert(keys[0] == keys.first());
        if first_unfit(fields, rest) is Some {
            let unfit = first_unfit(fields, rest)->0;
            let i = choose|i: int| 0 <= i < rest.len() && rest[i] == unfit;
            assert(keys[i + 1] == unfit);
        }
        if keys.contains(key) {
            let i = choose|i: int| 0 <= i < keys.len() && keys[i] == key;
            if i > 0 {
                assert(rest[i - 1] == key);
            }
        }
    }
}

/// A configuration is read key by key: one that the configuration file holds has that value, and one
/// that it does not hold has its default. It is refused exactly if under some key it holds what it
/// may not, and such a key is named.
pub proof fn law_configuration_is_read_key_by_key(fields: Seq<FieldView>, key: ConfigKey)
    ensures
        loaded(fields) is Ok ==> key.takes(held(fields, key)),
        (forall|k: ConfigKey| #[trigger] k.takes(held(fields, k))) ==> loaded(fields) is Ok,
        loaded(fields) matches Ok(config) ==> config.value_of(key) == if held(fields, key)
            == JsonView::Null {
            default_config().value_of(key)
        } else {
            held(fields, key)
        },
        loaded(fields) matches Err(e) ==> exists|k: ConfigKey|
            !#[trigger] k.takes(held(fields, k)) && e == error::plain(
                "invalid value for `"@ + k.spec_name() + "`"@,
            ),
{
    let keys = all_keys();
    lemma_every_key(key);
    lemma_some_unfit(fields, keys, key);
    if forall|k: ConfigKey| #[trigger] k.takes(held(fields, k)) {
        lemma_all_fit(fields, keys);
    }
    if loaded(fields) is Ok {
        assert(key.takes(held(fields, key)));
        law_keys_have_their_names();
    }
}

/// What the configuration file is to hold: the value of every key that has one, under its name.
pub proof fn law_every_value_is_saved(config: ConfigFileView, key: ConfigKey)
    ensures
        held(config.saved(), key) == config.value_of(key),
{
    lemma_every_key(key);
    lemma_written_value(config, all_keys(), key);
}

/// What is in effect: every stored path with its `~` expanded; where no whisper-cli or model is
/// stored, the one that is found, the model for the whisper-cli in effect; where no directory of
/// sessions is stored, the one among the program's own state; an interval of at least a second; and
/// everything else as it is stored.
pub proof fn law_what_is_in_effect(
    config: ConfigFileView,
    paths: AppPaths,
    env: Environment,
    disk: Snapshot,
)
    ensures
        ({
            let effective = config.in_effect(paths, env, disk);
            let home = env.home.deep_view();
            &&& effective.ffmpeg_path == detect::expanded(config.ffmpeg_path, home)
            &&& config.whisper_cli_path is None ==> effective.whisper_cli_path
                == detect::detected_cli(env, disk)
            &&& config.whisper_model_path is None ==> effective.whisper_model_path
                == detect::detected_model(effective.whisper_cli_path, env, disk)
            &&& config.artifacts_dir matches Some(dir) ==> effective.artifacts_dir
                == detect::expanded(dir, home)
            &&& config.artifacts_dir is None ==> effective.artifacts_dir == path::spec_join(
                paths.config_dir@,
                "sessions"@,
            )
            &&& config.partial_interval_seconds == 0 ==> effective.partial_interval_seconds == 1
            &&& config.partial_interval_seconds > 0 ==> effective.partial_interval_seconds
                == config.partial_interval_seconds
            &&& effective.input_mode == config.input_mode
            &&& effective.display_id == config.display_id
            &&& effective.microphone_device == config.microphone_device
            &&& effective.system_device == config.system_device
            &&& effective.single_input_device == config.single_input_device
            &&& effective.config_file == paths.config_file@
        }),
{
}

/// The configuration lies in `config.toml` in the directory of the program's state.
pub proof fn law_configuration_lies_in_state(paths: AppPaths, base: Seq<char>)
    requires
        paths.lie_under(base),
    ensures
        paths.config_dir@ == base,
        path::components(paths.config_file@) == path::components(base).push("config.toml"@),
{
    reveal_strlit("config.toml");
    path::law_join_adds_component(base, "config.toml"@);
}

/// Seconds are kept as they are, but for none at all, which stands for one.
pub proof fn law_at_least_one_second(seconds: u64)
    ensures
        seconds > 0 ==> at_least_one(seconds) == seconds,
        at_least_one(0) == 1,
{
}

/// A configuration file that cannot be read as a configuration is named, with what is wrong in it; a
/// missing one is no failure.
pub proof fn law_unfit_configuration_is_named(fields: Seq<FieldView>, path: Seq<char>)
    ensures
        loaded(fields) matches Ok(config) ==> stored_config(Some(fields), path) == Ok::<
            ConfigFileView,
            ErrorView,
        >(config),
        loaded(fields) matches Err(e) ==> stored_config(Some(fields), path) == Err::<
            ConfigFileView,
            ErrorView,
        >(error::caused("failed to parse config file "@ + path, e.message)),
        stored_config(None, path) is Ok,
{
}

/// All that is in effect is shown: one value for each of the ten keys, and the configuration file.
pub proof fn law_everything_is_shown(config: EffectiveView)
    ensures
        config.shown().len() == 11,
        forall|i: int|
            0 <= i < 10 ==> (#[trigger] config.shown()[i]).name == all_keys()[i].spec_name()
                && config.shown()[i].value == config.value_of(all_keys()[i]),
{
}

/// Where no directory was found for the program's state, that is said of the program.
pub proof fn law_missing_directory_is_told(app_name: Seq<char>)
    ensures
        no_config_dir(app_name) == error::plain(
            "failed to determine config directory for "@ + app_name,
        ),
{
}

} // verus!
