//! Reading and changing the configuration from the command line, and how much is logged.
use crate::config::{ConfigFile, ConfigFileView, ConfigKey, EffectiveConfig, EffectiveView};
use crate::error::{Error, ErrorView};
use crate::json::Json;
use crate::text;
use vstd::prelude::*;

verus! {

/// What is asked of the configuration.
#[derive(Debug)]
pub enum ConfigCommand {
    /// The stored value of a key, or all values in effect.
    Show(Option<ConfigKey>),
    /// To give a key a value.
    Assign(ConfigKey, String),
    /// To give a key its default value.
    Reset(ConfigKey),
}

/// The configuration that a command leaves behind, where it changes it.
pub open spec fn changed_config(command: ConfigCommand, config: ConfigFileView) -> Result<
    Option<ConfigFileView>,
    ErrorView,
> {
    match command {
        ConfigCommand::Show(_) => Ok(None),
        ConfigCommand::Assign(key, value) => match config.with(key, value@) {
            Ok(after) => Ok(Some(after)),
            Err(e) => Err(e),
        },
        ConfigCommand::Reset(key) => Ok(Some(config.without(key))),
    }
}

/// The configuration that is to be stored after a command, where it changes it.
pub fn handle_config(command: &ConfigCommand, config: ConfigFile) -> (r: Result<
    Option<ConfigFile>,
    Error,
>)
    ensures
        match r {
            Ok(Some(after)) => changed_config(*command, config@) == Ok::<
                Option<ConfigFileView>,
                ErrorView,
            >(Some(after@)),
            Ok(None) => changed_config(*command, config@) == Ok::<
                Option<ConfigFileView>,
                ErrorView,
            >(None),
            Err(e) => changed_config(*command, config@) == Err::<
                Option<ConfigFileView>,
                ErrorView,
            >(e@),
        },
{
    match command {
        ConfigCommand::Show(_) => Ok(None),
        ConfigCommand::Assign(key, value) => {
            let mut after = config;
            match after.set_value(*key, value.as_str()) {
                Ok(()) => Ok(Some(after)),
                Err(e) => Err(e),
            }
        },
        ConfigCommand::Reset(key) => {
            let mut after = config;
            after.unset_value(*key);
            Ok(Some(after))
        },
    }
}

/// What is reported of a configuration command.
#[derive(Debug)]
pub enum ConfigReport {
    /// The stored value of one key.
    Value { object: &'static str, key: &'static str, value: Json },
    /// The configuration in effect.
    Whole { object: &'static str, config: EffectiveConfig },
}

/// Whether `report` is what is reported of a command that leaves `stored` behind and `config` in
/// effect: of a single key the stored value, and else the whole configuration in effect.
pub open spec fn reports_config(
    report: ConfigReport,
    command: ConfigCommand,
    stored: ConfigFileView,
    config: EffectiveView,
) -> bool {
    match (command, report) {
        (ConfigCommand::Show(Some(key)), ConfigReport::Value { object, key: name, value }) => {
            &&& object@ == "config_value"@
            &&& name@ == key.spec_name()
            &&& value.deep_view() == stored.value_of(key)
        },
        (ConfigCommand::Show(Some(_)), ConfigReport::Whole { .. }) => false,
        (_, ConfigReport::Whole { object, config: shown }) => {
            &&& object@ == "config"@
            &&& shown@ == config
        },
        _ => false,
    }
}

/// What is reported of a command, once `stored` is what is stored and `effective` what is in effect.
pub fn config_report(
    command: &ConfigCommand,
    stored: &ConfigFile,
    effective: EffectiveConfig,
) -> (r: ConfigReport)
    ensures
        reports_config(r, *command, stored@, effective@),
{
    match command {
        ConfigCommand::Show(Some(key)) => ConfigReport::Value {
            object: "config_value",
            key: key.as_str(),
            value: stored.stored_value(*key),
        },
        _ => ConfigReport::Whole { object: "config", config: effective },
    }
}

/// What is logged of this program, where the environment does not say: warnings, and more with each
/// time that more is asked for.
pub open spec fn log_filter(verbose: u8) -> Seq<char> {
    "scribecli="@ + if verbose == 0 {
        "warn"@
    } else if verbose == 1 {
        "info"@
    } else {
        "debug"@
    }
}

/// What is logged of this program, where the environment does not say.
pub fn default_log_filter(verbose: u8) -> (r: String)
    ensures
        r@ == log_filter(verbose),
{
    let level = match verbose {
        0 => "warn",
        1 => "info",
        _ => "debug",
    };
    text::cat2("scribecli=", level)
}

// ---------------------------------------------------------------------------------------------
// Laws
// ---------------------------------------------------------------------------------------------
/// Reading the configuration never changes it, and a value that is refused changes nothing.
pub proof fn law_only_accepted_changes_are_stored(command: ConfigCommand, config: ConfigFileView)
    ensures
        command is Show ==> changed_config(command, config) == Ok::<
            Option<ConfigFileView>,
            ErrorView,
        >(None),
        changed_config(command, config) matches Ok(Some(after)) ==> match command {
            ConfigCommand::Show(_) => false,
            ConfigCommand::Assign(key, value) => config.with(key, value@) == Ok::<
                ConfigFileView,
                ErrorView,
            >(after),
            ConfigCommand::Reset(key) => after == config.without(key),
        },
{
}

/// A value that is assigned is stored under its key, and under no other; a key that is reset has its
/// default again; and a value that is refused is refused with what is wrong with it.
pub proof fn law_command_changes_its_key(
    command: ConfigCommand,
    config: ConfigFileView,
    other: ConfigKey,
)
    ensures
        command matches ConfigCommand::Assign(key, value) ==> {
            &&& config.with(key, value@) matches Ok(after) ==> changed_config(command, config)
                == Ok::<Option<ConfigFileView>, ErrorView>(Some(after))
            &&& config.with(key, value@) matches Err(e) ==> changed_config(command, config)
                == Err::<Option<ConfigFileView>, ErrorView>(e)
            &&& changed_config(command, config) matches Ok(Some(after)) ==> (other != key
                ==> after.value_of(other) == config.value_of(other))
        },
        command matches ConfigCommand::Reset(key) ==> (changed_config(command, config) matches Ok(
            Some(after),
        ) && {
            &&& after.value_of(key) == crate::config::default_config().value_of(key)
            &&& other != key ==> after.value_of(other) == config.value_of(other)
        }),
{
}

/// Of a single key, the stored value is told, under the key's name; else the whole configuration in
/// effect is.
pub proof fn law_report_tells_of_the_key(
    report: ConfigReport,
    command: ConfigCommand,
    stored: ConfigFileView,
    config: EffectiveView,
)
    requires
        reports_config(report, command, stored, config),
    ensures
        command matches ConfigCommand::Show(Some(key)) ==> (report matches ConfigReport::Value {
            object,
            key: name,
            value,
        } && object@ == "config_value"@ && name@ == key.spec_name() && value.deep_view() == stored.value_of(key)),
        !(command matches ConfigCommand::Show(Some(_))) ==> (report matches ConfigReport::Whole {
            object,
            config: shown,
        } && object@ == "config"@ && shown@ == config),
{
}

/// Nothing less is logged where more is asked for: warnings, then what happens, then every detail.
pub proof fn law_more_is_logged_when_asked(verbose: u8)
    ensures
        log_filter(0) == "scribecli="@ + "warn"@,
        log_filter(1) == "scribecli="@ + "info"@,
        verbose >= 2 ==> log_filter(verbose) == "scribecli="@ + "debug"@,
{
}

} // verus!
