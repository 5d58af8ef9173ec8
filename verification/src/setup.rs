//! Setting up: which model and which whisper-cli come under the program's own management, and how.
use crate::config;
use crate::config::{AppPaths, ConfigFile, ConfigFileView, EffectiveConfig};
use crate::detect;
use crate::disk;
use crate::disk::{Environment, PathKind, Snapshot};
use crate::encoding;
use crate::error;
use crate::error::{Error, ErrorView};
use crate::path;
use crate::text;
use vstd::prelude::*;

verus! {

// ---------------------------------------------------------------------------------------------
// Managed models
// ---------------------------------------------------------------------------------------------
/// A model that can be downloaded.
#[derive(Debug, Clone, Copy, PartialEq, Eq, Structural)]
pub enum ManagedModel {
    BaseEn,
    SmallEn,
    MediumEn,
    LargeV3Turbo,
}

/// The model to download where none is asked for.
pub const DEFAULT_MODEL: ManagedModel = ManagedModel::SmallEn;

/// The model whose file has this name.
pub open spec fn model_by_file(name: Seq<char>) -> Option<ManagedModel> {
    if name == ManagedModel::BaseEn.spec_file_name() {
        Some(ManagedModel::BaseEn)
    } else if name == ManagedModel::SmallEn.spec_file_name() {
        Some(ManagedModel::SmallEn)
    } else if name == ManagedModel::MediumEn.spec_file_name() {
        Some(ManagedModel::MediumEn)
    } else if name == ManagedModel::LargeV3Turbo.spec_file_name() {
        Some(ManagedModel::LargeV3Turbo)
    } else {
        None
    }
}

/// The model whose file `path` names.
pub open spec fn model_by_path(path: Seq<char>) -> Option<ManagedModel> {
    match path::spec_unicode_name(path) {
        Some(name) => model_by_file(name),
        None => None,
    }
}

/// The model that is called `raw` on the command line, or whose file `raw` names.
pub open spec fn model_by_input(raw: Seq<char>) -> Option<ManagedModel> {
    if raw == ManagedModel::BaseEn.spec_cli_name() {
        Some(ManagedModel::BaseEn)
    } else if raw == ManagedModel::SmallEn.spec_cli_name() {
        Some(ManagedModel::SmallEn)
    } else if raw == ManagedModel::MediumEn.spec_cli_name() {
        Some(ManagedModel::MediumEn)
    } else if raw == ManagedModel::LargeV3Turbo.spec_cli_name() {
        Some(ManagedModel::LargeV3Turbo)
    } else {
        model_by_path(raw)
    }
}

impl ManagedModel {
    /// The model's name on the command line.
    pub open spec fn spec_cli_name(self) -> Seq<char> {
        match self {
            ManagedModel::BaseEn => "base-en"@,
            ManagedModel::SmallEn => "small-en"@,
            ManagedModel::MediumEn => "medium-en"@,
            ManagedModel::LargeV3Turbo => "large-v3-turbo"@,
        }
    }

    /// The name of the model's file.
    pub open spec fn spec_file_name(self) -> Seq<char> {
        match self {
            ManagedModel::BaseEn => "ggml-base.en.bin"@,
            ManagedModel::SmallEn => "ggml-small.en.bin"@,
            ManagedModel::MediumEn => "ggml-medium.en.bin"@,
            ManagedModel::LargeV3Turbo => "ggml-large-v3-turbo.bin"@,
        }
    }

    /// Where the model's file can be downloaded.
    pub open spec fn spec_download_url(self) -> Seq<char> {
        "https://huggingface.co/ggerganov/whisper.cpp/resolve/main/"@ + self.spec_file_name()
            + "?download=true"@
    }

    /// The model's name on the command line.
    pub fn cli_name(self) -> (r: &'static str)
        ensures
            r@ == self.spec_cli_name(),
    {
        match self {
            ManagedModel::BaseEn => "base-en",
            ManagedModel::SmallEn => "small-en",
            ManagedModel::MediumEn => "medium-en",
            ManagedModel::LargeV3Turbo => "large-v3-turbo",
        }
    }

    /// The name of the model's file.
    pub fn file_name(self) -> (r: &'static str)
        ensures
            r@ == self.spec_file_name(),
    {
        match self {
            ManagedModel::BaseEn => "ggml-base.en.bin",
            ManagedModel::SmallEn => "ggml-small.en.bin",
            ManagedModel::MediumEn => "ggml-medium.en.bin",
            ManagedModel::LargeV3Turbo => "ggml-large-v3-turbo.bin",
        }
    }

    /// Where the model's file can be downloaded.
    pub fn download_url(self) -> (r: String)
        ensures
            r@ == self.spec_download_url(),
    {
        text::cat3(
            "https://huggingface.co/ggerganov/whisper.cpp/resolve/main/",
            self.file_name(),
            "?download=true",
        )
    }

    /// The model whose file a path names.
    pub fn from_file_name(path: &str) -> (r: Option<ManagedModel>)
        ensures
            r == model_by_path(path@),
    {
        match path::unicode_name(path) {
            Some(name) => {
                if text::same(name.as_str(), "ggml-base.en.bin") {
                    Some(ManagedModel::BaseEn)
                } else if text::same(name.as_str(), "ggml-small.en.bin") {
                    Some(ManagedModel::SmallEn)
                } else if text::same(name.as_str(), "ggml-medium.en.bin") {
                    Some(ManagedModel::MediumEn)
                } else if text::same(name.as_str(), "ggml-large-v3-turbo.bin") {
                    Some(ManagedModel::LargeV3Turbo)
                } else {
                    None
                }
            },
            None => None,
        }
    }

    /// The model that is called so on the command line, or whose file is named.
    pub fn from_cli_input(raw: &str) -> (r: Option<ManagedModel>)
        ensures
            r == model_by_input(raw@),
    {
        if text::same(raw, "base-en") {
            Some(ManagedModel::BaseEn)
        } else if text::same(raw, "small-en") {
            Some(ManagedModel::SmallEn)
        } else if text::same(raw, "medium-en") {
            Some(ManagedModel::MediumEn)
        } else if text::same(raw, "large-v3-turbo") {
            Some(ManagedModel::LargeV3Turbo)
        } else {
            ManagedModel::from_file_name(raw)
        }
    }
}

// ---------------------------------------------------------------------------------------------
// Choosing a model
// ---------------------------------------------------------------------------------------------
/// Which model to manage, and where it can come from.
#[derive(Debug)]
pub struct ModelSelection {
    /// The name of its file.
    pub file_name: String,
    /// A file to copy it from.
    pub copy_source: Option<String>,
    /// The model to download it as.
    pub download_model: Option<ManagedModel>,
}

/// What a [`ModelSelection`] holds.
pub struct SelectionView {
    pub file_name: Seq<char>,
    pub copy_source: Option<Seq<char>>,
    pub download_model: Option<ManagedModel>,
}

impl View for ModelSelection {
    type V = SelectionView;

    open spec fn view(&self) -> SelectionView {
        SelectionView {
            file_name: self.file_name@,
            copy_source: self.copy_source.deep_view(),
            download_model: self.download_model,
        }
    }
}

/// The model to manage. The one that is asked for comes from the existing file only where that has
/// its name; where none is asked for, it is the existing one, and without one the default.
pub open spec fn selection_of(
    requested: Option<ManagedModel>,
    existing: Option<Seq<char>>,
) -> Result<SelectionView, ErrorView> {
    match (requested, existing) {
        (Some(model), _) => Ok(
            SelectionView {
                file_name: model.spec_file_name(),
                copy_source: match existing {
                    Some(path) => if path::spec_unicode_name(path) == Some(model.spec_file_name()) {
                        Some(path)
                    } else {
                        None
                    },
                    None => None,
                },
                download_model: Some(model),
            },
        ),
        (None, Some(path)) => match path::spec_unicode_name(path) {
            Some(name) => Ok(
                SelectionView {
                    file_name: name,
                    copy_source: Some(path),
                    download_model: model_by_file(name),
                },
            ),
            None => Err(error::plain("existing model path has no file name"@)),
        },
        (None, None) => Ok(
            SelectionView {
                file_name: DEFAULT_MODEL.spec_file_name(),
                copy_source: None,
                download_model: Some(DEFAULT_MODEL),
            },
        ),
    }
}

/// The model to manage, given the one that is asked for and an existing model file.
pub fn resolve_model_selection(
    requested_model: Option<ManagedModel>,
    existing_model_path: Option<&str>,
) -> (r: Result<ModelSelection, Error>)
    ensures
        match r {
            Ok(selection) => selection_of(requested_model, existing_model_path.deep_view()) == Ok::<
                SelectionView,
                ErrorView,
            >(selection@),
            Err(e) => selection_of(requested_model, existing_model_path.deep_view()) == Err::<
                SelectionView,
                ErrorView,
            >(e@),
        },
{
    if let Some(model) = requested_model {
        let copy_source = match existing_model_path {
            Some(path) => match path::unicode_name(path) {
                Some(name) => if text::same(name.as_str(), model.file_name()) {
                    Some(path.to_owned())
                } else {
                    None
                },
                None => None,
            },
            None => None,
        };
        return Ok(
            ModelSelection {
                file_name: model.file_name().to_owned(),
                copy_source,
                download_model: Some(model),
            },
        );
    }
    if let Some(path) = existing_model_path {
        return match path::unicode_name(path) {
            Some(name) => Ok(
                ModelSelection {
                    download_model: ManagedModel::from_file_name(path),
                    file_name: name,
                    copy_source: Some(path.to_owned()),
                },
            ),
            None => Err(Error::new("existing model path has no file name".to_owned())),
        };
    }
    Ok(
        ModelSelection {
            file_name: DEFAULT_MODEL.file_name().to_owned(),
            copy_source: None,
            download_model: Some(DEFAULT_MODEL),
        },
    )
}

/// How a managed model came to be there.
#[derive(Debug, Clone, Copy, PartialEq, Eq, Structural)]
pub enum ModelAction {
    ReusedManaged,
    CopiedExisting,
    Downloaded,
}

/// What is to be done to put a model in its place.
#[derive(Debug)]
pub enum Transfer {
    /// Nothing: it is there.
    Nothing,
    /// Copy this file.
    CopyFrom(String),
    /// Download this address.
    DownloadFrom(String),
}

/// What a [`Transfer`] holds.
pub enum TransferView {
    Nothing,
    CopyFrom(Seq<char>),
    DownloadFrom(Seq<char>),
}

impl View for Transfer {
    type V = TransferView;

    open spec fn view(&self) -> TransferView {
        match self {
            Transfer::Nothing => TransferView::Nothing,
            Transfer::CopyFrom(path) => TransferView::CopyFrom(path@),
            Transfer::DownloadFrom(url) => TransferView::DownloadFrom(url@),
        }
    }
}

/// A managed model.
#[derive(Debug)]
pub struct ManagedModelInstall {
    /// The path of its file.
    pub path: String,
    /// How it comes to be there.
    pub action: ModelAction,
    /// The name of its file.
    pub model_name: String,
    /// What is left to be done for it to be there.
    pub transfer: Transfer,
}

/// What a [`ManagedModelInstall`] holds.
pub struct InstallView {
    pub path: Seq<char>,
    pub action: ModelAction,
    pub model_name: Seq<char>,
    pub transfer: TransferView,
}

impl View for ManagedModelInstall {
    type V = InstallView;

    open spec fn view(&self) -> InstallView {
        InstallView {
            path: self.path@,
            action: self.action,
            model_name: self.model_name@,
            transfer: self.transfer@,
        }
    }
}

/// How a selected model comes under `dir`: it is reused where it is there already, else copied where
/// there is a file to copy, else downloaded. A forced download is neither reused nor copied.
pub open spec fn install_of(
    dir: Seq<char>,
    selection: SelectionView,
    force_download: bool,
    disk: Snapshot,
) -> Result<InstallView, ErrorView> {
    let target = path::spec_join(dir, selection.file_name);
    if disk.has_file(target) && !force_download {
        Ok(
            InstallView {
                path: target,
                action: ModelAction::ReusedManaged,
                model_name: selection.file_name,
                transfer: TransferView::Nothing,
            },
        )
    } else if selection.copy_source is Some && !force_download {
        Ok(
            InstallView {
                path: target,
                action: ModelAction::CopiedExisting,
                model_name: selection.file_name,
                transfer: TransferView::CopyFrom(selection.copy_source->0),
            },
        )
    } else {
        match selection.download_model {
            Some(model) => Ok(
                InstallView {
                    path: target,
                    action: ModelAction::Downloaded,
                    model_name: selection.file_name,
                    transfer: TransferView::DownloadFrom(model.spec_download_url()),
                },
            ),
            None => Err(
                error::plain("no download URL is available for "@ + selection.file_name),
            ),
        }
    }
}

/// The model that comes under `dir`, or why none does.
pub open spec fn managed_install(
    dir: Seq<char>,
    requested: Option<ManagedModel>,
    force_download: bool,
    existing: Option<Seq<char>>,
    disk: Snapshot,
) -> Result<InstallView, ErrorView> {
    match selection_of(requested, existing) {
        Ok(selection) => install_of(dir, selection, force_download, disk),
        Err(e) => Err(e),
    }
}

/// How a model comes under a directory: the model itself, and what is to be done for it.
pub fn install_model(
    managed_model_dir: &str,
    requested_model: Option<ManagedModel>,
    force_download: bool,
    existing_model_path: Option<&str>,
    disk: &Snapshot,
) -> (r: Result<ManagedModelInstall, Error>)
    ensures
        match r {
            Ok(install) => managed_install(
                managed_model_dir@,
                requested_model,
                force_download,
                existing_model_path.deep_view(),
                *disk,
            ) == Ok::<InstallView, ErrorView>(install@),
            Err(e) => managed_install(
                managed_model_dir@,
                requested_model,
                force_download,
                existing_model_path.deep_view(),
                *disk,
            ) == Err::<InstallView, ErrorView>(e@),
        },
{
    let selection = match resolve_model_selection(requested_model, existing_model_path) {
        Ok(selection) => selection,
        Err(e) => {
            return Err(e);
        },
    };
    let target = path::join(managed_model_dir, selection.file_name.as_str());
    if disk.is_file(target.as_str()) && !force_download {
        return Ok(
            ManagedModelInstall {
                path: target,
                action: ModelAction::ReusedManaged,
                model_name: selection.file_name,
                transfer: Transfer::Nothing,
            },
        );
    }
    if !force_download {
        if let Some(source) = selection.copy_source {
            return Ok(
                ManagedModelInstall {
                    path: target,
                    action: ModelAction::CopiedExisting,
                    model_name: selection.file_name,
                    transfer: Transfer::CopyFrom(source),
                },
            );
        }
    }
    match selection.download_model {
        Some(model) => Ok(
            ManagedModelInstall {
                path: target,
                action: ModelAction::Downloaded,
                model_name: selection.file_name,
                transfer: Transfer::DownloadFrom(model.download_url()),
            },
        ),
        None => Err(
            Error::new(
                text::cat2("no download URL is available for ", selection.file_name.as_str()),
            ),
        ),
    }
}

/// The managed model under a directory, and what is to be done for it to be there.
pub fn ensure_managed_model(
    managed_model_dir: &str,
    requested_model: Option<ManagedModel>,
    force_download: bool,
    existing_model_path: Option<&str>,
    disk: &Snapshot,
) -> (r: Result<ManagedModelInstall, Error>)
    ensures
        match r {
            Ok(install) => managed_install(
                managed_model_dir@,
                requested_model,
                force_download,
                existing_model_path.deep_view(),
                *disk,
            ) == Ok::<InstallView, ErrorView>(install@),
            Err(e) => managed_install(
                managed_model_dir@,
                requested_model,
                force_download,
                existing_model_path.deep_view(),
                *disk,
            ) == Err::<InstallView, ErrorView>(e@),
        },
{
    install_model(managed_model_dir, requested_model, force_download, existing_model_path, disk)
}

/// Where a file is written while it is downloaded, before it is moved to `destination`.
pub open spec fn download_place(destination: Seq<char>) -> Seq<char> {
    path::spec_with_extension(destination, "download"@)
}

/// Where a file is written while it is downloaded, before it is moved to `destination`.
pub fn download_temp_path(destination: &str) -> (r: String)
    ensures
        r@ == download_place(destination@),
        r@ == path::spec_with_extension(destination@, "download"@),
{
    path::with_extension(destination, "download")
}

/// The path that is configured, if a regular file stands there.
pub open spec fn if_file(configured: Option<Seq<char>>, disk: Snapshot) -> Option<Seq<char>> {
    match configured {
        Some(path) => if disk.has_file(path) {
            Some(path)
        } else {
            None
        },
        None => None,
    }
}

fn keep_file(configured: &Option<String>, disk: &Snapshot) -> (r: Option<String>)
    ensures
        r.deep_view() == if_file(configured.deep_view(), *disk),
{
    match configured {
        Some(path) => if disk.is_file(path.as_str()) {
            Some(path.clone())
        } else {
            None
        },
        None => None,
    }
}

/// The configured model, if its file is there.
pub fn existing_model_path(config: &EffectiveConfig, disk: &Snapshot) -> (r: Option<String>)
    ensures
        r.deep_view() == if_file(config@.whisper_model_path, *disk),
{
    keep_file(&config.whisper_model_path, disk)
}

/// The configured whisper-cli, if its file is there.
pub fn existing_cli_path(config: &EffectiveConfig, disk: &Snapshot) -> (r: Option<String>)
    ensures
        r.deep_view() == if_file(config@.whisper_cli_path, *disk),
{
    keep_file(&config.whisper_cli_path, disk)
}

/// What the choice of a managed model looks at: the configured model, and the file of each model that
/// may come under `dir`.
pub open spec fn paths_for_install(
    dir: Seq<char>,
    requested: Option<ManagedModel>,
    configured: Option<Seq<char>>,
) -> Seq<Seq<char>> {
    let wanted = match requested {
        Some(model) => model,
        None => DEFAULT_MODEL,
    };
    let named = seq![path::spec_join(dir, wanted.spec_file_name())];
    match configured {
        Some(path) => match path::spec_unicode_name(path) {
            Some(name) => named.push(path).push(path::spec_join(dir, name)),
            None => named.push(path),
        },
        None => named,
    }
}

/// The paths to look at before a managed model is chosen.
pub fn install_paths(
    managed_model_dir: &str,
    requested_model: Option<ManagedModel>,
    config: &EffectiveConfig,
) -> (r: Vec<String>)
    ensures
        r.deep_view() == paths_for_install(
            managed_model_dir@,
            requested_model,
            config@.whisper_model_path,
        ),
{
    let wanted = match requested_model {
        Some(model) => model,
        None => DEFAULT_MODEL,
    };
    let mut paths: Vec<String> = Vec::new();
    let named = path::join(managed_model_dir, wanted.file_name());
    text::push_text(&mut paths, named.as_str());
    assert(paths.deep_view() =~= seq![named@]);
    if let Some(configured) = &config.whisper_model_path {
        text::push_text(&mut paths, configured.as_str());
        if let Some(name) = path::unicode_name(configured.as_str()) {
            text::push_text(&mut paths, path::join(managed_model_dir, name.as_str()).as_str());
        }
    }
    paths
}

// ---------------------------------------------------------------------------------------------
// The tool
// ---------------------------------------------------------------------------------------------
/// The path, if it is one of those at which a working whisper-cli answered.
pub open spec fn if_working(path: Option<Seq<char>>, working: Seq<Seq<char>>) -> Option<Seq<char>> {
    match path {
        Some(path) => if working.contains(path) {
            Some(path)
        } else {
            None
        },
        None => None,
    }
}

/// The whisper-cli to wrap: the configured one, if it is there and works, and else the one that is
/// found, if that works.
pub open spec fn cli_source(
    configured: Option<Seq<char>>,
    working: Seq<Seq<char>>,
    env: Environment,
    disk: Snapshot,
) -> Option<Seq<char>> {
    match if_working(if_file(configured, disk), working) {
        Some(path) => Some(path),
        None => if_working(detect::detected_cli(env, disk), working),
    }
}

fn is_listed(path: &str, working: &Vec<String>) -> (r: bool)
    ensures
        r == working.deep_view().contains(path@),
{
    let mut i: usize = 0;
    while i < working.len()
        invariant
            i <= working@.len(),
            forall|k: int| 0 <= k < i ==> working.deep_view()[k] != path@,
        decreases working@.len() - i,
    {
        assert(working.deep_view()[i as int] == working@[i as int]@);
        if text::same(working[i].as_str(), path) {
            return true;
        }
        i = i + 1;
    }
    false
}

fn keep_working(path: Option<String>, working: &Vec<String>) -> (r: Option<String>)
    ensures
        r.deep_view() == if_working(path.deep_view(), working.deep_view()),
{
    match path {
        Some(path) => if is_listed(path.as_str(), working) {
            Some(path)
        } else {
            None
        },
        None => None,
    }
}

/// The whisper-cli to wrap, given the paths at which a working one answered.
pub fn existing_cli_source(
    config: &EffectiveConfig,
    working: &Vec<String>,
    env: &Environment,
    disk: &Snapshot,
) -> (r: Option<String>)
    ensures
        r.deep_view() == cli_source(
            config@.whisper_cli_path,
            working.deep_view(),
            *env,
            *disk,
        ),
{
    match keep_working(existing_cli_path(config, disk), working) {
        Some(path) => Some(path),
        None => keep_working(detect::detect_whisper_cli_path(env, disk), working),
    }
}

/// What [`cli_source`] looks at: everywhere that a whisper-cli is looked for, and the configured one.
pub open spec fn paths_for_cli_source(
    configured: Option<Seq<char>>,
    env: Environment,
    disk: Snapshot,
) -> Seq<Seq<char>> {
    match configured {
        Some(path) => detect::cli_candidates(env, disk).push(path),
        None => detect::cli_candidates(env, disk),
    }
}

/// The paths to look at before a whisper-cli to wrap is chosen.
pub fn cli_source_paths(config: &EffectiveConfig, env: &Environment, disk: &Snapshot) -> (r: Vec<
    String,
>)
    ensures
        r.deep_view() == paths_for_cli_source(config@.whisper_cli_path, *env, *disk),
{
    let mut paths = detect::whisper_cli_candidates(env, disk);
    if let Some(configured) = &config.whisper_cli_path {
        text::push_text(&mut paths, configured.as_str());
    }
    paths
}

/// The paths at which a working whisper-cli matters: the configured one, if it is there, and the one
/// that is found.
pub open spec fn sources_to_try(
    configured: Option<Seq<char>>,
    env: Environment,
    disk: Snapshot,
) -> Seq<Seq<char>> {
    let first = match if_file(configured, disk) {
        Some(path) => seq![path],
        None => Seq::empty(),
    };
    match detect::detected_cli(env, disk) {
        Some(path) => first.push(path),
        None => first,
    }
}

/// The paths at which to see whether a whisper-cli works before one to wrap is chosen.
pub fn cli_sources_to_try(config: &EffectiveConfig, env: &Environment, disk: &Snapshot) -> (r: Vec<
    String,
>)
    ensures
        r.deep_view() == sources_to_try(config@.whisper_cli_path, *env, *disk),
{
    let mut out: Vec<String> = Vec::new();
    if let Some(path) = existing_cli_path(config, disk) {
        text::push_text(&mut out, path.as_str());
    }
    assert(out.deep_view() =~= match if_file(config@.whisper_cli_path, *disk) {
        Some(path) => seq![path],
        None => Seq::empty(),
    });
    if let Some(path) = detect::detect_whisper_cli_path(env, disk) {
        text::push_text(&mut out, path.as_str());
    }
    out
}

/// How the managed whisper-cli comes to be there.
#[derive(Debug, Clone, Copy, PartialEq, Eq, Structural)]
pub enum CliAction {
    ReusedManaged,
    WrappedExisting,
}

/// What is to be done for a managed whisper-cli.
#[derive(Debug)]
pub struct CliPlan {
    /// Whether what stands in its place is to be removed first, if that can be done.
    pub remove_stale: bool,
    /// The whisper-cli, or why there is none.
    pub outcome: Result<CliInstall, Error>,
}

/// A managed whisper-cli.
#[derive(Debug)]
pub struct CliInstall {
    /// Its path.
    pub path: Option<String>,
    /// How it comes to be there.
    pub action: CliAction,
    /// The script to write at its path, where one is to be written.
    pub script: Option<String>,
}

/// What a [`CliInstall`] holds.
pub struct CliInstallView {
    pub path: Option<Seq<char>>,
    pub action: CliAction,
    pub script: Option<Seq<char>>,
}

impl View for CliInstall {
    type V = CliInstallView;

    open spec fn view(&self) -> CliInstallView {
        CliInstallView {
            path: self.path.deep_view(),
            action: self.action,
            script: self.script.deep_view(),
        }
    }
}

/// `source` in single quotes for the shell, without the outer ones.
pub open spec fn shell_escaped(source: Seq<char>) -> Seq<char> {
    text::spec_replace(source, "'"@, "'\\''"@)
}

/// The script that runs the program at `source`, as that path is shown, with its own arguments.
pub open spec fn wrapper_script(source: Seq<char>) -> Seq<char> {
    "#!/bin/sh\nexec '"@ + shell_escaped(encoding::shown(source)) + "' \"$@\"\n"@
}

/// The script that runs a program with its own arguments.
pub fn cli_wrapper_script(source: &str) -> (r: String)
    ensures
        r@ == wrapper_script(source@),
{
    proof {
        reveal_strlit("'");
    }
    let source = encoding::shown_text(source);
    let escaped = text::replace(source.as_str(), "'", "'\\''");
    text::cat3("#!/bin/sh\nexec '", escaped.as_str(), "' \"$@\"\n")
}

/// The failure to find any whisper-cli.
pub open spec fn no_cli() -> ErrorView {
    error::plain(
        "whisper-cli was not found. Use a bundled scribecli release, or install whisper-cpp first, for example `brew install whisper-cpp`, then rerun `scribecli setup`"@,
    )
}

/// The managed whisper-cli in `bin_dir`. One that is there as a regular file and works is reused;
/// else the existing one is wrapped.
pub open spec fn cli_install_of(
    bin_dir: Seq<char>,
    reusable: bool,
    existing: Option<Seq<char>>,
) -> Result<CliInstallView, ErrorView> {
    let target = path::spec_join(bin_dir, "whisper-cli"@);
    if reusable {
        Ok(
            CliInstallView {
                path: Some(target),
                action: CliAction::ReusedManaged,
                script: None,
            },
        )
    } else {
        match existing {
            Some(source) => Ok(
                CliInstallView {
                    path: Some(target),
                    action: CliAction::WrappedExisting,
                    script: Some(wrapper_script(source)),
                },
            ),
            None => Err(no_cli()),
        }
    }
}

/// Whether what stands in the place of the managed whisper-cli is kept.
pub open spec fn is_kept(standing: PathKind, works: bool) -> bool {
    standing == PathKind::File && works
}

/// Whether what stands in the place of the managed whisper-cli is removed first.
pub open spec fn is_cleared(standing: PathKind, works: bool) -> bool {
    standing != PathKind::Missing && !is_kept(standing, works)
}

/// The path of the managed whisper-cli.
pub fn managed_cli_path(managed_bin_dir: &str) -> (r: String)
    ensures
        r@ == path::spec_join(managed_bin_dir@, "whisper-cli"@),
{
    path::join(managed_bin_dir, "whisper-cli")
}

/// What is to be done for a managed whisper-cli, given what stands in its place, whether that works,
/// and an existing whisper-cli to wrap.
pub fn install_cli(
    managed_bin_dir: &str,
    standing: PathKind,
    works: bool,
    existing_cli_path: Option<String>,
) -> (r: CliPlan)
    ensures
        r.remove_stale == (standing != PathKind::Missing && !(standing == PathKind::File && works)),
        r.remove_stale == is_cleared(standing, works),
        is_kept(standing, works) == (r.outcome matches Ok(install) && install.action
            == CliAction::ReusedManaged),
        match r.outcome {
            Ok(install) => cli_install_of(
                managed_bin_dir@,
                standing == PathKind::File && works,
                existing_cli_path.deep_view(),
            ) == Ok::<CliInstallView, ErrorView>(install@),
            Err(e) => cli_install_of(
                managed_bin_dir@,
                standing == PathKind::File && works,
                existing_cli_path.deep_view(),
            ) == Err::<CliInstallView, ErrorView>(e@),
        },
{
    let target = managed_cli_path(managed_bin_dir);
    if standing == PathKind::File && works {
        return CliPlan {
            remove_stale: false,
            outcome: Ok(
                CliInstall {
                    path: Some(target),
                    action: CliAction::ReusedManaged,
                    script: None,
                },
            ),
        };
    }
    let remove_stale = standing != PathKind::Missing;
    let outcome = match existing_cli_path {
        Some(source) => Ok(
            CliInstall {
                path: Some(target),
                action: CliAction::WrappedExisting,
                script: Some(cli_wrapper_script(source.as_str())),
            },
        ),
        None => Err(
            Error::new(
                "whisper-cli was not found. Use a bundled scribecli release, or install whisper-cpp first, for example `brew install whisper-cpp`, then rerun `scribecli setup`".to_owned(),
            ),
        ),
    };
    CliPlan { remove_stale, outcome }
}

// ---------------------------------------------------------------------------------------------
// Managed models on disk
// ---------------------------------------------------------------------------------------------
/// Whether a path whose file name is `a` is listed before one whose file name is `b`. A path
/// without a file name is listed before all others.
pub open spec fn name_before(a: Option<Seq<char>>, b: Option<Seq<char>>) -> bool {
    match (a, b) {
        (Some(a), Some(b)) => text::comes_before(a, b),
        (None, Some(_)) => true,
        (_, None) => false,
    }
}

/// Whether `a` is listed before `b`.
pub open spec fn listed_before(a: Seq<char>, b: Seq<char>) -> bool {
    name_before(path::spec_unicode_name(a), path::spec_unicode_name(b))
}

/// `list` with `path` put behind all that it is not listed before.
pub open spec fn with_listed(list: Seq<Seq<char>>, path: Seq<char>) -> Seq<Seq<char>>
    decreases list.len(),
{
    if list.len() == 0 || !listed_before(path, list.last()) {
        list.push(path)
    } else {
        with_listed(list.drop_last(), path).push(list.last())
    }
}

/// `paths` by file name; those of one file name in the order in which they came.
pub open spec fn by_file_name(paths: Seq<Seq<char>>) -> Seq<Seq<char>>
    decreases paths.len(),
{
    if paths.len() == 0 {
        Seq::empty()
    } else {
        with_listed(by_file_name(paths.drop_last()), paths.last())
    }
}

fn is_listed_before(a: &str, b: &str) -> (r: bool)
    ensures
        r == listed_before(a@, b@),
{
    match (path::unicode_name(a), path::unicode_name(b)) {
        (Some(a), Some(b)) => text::before(a.as_str(), b.as_str()),
        (None, Some(_)) => true,
        (_, None) => false,
    }
}

fn insert_listed(list: &mut Vec<String>, path: String)
    ensures
        final(list).deep_view() == with_listed(old(list).deep_view(), path@),
{
    let ghost all = list.deep_view();
    let ghost shown = path@;
    let mut at: usize = list.len();
    assert(all.take(all.len() as int) =~= all);
    assert(with_listed(all, shown) + all.skip(all.len() as int) =~= with_listed(all, shown));
    while at > 0 && is_listed_before(path.as_str(), list[at - 1].as_str())
        invariant
            at <= list@.len(),
            all == list.deep_view(),
            shown == path@,
            with_listed(all, shown) == with_listed(all.take(at as int), shown) + all.skip(
                at as int,
            ),
        decreases at,
    {
        assert(all.take(at as int).last() == list@[at - 1]@);
        assert(all.take(at as int).drop_last() =~= all.take(at - 1));
        assert(with_listed(all.take(at - 1), shown).push(all[at - 1]) + all.skip(at as int)
            =~= with_listed(all.take(at - 1), shown) + all.skip(at - 1));
        at = at - 1;
    }
    if at > 0 {
        assert(all.take(at as int).last() == list@[at - 1]@);
    }
    list.insert(at, path);
    assert(list.deep_view() =~= all.take(at as int).push(shown) + all.skip(at as int));
}

/// Paths by file name.
pub fn sort_by_file_name(paths: &Vec<String>) -> (r: Vec<String>)
    ensures
        r.deep_view() == by_file_name(paths.deep_view()),
{
    let ghost all = paths.deep_view();
    let mut out: Vec<String> = Vec::new();
    let mut i: usize = 0;
    assert(out.deep_view() =~= by_file_name(all.take(0)));
    while i < paths.len()
        invariant
            i <= paths@.len(),
            all == paths.deep_view(),
            out.deep_view() == by_file_name(all.take(i as int)),
        decreases paths@.len() - i,
    {
        assert(all.take(i + 1).drop_last() =~= all.take(i as int));
        assert(all.take(i + 1).last() == paths@[i as int]@);
        insert_listed(&mut out, paths[i].clone());
        i = i + 1;
    }
    assert(all.take(i as int) =~= all);
    out
}

/// The managed models in `dir`, where that is present. `listing` is what reading it gave: the files
/// in it, or why it could not be read.
pub open spec fn managed_models(
    dir: Seq<char>,
    present: bool,
    listing: Result<Vec<String>, String>,
) -> Result<Seq<Seq<char>>, ErrorView> {
    if !present {
        Ok(Seq::empty())
    } else {
        match listing {
            Ok(files) => Ok(by_file_name(files.deep_view())),
            Err(fault) => Err(error::caused("failed to read "@ + dir, fault@)),
        }
    }
}

/// The managed models in a directory, by file name.
pub fn list_managed_model_paths(
    managed_model_dir: &str,
    present: bool,
    listing: &Result<Vec<String>, String>,
) -> (r: Result<Vec<String>, Error>)
    ensures
        match r {
            Ok(paths) => managed_models(managed_model_dir@, present, *listing) == Ok::<
                Seq<Seq<char>>,
                ErrorView,
            >(paths.deep_view()),
            Err(e) => managed_models(managed_model_dir@, present, *listing) == Err::<
                Seq<Seq<char>>,
                ErrorView,
            >(e@),
        },
{
    if !present {
        let none: Vec<String> = Vec::new();
        assert(none.deep_view() =~= Seq::empty());
        return Ok(none);
    }
    match listing {
        Ok(files) => Ok(sort_by_file_name(files)),
        Err(fault) => Err(
            Error::with_cause(text::cat2("failed to read ", managed_model_dir), fault.clone()),
        ),
    }
}

// ---------------------------------------------------------------------------------------------
// The report
// ---------------------------------------------------------------------------------------------
/// What is asked of a setup.
#[derive(Debug)]
pub struct SetupArgs {
    /// The model to manage.
    pub model: Option<ManagedModel>,
    /// Whether to download it even if a managed copy is there.
    pub force_download: bool,
}

/// What a setup did.
#[derive(Debug)]
pub struct SetupReport {
    pub object: &'static str,
    pub ok: bool,
    pub managed_bin_dir: String,
    pub managed_model_dir: String,
    pub whisper_cli_path: Option<String>,
    pub whisper_cli_action: CliAction,
    pub whisper_model_path: String,
    pub model_action: ModelAction,
    pub model_name: String,
    pub config_file: String,
    pub warnings: Vec<String>,
}

/// What a [`SetupReport`] holds.
pub struct SetupReportView {
    pub object: Seq<char>,
    pub ok: bool,
    pub managed_bin_dir: Seq<char>,
    pub managed_model_dir: Seq<char>,
    pub whisper_cli_path: Option<Seq<char>>,
    pub whisper_cli_action: CliAction,
    pub whisper_model_path: Seq<char>,
    pub model_action: ModelAction,
    pub model_name: Seq<char>,
    pub config_file: Seq<char>,
    pub warnings: Seq<Seq<char>>,
}

impl View for SetupReport {
    type V = SetupReportView;

    open spec fn view(&self) -> SetupReportView {
        SetupReportView {
            object: self.object@,
            ok: self.ok,
            managed_bin_dir: self.managed_bin_dir@,
            managed_model_dir: self.managed_model_dir@,
            whisper_cli_path: self.whisper_cli_path.deep_view(),
            whisper_cli_action: self.whisper_cli_action,
            whisper_model_path: self.whisper_model_path@,
            model_action: self.model_action,
            model_name: self.model_name@,
            config_file: self.config_file@,
            warnings: self.warnings.deep_view(),
        }
    }
}

/// The directory of managed programs.
pub fn managed_bin_dir(paths: &AppPaths) -> (r: String)
    ensures
        r@ == path::spec_join(paths.config_dir@, "bin"@),
{
    path::join(paths.config_dir.as_str(), "bin")
}

/// The directory of managed models.
pub fn managed_model_dir(paths: &AppPaths) -> (r: String)
    ensures
        r@ == path::spec_join(paths.config_dir@, "models"@),
{
    path::join(paths.config_dir.as_str(), "models")
}

/// The configuration that a setup leaves behind.
pub open spec fn config_after_setup(
    config: ConfigFileView,
    cli: CliInstallView,
    model: InstallView,
) -> ConfigFileView {
    ConfigFileView {
        whisper_model_path: Some(model.path),
        whisper_cli_path: cli.path,
        ..config
    }
}

/// What a setup reports.
pub open spec fn setup_report(
    paths: AppPaths,
    cli: CliInstallView,
    model: InstallView,
) -> SetupReportView {
    SetupReportView {
        object: "setup"@,
        ok: true,
        managed_bin_dir: path::spec_join(paths.config_dir@, "bin"@),
        managed_model_dir: path::spec_join(paths.config_dir@, "models"@),
        whisper_cli_path: cli.path,
        whisper_cli_action: cli.action,
        whisper_model_path: model.path,
        model_action: model.action,
        model_name: model.model_name,
        config_file: paths.config_file@,
        warnings: Seq::empty(),
    }
}

/// The configuration that a setup leaves behind, and what it reports, given the whisper-cli and the
/// model that it came by.
pub fn run_setup(
    paths: &AppPaths,
    config: ConfigFile,
    cli: &CliInstall,
    model: &ManagedModelInstall,
) -> (r: (ConfigFile, SetupReport))
    ensures
        r.0@ == config_after_setup(config@, cli@, model@),
        r.1@ == setup_report(*paths, cli@, model@),
{
    let after = ConfigFile {
        ffmpeg_path: config.ffmpeg_path,
        whisper_cli_path: cli.path.clone(),
        whisper_model_path: Some(model.path.clone()),
        artifacts_dir: config.artifacts_dir,
        partial_interval_seconds: config.partial_interval_seconds,
        input_mode: config.input_mode,
        display_id: config.display_id,
        microphone_device: config.microphone_device,
        system_device: config.system_device,
        single_input_device: config.single_input_device,
    };
    let warnings: Vec<String> = Vec::new();
    assert(warnings.deep_view() =~= Seq::empty());
    let report = SetupReport {
        object: "setup",
        ok: true,
        managed_bin_dir: managed_bin_dir(paths),
        managed_model_dir: managed_model_dir(paths),
        whisper_cli_path: cli.path.clone(),
        whisper_cli_action: cli.action,
        whisper_model_path: model.path.clone(),
        model_action: model.action,
        model_name: model.model_name.clone(),
        config_file: paths.config_file.clone(),
        warnings,
    };
    (after, report)
}

// ---------------------------------------------------------------------------------------------
// Laws
// ---------------------------------------------------------------------------------------------
proof fn lemma_model_names(model: ManagedModel)
    ensures
        path::is_plain_name(model.spec_file_name()),
        model_by_file(model.spec_file_name()) == Some(model),
{
    reveal_strlit("ggml-base.en.bin");
    reveal_strlit("ggml-small.en.bin");
    reveal_strlit("ggml-medium.en.bin");
    reveal_strlit("ggml-large-v3-turbo.bin");
    assert("ggml-base.en.bin"@.len() == 16);
    assert("ggml-small.en.bin"@.len() == 17);
    assert("ggml-medium.en.bin"@.len() == 18);
    assert("ggml-large-v3-turbo.bin"@.len() == 23);
    let name = model.spec_file_name();
    assert forall|i: int| 0 <= i < name.len() implies name[i] != '/' by {}
}

/// Which model comes under management, and how, depends on nothing on disk but what is at the paths
/// that were looked at.
pub proof fn law_install_looks_at(
    dir: Seq<char>,
    requested: Option<ManagedModel>,
    force_download: bool,
    configured: Option<Seq<char>>,
    a: Snapshot,
    b: Snapshot,
)
    requires
        disk::agree_on(a, b, paths_for_install(dir, requested, configured)),
    ensures
        managed_install(dir, requested, force_download, if_file(configured, a), a)
            == managed_install(dir, requested, force_download, if_file(configured, b), b),
{
    let looked_at = paths_for_install(dir, requested, configured);
    assert(looked_at.contains(looked_at[0]));
    if configured is Some {
        assert(looked_at.contains(looked_at[1]));
        assert(looked_at.contains(looked_at.last()));
    }
}

/// Which whisper-cli is wrapped depends on nothing on disk but what the running program's path stands
/// for and what is at the paths that were looked at, and of the tools on nothing but whether those
/// work that were tried.
pub proof fn law_cli_source_looks_at(
    configured: Option<Seq<char>>,
    env: Environment,
    a: Snapshot,
    b: Snapshot,
    working: Seq<Seq<char>>,
    others: Seq<Seq<char>>,
)
    requires
        disk::agree_on_target(a, b, env.current_exe.deep_view()),
        disk::agree_on(a, b, paths_for_cli_source(configured, env, a)),
        forall|p: Seq<char>| #[trigger]
            sources_to_try(configured, env, a).contains(p) ==> working.contains(p)
                == others.contains(p),
    ensures
        cli_source(configured, working, env, a) == cli_source(configured, others, env, b),
{
    let looked_at = paths_for_cli_source(configured, env, a);
    let found = detect::cli_candidates(env, a);
    assert forall|p: Seq<char>| #[trigger] found.contains(p) implies looked_at.contains(p) by {
        let i = choose|i: int| 0 <= i < found.len() && found[i] == p;
        assert(looked_at[i] == p);
    }
    detect::law_cli_detection_looks_at(env, a, b);
    if configured is Some {
        assert(looked_at.contains(looked_at.last()));
    }
    let tried = sources_to_try(configured, env, a);
    if if_file(configured, a) is Some {
        assert(tried.contains(tried[0]));
    }
    if detect::detected_cli(env, a) is Some {
        assert(tried.contains(tried.last()));
    }
}

/// Every managed model is found by its name on the command line, by the name of its file, and by
/// the path of its file in any directory.
pub proof fn law_models_are_found(model: ManagedModel, dir: Seq<char>)
    ensures
        model_by_input(model.spec_cli_name()) == Some(model),
        model_by_input(model.spec_file_name()) == Some(model),
        model_by_path(path::spec_join(dir, model.spec_file_name())) == Some(model),
{
    lemma_model_names(model);
    lemma_file_name_is_input(model);
    path::law_join_file_name(dir, model.spec_file_name());
    reveal_strlit("base-en");
    reveal_strlit("small-en");
    reveal_strlit("medium-en");
    reveal_strlit("large-v3-turbo");
    assert("base-en"@.len() == 7);
    assert("small-en"@.len() == 8);
    assert("medium-en"@.len() == 9);
    assert("large-v3-turbo"@.len() == 14);
}

proof fn lemma_file_name_is_input(model: ManagedModel)
    ensures
        model_by_input(model.spec_file_name()) == Some(model),
{
    let name = model.spec_file_name();
    lemma_model_names(model);
    path::law_join_file_name(Seq::empty(), name);
    assert(path::spec_join(Seq::empty(), name) =~= name);
    reveal_strlit("base-en");
    reveal_strlit("small-en");
    reveal_strlit("medium-en");
    reveal_strlit("large-v3-turbo");
    reveal_strlit("ggml-base.en.bin");
    reveal_strlit("ggml-small.en.bin");
    reveal_strlit("ggml-medium.en.bin");
    reveal_strlit("ggml-large-v3-turbo.bin");
    assert("base-en"@.len() < 16);
    assert("small-en"@.len() < 16);
    assert("medium-en"@.len() < 16);
    assert("large-v3-turbo"@.len() < 16);
    assert(name.len() >= 16);
}

/// A model comes to lie in the managed directory, under its own name.
pub proof fn law_model_is_installed_in_its_directory(
    dir: Seq<char>,
    requested: Option<ManagedModel>,
    force_download: bool,
    existing: Option<Seq<char>>,
    disk: Snapshot,
)
    ensures
        managed_install(dir, requested, force_download, existing, disk) matches Ok(install) ==> {
            &&& path::spec_lies_within(install.path, dir)
            &&& path::spec_unicode_name(install.path) == Some(install.model_name)
        },
{
    match (requested, existing) {
        (Some(model), _) => {
            lemma_model_names(model);
            path::law_join_adds_component(dir, model.spec_file_name());
            path::law_join_file_name(dir, model.spec_file_name());
        },
        (None, Some(path)) => {
            path::lemma_file_name_is_plain(path);
            if path::spec_unicode_name(path) is Some {
                path::law_join_adds_component(dir, path::spec_unicode_name(path)->0);
                path::law_join_file_name(dir, path::spec_unicode_name(path)->0);
            }
        },
        (None, None) => {
            lemma_model_names(DEFAULT_MODEL);
            path::law_join_adds_component(dir, DEFAULT_MODEL.spec_file_name());
            path::law_join_file_name(dir, DEFAULT_MODEL.spec_file_name());
        },
    }
}

/// A model that is asked for is always to be had, and is the one that is installed.
pub proof fn law_requested_model_is_installed(
    dir: Seq<char>,
    model: ManagedModel,
    force_download: bool,
    existing: Option<Seq<char>>,
    disk: Snapshot,
)
    ensures
        managed_install(dir, Some(model), force_download, existing, disk) matches Ok(install) && {
            &&& install.model_name == model.spec_file_name()
            &&& model_by_path(install.path) == Some(model)
        },
{
    law_models_are_found(model, dir);
}

/// A forced download downloads, and nothing is downloaded or copied over a managed copy without
/// one.
pub proof fn law_force_decides_over_managed_copy(
    dir: Seq<char>,
    selection: SelectionView,
    disk: Snapshot,
)
    requires
        disk.has_file(path::spec_join(dir, selection.file_name)),
    ensures
        install_of(dir, selection, false, disk) matches Ok(install) && install.transfer
            == TransferView::Nothing,
        install_of(dir, selection, true, disk) matches Ok(install) ==> install.transfer
            is DownloadFrom,
{
}

/// A second installation of what was installed finds it in place.
pub proof fn law_installation_is_idempotent(
    dir: Seq<char>,
    requested: Option<ManagedModel>,
    force_download: bool,
    existing: Option<Seq<char>>,
    disk: Snapshot,
    later: Snapshot,
)
    requires
        managed_install(dir, requested, force_download, existing, disk) matches Ok(install)
            && later.has_file(install.path),
    ensures
        managed_install(dir, requested, false, existing, later) matches Ok(install) && {
            &&& install.transfer == TransferView::Nothing
            &&& install.path == managed_install(
                dir,
                requested,
                force_download,
                existing,
                disk,
            )->Ok_0.path
        },
{
}

/// The word that a shell reads from `s`, where all of `s` makes up one word of single-quoted and
/// backslash-escaped characters. `quoted` says whether a single quote is open.
pub open spec fn shell_word(s: Seq<char>, quoted: bool) -> Option<Seq<char>>
    decreases s.len(),
{
    if s.len() == 0 {
        if quoted {
            None
        } else {
            Some(Seq::empty())
        }
    } else if s[0] == '\'' {
        shell_word(s.skip(1), !quoted)
    } else if quoted {
        match shell_word(s.skip(1), true) {
            Some(rest) => Some(seq![s[0]] + rest),
            None => None,
        }
    } else if s[0] == '\\' && s.len() >= 2 {
        match shell_word(s.skip(2), false) {
            Some(rest) => Some(seq![s[1]] + rest),
            None => None,
        }
    } else {
        None
    }
}

proof fn lemma_escaped_word(source: Seq<char>)
    ensures
        shell_word(shell_escaped(source) + "'"@, true) == Some(source),
    decreases source.len(),
{
    reveal_strlit("'");
    reveal_strlit("'\\''");
    let needle = "'"@;
    let with = "'\\''"@;
    let tail = shell_escaped(source) + needle;
    if source.len() == 0 {
        assert(source =~= Seq::empty());
        assert(tail =~= needle);
        assert(tail.skip(1) =~= Seq::empty());
        assert(shell_word(tail.skip(1), false) == Some(Seq::<char>::empty()));
    } else {
        let rest = source.skip(1);
        lemma_escaped_word(rest);
        let quoted_rest = shell_escaped(rest) + needle;
        assert(source =~= seq![source[0]] + rest);
        if source[0] == '\'' {
            assert(source.subrange(0, 1) =~= needle);
            assert(text::occurs_at(source, needle, 0));
            assert(tail =~= with + quoted_rest);
            let a = tail.skip(1);
            let b = a.skip(2);
            assert(b.skip(1) =~= quoted_rest);
            assert(shell_word(b, false) == shell_word(b.skip(1), true));
            assert(shell_word(a, false) == Some(seq!['\''] + rest));
            assert(shell_word(tail, true) == shell_word(a, false));
        } else {
            assert(source.subrange(0, 1)[0] != needle[0]);
            assert(!text::occurs_at(source, needle, 0));
            assert(tail =~= seq![source[0]] + quoted_rest);
            assert(tail.skip(1) =~= quoted_rest);
        }
    }
}

/// The wrapper script runs its source, whatever characters the source's path holds, as long as they
/// are Unicode: what stands between `exec` and the arguments is one word, and a shell reads that word
/// as the path.
pub proof fn law_wrapper_runs_its_source(source: Seq<char>)
    requires
        encoding::is_unicode(source),
    ensures
        wrapper_script(source) == "#!/bin/sh\nexec "@ + ("'"@ + shell_escaped(source) + "'"@)
            + " \"$@\"\n"@,
        shell_word("'"@ + shell_escaped(source) + "'"@, false) == Some(source),
{
    reveal_strlit("#!/bin/sh\nexec '");
    reveal_strlit("#!/bin/sh\nexec ");
    reveal_strlit("'");
    reveal_strlit("' \"$@\"\n");
    reveal_strlit(" \"$@\"\n");
    assert("#!/bin/sh\nexec '"@ =~= "#!/bin/sh\nexec "@ + "'"@);
    assert("' \"$@\"\n"@ =~= "'"@ + " \"$@\"\n"@);
    assert(wrapper_script(source) =~= "#!/bin/sh\nexec "@ + ("'"@ + shell_escaped(source) + "'"@)
        + " \"$@\"\n"@);
    let word = "'"@ + shell_escaped(source) + "'"@;
    lemma_escaped_word(source);
    assert(word.skip(1) =~= shell_escaped(source) + "'"@);
}

proof fn lemma_listed_before_transitive(a: Seq<char>, b: Seq<char>, c: Seq<char>)
    requires
        !listed_before(b, a),
        !listed_before(c, b),
    ensures
        !listed_before(c, a),
{
    let x = path::spec_unicode_name(a);
    let y = path::spec_unicode_name(b);
    let z = path::spec_unicode_name(c);
    if listed_before(c, a) && x is Some && y is Some && z is Some {
        text::lemma_before_total(x->0, y->0);
        if x->0 != y->0 {
            text::lemma_before_transitive(z->0, x->0, y->0);
        }
    }
}

/// Whether no path of `list` is listed before one that stands ahead of it.
pub open spec fn is_by_file_name(list: Seq<Seq<char>>) -> bool {
    forall|i: int, j: int| 0 <= i < j < list.len() ==> !listed_before(list[j], list[i])
}

proof fn lemma_with_listed(list: Seq<Seq<char>>, path: Seq<char>)
    requires
        is_by_file_name(list),
    ensures
        is_by_file_name(with_listed(list, path)),
        with_listed(list, path).to_multiset() == list.to_multiset().insert(path),
    decreases list.len(),
{
    broadcast use vstd::seq_lib::group_to_multiset_ensures;

    let all = with_listed(list, path);
    if list.len() == 0 || !listed_before(path, list.last()) {
        assert forall|i: int, j: int| 0 <= i < j < all.len() implies !listed_before(
            all[j],
            all[i],
        ) by {
            if j == list.len() && i < list.len() - 1 {
                assert(!listed_before(list.last(), list[i]));
                lemma_listed_before_transitive(list[i], list.last(), path);
            }
        }
    } else {
        let rest = list.drop_last();
        assert forall|i: int, j: int| 0 <= i < j < rest.len() implies !listed_before(
            rest[j],
            rest[i],
        ) by {
            assert(rest[j] == list[j]);
        }
        lemma_with_listed(rest, path);
        let front = with_listed(rest, path);
        assert forall|i: int, j: int| 0 <= i < j < all.len() implies !listed_before(
            all[j],
            all[i],
        ) by {
            if j == front.len() {
                assert(front.to_multiset().count(front[i]) > 0) by {
                    assert(front.contains(front[i]));
                }
                if front[i] != path {
                    assert(rest.to_multiset().count(front[i]) > 0);
                    assert(rest.contains(front[i]));
                    let k = choose|k: int| 0 <= k < rest.len() && rest[k] == front[i];
                    assert(rest[k] == list[k]);
                } else {
                    lemma_not_before_both(path, list.last());
                }
            }
        }
        assert(list =~= rest.push(list.last()));
        assert(list.to_multiset() =~= rest.to_multiset().insert(list.last()));
        assert(all.to_multiset() =~= list.to_multiset().insert(path));
    }
}

proof fn lemma_not_before_both(a: Seq<char>, b: Seq<char>)
    requires
        listed_before(a, b),
    ensures
        !listed_before(b, a),
{
    let x = path::spec_unicode_name(a);
    let y = path::spec_unicode_name(b);
    if x is Some && y is Some && text::comes_before(y->0, x->0) {
        text::lemma_before_transitive(x->0, y->0, x->0);
        text::lemma_before_irreflexive(x->0);
    }
}

/// A listing holds each path as often as it was found, and none is listed before one that stands
/// ahead of it.
pub proof fn law_listing_is_sorted(paths: Seq<Seq<char>>)
    ensures
        is_by_file_name(by_file_name(paths)),
        by_file_name(paths).to_multiset() == paths.to_multiset(),
    decreases paths.len(),
{
    broadcast use vstd::seq_lib::group_to_multiset_ensures;

    if paths.len() > 0 {
        law_listing_is_sorted(paths.drop_last());
        lemma_with_listed(by_file_name(paths.drop_last()), paths.last());
        assert(paths =~= paths.drop_last().push(paths.last()));
    } else {
        assert(paths =~= Seq::empty());
    }
}

/// A setup changes nothing of the configuration but the paths of the tool and of the model, and
/// those are the ones it reports.
pub proof fn law_setup_configures_what_it_reports(
    config: ConfigFileView,
    paths: AppPaths,
    cli: CliInstallView,
    model: InstallView,
    key: config::ConfigKey,
)
    ensures
        key != config::ConfigKey::WhisperCliPath && key != config::ConfigKey::WhisperModelPath
            ==> config_after_setup(config, cli, model).value_of(key) == config.value_of(key),
        config_after_setup(config, cli, model).whisper_cli_path == setup_report(
            paths,
            cli,
            model,
        ).whisper_cli_path,
        config_after_setup(config, cli, model).whisper_model_path == Some(
            setup_report(paths, cli, model).whisper_model_path,
        ),
{
}

/// A path is that of a managed model's file exactly if its file name is the one that the model's file
/// has; no path is that of two models' files.
pub proof fn law_models_are_told_by_file(path: Seq<char>, model: ManagedModel)
    ensures
        model_by_path(path) == Some(model) <==> path::spec_unicode_name(path) == Some(
            model.spec_file_name(),
        ),
        model_by_path(path) is None <==> forall|m: ManagedModel|
            path::spec_unicode_name(path) != Some(#[trigger] m.spec_file_name()),
{
    lemma_model_names(model);
    lemma_model_names(ManagedModel::BaseEn);
    lemma_model_names(ManagedModel::SmallEn);
    lemma_model_names(ManagedModel::MediumEn);
    lemma_model_names(ManagedModel::LargeV3Turbo);
    if model_by_path(path) is Some {
        let found = model_by_path(path)->0;
        assert(path::spec_unicode_name(path) == Some(found.spec_file_name()));
    }
}

/// What the managed models are called, and where they come from: the file of each lies under its own
/// name at the place from which all are downloaded.
pub proof fn law_models_have_their_names(model: ManagedModel)
    ensures
        ManagedModel::BaseEn.spec_cli_name() == "base-en"@,
        ManagedModel::SmallEn.spec_cli_name() == "small-en"@,
        ManagedModel::MediumEn.spec_cli_name() == "medium-en"@,
        ManagedModel::LargeV3Turbo.spec_cli_name() == "large-v3-turbo"@,
        ManagedModel::BaseEn.spec_file_name() == "ggml-base.en.bin"@,
        ManagedModel::SmallEn.spec_file_name() == "ggml-small.en.bin"@,
        ManagedModel::MediumEn.spec_file_name() == "ggml-medium.en.bin"@,
        ManagedModel::LargeV3Turbo.spec_file_name() == "ggml-large-v3-turbo.bin"@,
        model.spec_download_url()
            == "https://huggingface.co/ggerganov/whisper.cpp/resolve/main/"@
            + model.spec_file_name() + "?download=true"@,
{
}

/// A name stands for a managed model exactly if it is what the model is called on the command line
/// or its last component is the name of the model's file.
pub proof fn law_models_are_told_by_name(raw: Seq<char>, model: ManagedModel)
    ensures
        raw == model.spec_cli_name() ==> model_by_input(raw) == Some(model),
        (forall|m: ManagedModel| raw != #[trigger] m.spec_cli_name()) ==> (model_by_input(raw)
            == Some(model) <==> path::spec_unicode_name(raw) == Some(model.spec_file_name())),
        model_by_input(raw) == Some(model) ==> raw == model.spec_cli_name()
            || path::spec_unicode_name(raw) == Some(model.spec_file_name()),
{
    law_models_are_found(model, Seq::empty());
    law_models_are_told_by_file(raw, model);
    if forall|m: ManagedModel| raw != #[trigger] m.spec_cli_name() {
        assert(raw != ManagedModel::BaseEn.spec_cli_name());
        assert(raw != ManagedModel::SmallEn.spec_cli_name());
        assert(raw != ManagedModel::MediumEn.spec_cli_name());
        assert(raw != ManagedModel::LargeV3Turbo.spec_cli_name());
    }
}

/// How a model that is asked for comes to lie in its place: it is kept where it is there; else it is
/// copied from the model in use, exactly if that is a file of its name; else it is downloaded. A
/// forced download downloads it in any case.
pub proof fn law_requested_model_comes_from(
    dir: Seq<char>,
    model: ManagedModel,
    force_download: bool,
    existing: Option<Seq<char>>,
    disk: Snapshot,
)
    ensures
        ({
            let target = path::spec_join(dir, model.spec_file_name());
            let installed = managed_install(dir, Some(model), force_download, existing, disk);
            &&& installed matches Ok(install) && {
                &&& install.path == target
                &&& install.model_name == model.spec_file_name()
                &&& !force_download && disk.has_file(target) ==> install.action
                    == ModelAction::ReusedManaged && install.transfer == TransferView::Nothing
                &&& !force_download && !disk.has_file(target) ==> (existing matches Some(path) ==> (
                path::spec_unicode_name(path) == Some(model.spec_file_name()) ==> install.action
                    == ModelAction::CopiedExisting && install.transfer == TransferView::CopyFrom(
                    path,
                )))
                &&& force_download || (!disk.has_file(target) && (existing matches Some(path)
                    ==> path::spec_unicode_name(path) != Some(model.spec_file_name())))
                    ==> install.action == ModelAction::Downloaded && install.transfer
                    == TransferView::DownloadFrom(
                    "https://huggingface.co/ggerganov/whisper.cpp/resolve/main/"@
                        + model.spec_file_name() + "?download=true"@,
                )
            }
        }),
{
}

/// Where no model is asked for, the model in use comes under management under its own name: it is
/// kept where it is there, and else copied. A forced download is refused for a model that cannot be
/// downloaded.
pub proof fn law_model_in_use_is_taken_over(
    dir: Seq<char>,
    force_download: bool,
    existing: Seq<char>,
    disk: Snapshot,
)
    ensures
        path::spec_unicode_name(existing) is None ==> managed_install(
            dir,
            None,
            force_download,
            Some(existing),
            disk,
        ) == Err::<InstallView, ErrorView>(error::plain("existing model path has no file name"@)),
        path::spec_unicode_name(existing) matches Some(name) ==> {
            let target = path::spec_join(dir, name);
            let installed = managed_install(dir, None, force_download, Some(existing), disk);
            &&& installed matches Ok(install) ==> install.path == target && install.model_name
                == name
            &&& !force_download && disk.has_file(target) ==> (installed matches Ok(install)
                && install.transfer == TransferView::Nothing && install.action
                == ModelAction::ReusedManaged)
            &&& !force_download && !disk.has_file(target) ==> (installed matches Ok(install)
                && install.transfer == TransferView::CopyFrom(existing) && install.action
                == ModelAction::CopiedExisting)
            &&& force_download ==> (installed is Ok <==> model_by_path(existing) is Some)
            &&& force_download && installed is Err ==> installed == Err::<InstallView, ErrorView>(
                error::plain("no download URL is available for "@ + name),
            )
            &&& force_download ==> (installed matches Ok(install) ==> install.action
                == ModelAction::Downloaded && install.transfer == TransferView::DownloadFrom(
                "https://huggingface.co/ggerganov/whisper.cpp/resolve/main/"@ + name
                    + "?download=true"@,
            ))
        },
{
    if path::spec_unicode_name(existing) is Some && model_by_path(existing) is Some {
        law_models_are_told_by_file(existing, model_by_path(existing)->0);
    }
}

/// Where no model is asked for and none is in use, it is as if the small English one were asked for.
pub proof fn law_default_model_is_small(dir: Seq<char>, force_download: bool, disk: Snapshot)
    ensures
        managed_install(dir, None, force_download, None, disk) == managed_install(
            dir,
            Some(ManagedModel::SmallEn),
            force_download,
            None,
            disk,
        ),
{
}

/// The whisper-cli to wrap is the configured one where that is a file and works, whatever else is
/// found; else it is the one that is found, where that works; else there is none.
pub proof fn law_configured_cli_is_preferred(
    configured: Option<Seq<char>>,
    working: Seq<Seq<char>>,
    env: Environment,
    disk: Snapshot,
)
    ensures
        configured matches Some(path) ==> (disk.has_file(path) && working.contains(path)
            ==> cli_source(configured, working, env, disk) == Some(path)),
        (configured matches Some(path) ==> !(disk.has_file(path) && working.contains(path))) ==> {
            &&& detect::detected_cli(env, disk) matches Some(found) ==> cli_source(
                configured,
                working,
                env,
                disk,
            ) == if working.contains(found) {
                Some(found)
            } else {
                None
            }
            &&& detect::detected_cli(env, disk) is None ==> cli_source(
                configured,
                working,
                env,
                disk,
            ) is None
        },
{
}

/// A managed whisper-cli that works is kept as it is; else the existing one is wrapped, by a script
/// in its place; and where there is neither, that is said.
pub proof fn law_working_cli_is_kept(
    bin_dir: Seq<char>,
    existing: Option<Seq<char>>,
    source: Seq<char>,
)
    ensures
        cli_install_of(bin_dir, true, existing) matches Ok(install) && {
            &&& install.path == Some(path::spec_join(bin_dir, "whisper-cli"@))
            &&& install.action == CliAction::ReusedManaged
            &&& install.script is None
        },
        cli_install_of(bin_dir, false, Some(source)) matches Ok(install) && {
            &&& install.path == Some(path::spec_join(bin_dir, "whisper-cli"@))
            &&& install.action == CliAction::WrappedExisting
            &&& install.script == Some(wrapper_script(source))
        },
        cli_install_of(bin_dir, false, None) is Err,
{
}

/// A listing goes by file name: of two paths with file names, the one that stands behind the other
/// has no name that comes before. A directory that is not there holds no models, and where a present
/// one cannot be read, that is said.
pub proof fn law_models_are_listed_by_name(
    dir: Seq<char>,
    present: bool,
    listing: Result<Vec<String>, String>,
    i: int,
    j: int,
)
    ensures
        managed_models(dir, false, listing) == Ok::<Seq<Seq<char>>, ErrorView>(Seq::empty()),
        managed_models(dir, true, listing) is Ok <==> listing is Ok,
        listing matches Err(fault) ==> managed_models(dir, true, listing) == Err::<
            Seq<Seq<char>>,
            ErrorView,
        >(error::caused("failed to read "@ + dir, fault@)),
        listing matches Ok(files) ==> (managed_models(dir, true, listing) matches Ok(models) ==> {
            &&& models.to_multiset() == files.deep_view().to_multiset()
            &&& 0 <= i < j < models.len() ==> (path::spec_unicode_name(models[i]) matches Some(a)
                ==> (path::spec_unicode_name(models[j]) matches Some(b) ==> !text::comes_before(
                b,
                a,
            )))
        }),
{
    if listing is Ok {
        law_listing_is_sorted(listing->Ok_0.deep_view());
        let models = by_file_name(listing->Ok_0.deep_view());
        if 0 <= i < j < models.len() {
            assert(!listed_before(models[j], models[i]));
        }
    }
}

/// Which paths have this file name.
spec fn is_named(name: Option<Seq<char>>) -> spec_fn(Seq<char>) -> bool {
    |p: Seq<char>| path::spec_unicode_name(p) == name
}

proof fn lemma_filter_push(list: Seq<Seq<char>>, path: Seq<char>, keep: spec_fn(Seq<char>) -> bool)
    ensures
        list.push(path).filter(keep) == if keep(path) {
            list.filter(keep).push(path)
        } else {
            list.filter(keep)
        },
{
    reveal(Seq::filter);
    assert(list.push(path).drop_last() =~= list);
}

proof fn lemma_with_listed_keeps_order(list: Seq<Seq<char>>, path: Seq<char>, name: Option<Seq<char>>)
    requires
        is_by_file_name(list),
    ensures
        with_listed(list, path).filter(is_named(name)) == list.push(path).filter(is_named(name)),
    decreases list.len(),
{
    let keep = is_named(name);
    if list.len() > 0 && listed_before(path, list.last()) {
        let rest = list.drop_last();
        let last = list.last();
        assert forall|i: int, j: int| 0 <= i < j < rest.len() implies !listed_before(
            rest[j],
            rest[i],
        ) by {
            assert(rest[j] == list[j] && rest[i] == list[i]);
        }
        lemma_with_listed_keeps_order(rest, path, name);
        let front = with_listed(rest, path);
        assert(list =~= rest.push(last));
        lemma_filter_push(front, last, keep);
        lemma_filter_push(rest, path, keep);
        lemma_filter_push(rest, last, keep);
        lemma_filter_push(list, path, keep);
        lemma_not_before_both(path, last);
        if keep(path) && keep(last) {
            assert(path::spec_unicode_name(path) == path::spec_unicode_name(last));
            assert(listed_before(last, path));
        }
    }
}

/// Files of one name are listed in the order in which they were found.
pub proof fn law_files_of_one_name_keep_their_order(paths: Seq<Seq<char>>, name: Option<Seq<char>>)
    ensures
        by_file_name(paths).filter(|p: Seq<char>| path::spec_unicode_name(p) == name)
            == paths.filter(|p: Seq<char>| path::spec_unicode_name(p) == name),
    decreases paths.len(),
{
    let keep = |p: Seq<char>| path::spec_unicode_name(p) == name;
    assert(keep =~= is_named(name));
    if paths.len() > 0 {
        let rest = paths.drop_last();
        law_files_of_one_name_keep_their_order(rest, name);
        law_listing_is_sorted(rest);
        lemma_with_listed_keeps_order(by_file_name(rest), paths.last(), name);
        lemma_filter_push(by_file_name(rest), paths.last(), keep);
        lemma_filter_push(rest, paths.last(), keep);
        assert(paths =~= rest.push(paths.last()));
    } else {
        assert(paths =~= Seq::empty());
    }
}

/// A setup reports the tool and the model that it came by, how it came by them, and where they and
/// the configuration lie.
pub proof fn law_setup_reports_what_it_did(
    paths: AppPaths,
    cli: CliInstallView,
    model: InstallView,
)
    ensures
        ({
            let report = setup_report(paths, cli, model);
            &&& report.object == "setup"@
            &&& report.ok
            &&& report.whisper_cli_path == cli.path
            &&& report.whisper_cli_action == cli.action
            &&& report.whisper_model_path == model.path
            &&& report.model_action == model.action
            &&& report.model_name == model.model_name
            &&& report.managed_bin_dir == path::spec_join(paths.config_dir@, "bin"@)
            &&& report.managed_model_dir == path::spec_join(paths.config_dir@, "models"@)
            &&& report.config_file == paths.config_file@
            &&& report.warnings.len() == 0
        }),
{
}

/// What stands in the place of the managed whisper-cli is kept exactly if it is a file that works;
/// anything else that stands there is removed first.
pub proof fn law_only_working_cli_stays(standing: PathKind, works: bool)
    ensures
        is_kept(standing, works) <==> standing == PathKind::File && works,
        standing == PathKind::Missing ==> !is_cleared(standing, works),
        standing == PathKind::File ==> (is_cleared(standing, works) <==> !works),
        standing == PathKind::Directory || standing == PathKind::Other ==> is_cleared(
            standing,
            works,
        ),
{
}

/// Which model is to be managed: the one that is asked for, which can be copied from the existing
/// file exactly if that has its name; where none is asked for, the existing one, which can be
/// downloaded exactly if it has a managed model's name; and without either, the small English one.
pub proof fn law_model_is_selected(
    requested: Option<ManagedModel>,
    existing: Option<Seq<char>>,
    model: ManagedModel,
)
    ensures
        requested == Some(model) ==> (selection_of(requested, existing) matches Ok(selection) && {
            &&& selection.file_name == model.spec_file_name()
            &&& selection.download_model == Some(model)
            &&& selection.copy_source is Some <==> (existing matches Some(path)
                && path::spec_unicode_name(path) == Some(model.spec_file_name()))
            &&& selection.copy_source is Some ==> selection.copy_source == existing
        }),
        requested is None ==> (existing matches Some(path) ==> (path::spec_unicode_name(
            path,
        ) matches Some(name) ==> (selection_of(requested, existing) matches Ok(selection) && {
            &&& selection.file_name == name
            &&& selection.copy_source == existing
            &&& selection.download_model == Some(model) <==> name == model.spec_file_name()
        }))),
        requested is None && existing is None ==> (selection_of(requested, existing) matches Ok(
            selection,
        ) && {
            &&& selection.file_name == "ggml-small.en.bin"@
            &&& selection.copy_source is None
            &&& selection.download_model == Some(ManagedModel::SmallEn)
        }),
{
    lemma_model_names(model);
    if existing is Some {
        law_models_are_told_by_file(existing->0, model);
    }
}

/// Without a whisper-cli that works or can be wrapped, it is said how to come by one.
pub proof fn law_missing_cli_is_told(bin_dir: Seq<char>)
    ensures
        cli_install_of(bin_dir, false, None) == Err::<CliInstallView, ErrorView>(
            error::plain(
                "whisper-cli was not found. Use a bundled scribecli release, or install whisper-cpp first, for example `brew install whisper-cpp`, then rerun `scribecli setup`"@,
            ),
        ),
{
}

/// A configured file is there to be used exactly if a regular file stands at its path, and is then
/// used at that very path.
pub proof fn law_configured_file_is_used(configured: Option<Seq<char>>, disk: Snapshot)
    ensures
        configured matches Some(path) ==> {
            &&& disk.has_file(path) ==> if_file(configured, disk) == Some(path)
            &&& !disk.has_file(path) ==> if_file(configured, disk) is None
        },
        configured is None ==> if_file(configured, disk) is None,
{
}

/// A file is downloaded beside its destination, under the destination's name with another extension.
pub proof fn law_download_lies_beside_destination(destination: Seq<char>, name: Seq<char>)
    requires
        path::spec_file_name(destination) == Some(name),
    ensures
        path::components(download_place(destination)) == path::components(
            destination,
        ).drop_last().push(path::stem_of(name) + ".download"@),
{
    reveal_strlit("download");
    reveal_strlit(".download");
    assert(seq!['.'] + "download"@ =~= ".download"@);
    assert(path::stem_of(name) + seq!['.'] + "download"@ =~= path::stem_of(name) + ".download"@);
    path::law_other_extension_keeps_stem(destination, name, "download"@);
}

} // verus!
