//! Managed models: listing them, choosing one, and removing them.
use crate::config::{
    AppPaths, ConfigFile, ConfigFileView, ConfigKey, EffectiveConfig, EffectiveView,
};
use crate::detect;
use crate::disk;
use crate::disk::Snapshot;
use crate::error;
use crate::error::{Error, ErrorView};
use crate::path;
use crate::setup;
use crate::setup::{InstallView, ManagedModel, ManagedModelInstall, ModelAction};
use crate::text;
use vstd::prelude::*;

verus! {

// ---------------------------------------------------------------------------------------------
// Listing
// ---------------------------------------------------------------------------------------------
/// A model's file, and how many bytes it takes.
#[derive(Debug)]
pub struct ModelFile {
    pub path: String,
    pub size_bytes: u64,
}

/// What is reported of a managed model.
#[derive(Debug)]
pub struct ModelEntry {
    pub name: String,
    pub file_name: String,
    pub path: String,
    pub size_bytes: u64,
    pub active: bool,
}

/// What a [`ModelEntry`] holds.
pub struct ModelEntryView {
    pub name: Seq<char>,
    pub file_name: Seq<char>,
    pub path: Seq<char>,
    pub size_bytes: u64,
    pub active: bool,
}

impl DeepView for ModelEntry {
    type V = ModelEntryView;

    open spec fn deep_view(&self) -> ModelEntryView {
        ModelEntryView {
            name: self.name@,
            file_name: self.file_name@,
            path: self.path@,
            size_bytes: self.size_bytes,
            active: self.active,
        }
    }
}

/// The file name of a path, or nothing where it has none.
pub open spec fn file_name_or_empty(path: Seq<char>) -> Seq<char> {
    match path::spec_unicode_name(path) {
        Some(name) => name,
        None => Seq::empty(),
    }
}

/// What is reported of the model in `file`: its name is the one it has on the command line, or else
/// its file's.
pub open spec fn entry_of(file: ModelFile, active: Option<Seq<char>>) -> ModelEntryView {
    let file_name = file_name_or_empty(file.path@);
    ModelEntryView {
        name: match setup::model_by_path(file.path@) {
            Some(model) => model.spec_cli_name(),
            None => file_name,
        },
        file_name,
        path: file.path@,
        size_bytes: file.size_bytes,
        active: active matches Some(active) && path::spec_same(active, file.path@),
    }
}

/// What is reported of the models in `files`.
pub open spec fn entries_of(files: Seq<ModelFile>, active: Option<Seq<char>>) -> Seq<
    ModelEntryView,
> {
    Seq::new(files.len(), |i: int| entry_of(files[i], active))
}

/// What is reported of the managed models.
#[derive(Debug)]
pub struct ModelListReport {
    pub object: &'static str,
    pub managed_model_dir: String,
    pub active_model_path: Option<String>,
    pub models: Vec<ModelEntry>,
}

fn model_entry(file: &ModelFile, active: &Option<String>) -> (r: ModelEntry)
    ensures
        r.deep_view() == entry_of(*file, active.deep_view()),
{
    let file_name = match path::unicode_name(file.path.as_str()) {
        Some(name) => name,
        None => {
            let none = String::new();
            assert(none@ =~= Seq::empty());
            none
        },
    };
    let name = match ManagedModel::from_file_name(file.path.as_str()) {
        Some(model) => model.cli_name().to_owned(),
        None => file_name.clone(),
    };
    let active = match active {
        Some(active) => path::same(active.as_str(), file.path.as_str()),
        None => false,
    };
    ModelEntry {
        name,
        file_name,
        path: file.path.clone(),
        size_bytes: file.size_bytes,
        active,
    }
}

/// Whether `report` is what is reported of the managed models, which lie in `files`.
pub open spec fn reports_models(
    report: ModelListReport,
    paths: AppPaths,
    config: EffectiveView,
    files: Seq<ModelFile>,
) -> bool {
    &&& report.managed_model_dir@ == path::spec_join(paths.config_dir@, "models"@)
    &&& report.active_model_path.deep_view() == config.whisper_model_path
    &&& report.models.deep_view() == entries_of(files, config.whisper_model_path)
}

/// What is reported of the managed models, which lie in `files`.
pub fn run_model_list(paths: &AppPaths, config: &EffectiveConfig, files: &Vec<ModelFile>) -> (r:
    ModelListReport)
    ensures
        reports_models(r, *paths, config@, files@),
        r.object@ == "model_list"@,
        r.managed_model_dir@ == path::spec_join(paths.config_dir@, "models"@),
        r.active_model_path.deep_view() == config@.whisper_model_path,
        r.models.deep_view() == entries_of(files@, config@.whisper_model_path),
{
    let mut models: Vec<ModelEntry> = Vec::new();
    let ghost all = entries_of(files@, config@.whisper_model_path);
    let mut i: usize = 0;
    assert(models.deep_view() =~= all.take(0));
    while i < files.len()
        invariant
            i <= files@.len(),
            all == entries_of(files@, config@.whisper_model_path),
            models.deep_view() == all.take(i as int),
        decreases files@.len() - i,
    {
        let entry = model_entry(&files[i], &config.whisper_model_path);
        let ghost before = models.deep_view();
        let ghost shown = entry.deep_view();
        models.push(entry);
        assert(shown == all[i as int]);
        assert(models.deep_view() =~= before.push(shown));
        assert(all.take(i + 1) =~= all.take(i as int).push(all[i as int]));
        i = i + 1;
    }
    assert(all.take(i as int) =~= all);
    ModelListReport {
        object: "model_list",
        managed_model_dir: setup::managed_model_dir(paths),
        active_model_path: config.whisper_model_path.clone(),
        models,
    }
}

// ---------------------------------------------------------------------------------------------
// Choosing
// ---------------------------------------------------------------------------------------------
/// What is asked for when a model is chosen.
#[derive(Debug)]
pub struct ModelUseArgs {
    /// The name of a managed model, or the path of a model file.
    pub target: String,
    /// Whether to download the managed model even if it is there.
    pub force_download: bool,
}

/// The model that was chosen.
#[derive(Debug)]
pub enum ModelChoice {
    /// A managed model.
    Managed(ManagedModelInstall),
    /// The model in this file.
    File(String),
}

/// What a [`ModelChoice`] holds.
pub enum ModelChoiceView {
    Managed(InstallView),
    File(Seq<char>),
}

impl View for ModelChoice {
    type V = ModelChoiceView;

    open spec fn view(&self) -> ModelChoiceView {
        match self {
            ModelChoice::Managed(install) => ModelChoiceView::Managed(install@),
            ModelChoice::File(path) => ModelChoiceView::File(path@),
        }
    }
}

impl ModelChoiceView {
    /// The path of the chosen model's file.
    pub open spec fn path(self) -> Seq<char> {
        match self {
            ModelChoiceView::Managed(install) => install.path,
            ModelChoiceView::File(path) => path,
        }
    }
}

/// Whether `target` is written as a path, and not as a bare name.
pub open spec fn is_written_as_path(target: Seq<char>) -> bool {
    text::spec_contains(target, "/"@)
}

/// Whether there is a model in `file`.
pub open spec fn is_model_at(file: Seq<char>, disk: Snapshot) -> bool {
    disk.has_file(file) && detect::is_model_path(file)
}

/// The model that `target` stands for. A path to a model that is there stands for that very file,
/// unless a download is asked for. Anything else stands for a managed model, if it names one, and
/// else for the model in the file that it names.
pub open spec fn choice_of(
    target: Seq<char>,
    force_download: bool,
    paths: AppPaths,
    config: EffectiveView,
    home: Option<Seq<char>>,
    disk: Snapshot,
) -> Result<ModelChoiceView, ErrorView> {
    let file = detect::expanded(target, home);
    if is_written_as_path(target) && !force_download && is_model_at(file, disk) {
        Ok(ModelChoiceView::File(file))
    } else {
        match setup::model_by_input(target) {
            Some(model) => match setup::managed_install(
                path::spec_join(paths.config_dir@, "models"@),
                Some(model),
                force_download,
                setup::if_file(config.whisper_model_path, disk),
                disk,
            ) {
                Ok(install) => Ok(ModelChoiceView::Managed(install)),
                Err(e) => Err(e),
            },
            None => if force_download {
                Err(
                    error::plain(
                        "--force-download only applies to managed model names like `small-en`"@,
                    ),
                )
            } else if !disk.has_file(file) {
                Err(
                    error::plain(
                        "model path does not exist: "@ + file
                            + "; pass a managed model name or a model file path"@,
                    ),
                )
            } else if !detect::is_model_path(file) {
                Err(error::plain("model path does not look like a Whisper model: "@ + file))
            } else {
                Ok(ModelChoiceView::File(file))
            },
        }
    }
}

/// What [`choice_of`] looks at: the file that `target` names, the configured model, and the file of
/// the managed model that `target` names.
pub open spec fn paths_for_choice(
    target: Seq<char>,
    paths: AppPaths,
    config: EffectiveView,
    home: Option<Seq<char>>,
) -> Seq<Seq<char>> {
    let named = seq![detect::expanded(target, home)];
    let configured = match config.whisper_model_path {
        Some(path) => named.push(path),
        None => named,
    };
    match setup::model_by_input(target) {
        Some(model) => configured.push(
            path::spec_join(
                path::spec_join(paths.config_dir@, "models"@),
                model.spec_file_name(),
            ),
        ),
        None => configured,
    }
}

/// The paths to look at before a model is chosen.
pub fn choice_paths(
    args: &ModelUseArgs,
    paths: &AppPaths,
    config: &EffectiveConfig,
    home: &Option<String>,
) -> (r: Vec<String>)
    ensures
        r.deep_view() == paths_for_choice(args.target@, *paths, config@, home.deep_view()),
{
    let mut out: Vec<String> = Vec::new();
    let file = detect::expand_home(args.target.clone(), home);
    text::push_text(&mut out, file.as_str());
    assert(out.deep_view() =~= seq![file@]);
    if let Some(path) = &config.whisper_model_path {
        text::push_text(&mut out, path.as_str());
    }
    if let Some(model) = ManagedModel::from_cli_input(args.target.as_str()) {
        let dir = setup::managed_model_dir(paths);
        let managed = path::join(dir.as_str(), model.file_name());
        text::push_text(&mut out, managed.as_str());
    }
    out
}

/// The model that is to be used.
pub fn run_model_use(
    args: &ModelUseArgs,
    paths: &AppPaths,
    config: &EffectiveConfig,
    home: &Option<String>,
    disk: &Snapshot,
) -> (r: Result<ModelChoice, Error>)
    ensures
        match r {
            Ok(choice) => choice_of(
                args.target@,
                args.force_download,
                *paths,
                config@,
                home.deep_view(),
                *disk,
            ) == Ok::<ModelChoiceView, ErrorView>(choice@),
            Err(e) => choice_of(
                args.target@,
                args.force_download,
                *paths,
                config@,
                home.deep_view(),
                *disk,
            ) == Err::<ModelChoiceView, ErrorView>(e@),
        },
{
    let file = detect::expand_home(args.target.clone(), home);
    if text::contains(args.target.as_str(), "/") && !args.force_download && disk.is_file(
        file.as_str(),
    ) && detect::is_whisper_model_file(file.as_str()) {
        return Ok(ModelChoice::File(file));
    }
    if let Some(model) = ManagedModel::from_cli_input(args.target.as_str()) {
        let dir = setup::managed_model_dir(paths);
        let existing = setup::existing_model_path(config, disk);
        let installed = match &existing {
            Some(path) => {
                let current = Some(path.as_str());
                assert(current.deep_view() == existing.deep_view());
                setup::ensure_managed_model(
                    dir.as_str(),
                    Some(model),
                    args.force_download,
                    current,
                    disk,
                )
            },
            None => setup::ensure_managed_model(
                dir.as_str(),
                Some(model),
                args.force_download,
                None,
                disk,
            ),
        };
        return match installed {
            Ok(install) => Ok(ModelChoice::Managed(install)),
            Err(e) => Err(e),
        };
    }
    if args.force_download {
        return Err(
            Error::new(
                "--force-download only applies to managed model names like `small-en`".to_owned(),
            ),
        );
    }
    if !disk.is_file(file.as_str()) {
        return Err(
            Error::new(
                text::cat3(
                    "model path does not exist: ",
                    file.as_str(),
                    "; pass a managed model name or a model file path",
                ),
            ),
        );
    }
    if !detect::is_whisper_model_file(file.as_str()) {
        return Err(
            Error::new(
                text::cat2("model path does not look like a Whisper model: ", file.as_str()),
            ),
        );
    }
    Ok(ModelChoice::File(file))
}

/// What is reported of the model that was chosen.
#[derive(Debug)]
pub struct ModelUseReport {
    pub object: &'static str,
    pub status: &'static str,
    pub model_path: String,
    pub managed: bool,
    pub model_action: Option<ModelAction>,
    pub config_file: String,
}

/// The configuration with another model.
pub open spec fn with_model(config: ConfigFileView, model: Option<Seq<char>>) -> ConfigFileView {
    ConfigFileView { whisper_model_path: model, ..config }
}

/// Whether `report` is what is reported of the chosen model.
pub open spec fn reports_choice(
    report: ModelUseReport,
    choice: ModelChoiceView,
    paths: AppPaths,
) -> bool {
    &&& report.object@ == "model"@
    &&& report.status@ == "selected"@
    &&& report.model_path@ == choice.path()
    &&& report.managed == (choice is Managed)
    &&& report.model_action == match choice {
        ModelChoiceView::Managed(install) => Some(install.action),
        ModelChoiceView::File(_) => None,
    }
    &&& report.config_file@ == paths.config_file@
}

/// The configuration in which the chosen model is used, and what is reported of it.
pub fn apply_model_choice(config: ConfigFile, choice: &ModelChoice, paths: &AppPaths) -> (r: (
    ConfigFile,
    ModelUseReport,
))
    ensures
        r.0@ == with_model(config@, Some(choice@.path())),
        reports_choice(r.1, choice@, *paths),
{
    let mut config = config;
    let (model_path, managed, model_action) = match choice {
        ModelChoice::Managed(install) => (install.path.clone(), true, Some(install.action)),
        ModelChoice::File(path) => (path.clone(), false, None),
    };
    config.whisper_model_path = Some(model_path.clone());
    let report = ModelUseReport {
        object: "model",
        status: "selected",
        model_path,
        managed,
        model_action,
        config_file: paths.config_file.clone(),
    };
    (config, report)
}

// ---------------------------------------------------------------------------------------------
// Removing
// ---------------------------------------------------------------------------------------------
/// What is asked for when models are removed.
#[derive(Debug)]
pub struct ModelRemoveArgs {
    /// The name of a managed model, or of its file.
    pub target: Option<String>,
    /// Whether to remove every managed model.
    pub all: bool,
}

/// The name of the file that `raw` stands for: that of the model it names, or itself.
pub open spec fn file_named(raw: Seq<char>) -> Seq<char> {
    match setup::model_by_input(raw) {
        Some(model) => model.spec_file_name(),
        None => raw,
    }
}

/// The refusal to remove what lies outside the managed models' directory.
pub open spec fn not_managed(dir: Seq<char>) -> ErrorView {
    error::plain(
        "only managed models under "@ + dir + " can be removed with `scribecli model remove`"@,
    )
}

/// The file of the managed model that `raw` stands for: either the file at that path or the one of
/// that name in `dir`, and in both cases only if it lies within `dir`.
pub open spec fn managed_model_at(
    dir: Seq<char>,
    raw: Seq<char>,
    home: Option<Seq<char>>,
    disk: Snapshot,
) -> Result<Seq<char>, ErrorView> {
    let requested = detect::expanded(raw, home);
    let candidate = path::spec_join(dir, file_named(raw));
    if disk.has_file(requested) {
        if path::spec_lies_within(requested, dir) {
            Ok(requested)
        } else {
            Err(not_managed(dir))
        }
    } else if disk.has_file(candidate) {
        if path::spec_lies_within(candidate, dir) {
            Ok(candidate)
        } else {
            Err(not_managed(dir))
        }
    } else {
        Err(error::plain("managed model `"@ + raw + "` was not found under "@ + dir))
    }
}

/// What [`managed_model_at`] looks at: the file that `raw` names, and the one of that name in `dir`.
pub open spec fn paths_for_removal(
    dir: Seq<char>,
    raw: Seq<char>,
    home: Option<Seq<char>>,
) -> Seq<Seq<char>> {
    seq![detect::expanded(raw, home), path::spec_join(dir, file_named(raw))]
}

fn named_file(raw: &str) -> (r: String)
    ensures
        r@ == file_named(raw@),
{
    match ManagedModel::from_cli_input(raw) {
        Some(model) => model.file_name().to_owned(),
        None => raw.to_owned(),
    }
}

/// The paths to look at before models are removed.
pub fn removal_paths(
    args: &ModelRemoveArgs,
    managed_model_dir: &str,
    home: &Option<String>,
) -> (r: Vec<String>)
    ensures
        r.deep_view() == match args.target.deep_view() {
            Some(raw) => paths_for_removal(managed_model_dir@, raw, home.deep_view()),
            None => Seq::empty(),
        },
{
    let mut out: Vec<String> = Vec::new();
    if let Some(raw) = &args.target {
        let requested = detect::expand_home(raw.clone(), home);
        let file_name = named_file(raw.as_str());
        let candidate = path::join(managed_model_dir, file_name.as_str());
        text::push_text(&mut out, requested.as_str());
        text::push_text(&mut out, candidate.as_str());
        assert(out.deep_view() =~= paths_for_removal(
            managed_model_dir@,
            raw@,
            home.deep_view(),
        ));
    } else {
        assert(out.deep_view() =~= Seq::empty());
    }
    out
}

fn refuse_unmanaged(dir: &str) -> (r: Error)
    ensures
        r@ == not_managed(dir@),
{
    Error::new(
        text::cat3(
            "only managed models under ",
            dir,
            " can be removed with `scribecli model remove`",
        ),
    )
}

/// The file of the managed model that a name stands for.
pub fn resolve_managed_model_path(
    managed_model_dir: &str,
    raw: &str,
    home: &Option<String>,
    disk: &Snapshot,
) -> (r: Result<String, Error>)
    ensures
        match r {
            Ok(path) => managed_model_at(managed_model_dir@, raw@, home.deep_view(), *disk) == Ok::<
                Seq<char>,
                ErrorView,
            >(path@),
            Err(e) => managed_model_at(managed_model_dir@, raw@, home.deep_view(), *disk) == Err::<
                Seq<char>,
                ErrorView,
            >(e@),
        },
{
    let requested = detect::expand_home(raw.to_owned(), home);
    if disk.is_file(requested.as_str()) {
        if !path::lies_within(requested.as_str(), managed_model_dir) {
            return Err(refuse_unmanaged(managed_model_dir));
        }
        return Ok(requested);
    }
    let file_name = named_file(raw);
    let candidate = path::join(managed_model_dir, file_name.as_str());
    if disk.is_file(candidate.as_str()) {
        if !path::lies_within(candidate.as_str(), managed_model_dir) {
            return Err(refuse_unmanaged(managed_model_dir));
        }
        return Ok(candidate);
    }
    Err(
        Error::new(
            text::cat4("managed model `", raw, "` was not found under ", managed_model_dir),
        ),
    )
}

/// The files that are to be removed: either every managed model, of which `listing` holds the
/// files or why they could not be listed, or the one that is asked for.
pub open spec fn removal_targets(
    target: Option<Seq<char>>,
    all: bool,
    dir: Seq<char>,
    present: bool,
    listing: Result<Vec<String>, String>,
    home: Option<Seq<char>>,
    disk: Snapshot,
) -> Result<Seq<Seq<char>>, ErrorView> {
    if all == target is Some {
        Err(error::plain("pass either a managed model name/file name or `--all`"@))
    } else {
        let found = match target {
            None => setup::managed_models(dir, present, listing),
            Some(raw) => match managed_model_at(dir, raw, home, disk) {
                Ok(path) => Ok(seq![path]),
                Err(e) => Err(e),
            },
        };
        match found {
            Ok(paths) => if paths.len() == 0 {
                Err(error::plain("no managed models were found under "@ + dir))
            } else {
                Ok(paths)
            },
            Err(e) => Err(e),
        }
    }
}

/// The files that are to be removed.
pub fn run_model_remove(
    args: &ModelRemoveArgs,
    managed_model_dir: &str,
    present: bool,
    listing: &Result<Vec<String>, String>,
    home: &Option<String>,
    disk: &Snapshot,
) -> (r: Result<Vec<String>, Error>)
    ensures
        match r {
            Ok(paths) => removal_targets(
                args.target.deep_view(),
                args.all,
                managed_model_dir@,
                present,
                *listing,
                home.deep_view(),
                *disk,
            ) == Ok::<Seq<Seq<char>>, ErrorView>(paths.deep_view()),
            Err(e) => removal_targets(
                args.target.deep_view(),
                args.all,
                managed_model_dir@,
                present,
                *listing,
                home.deep_view(),
                *disk,
            ) == Err::<Seq<Seq<char>>, ErrorView>(e@),
        },
{
    if args.all == args.target.is_some() {
        return Err(
            Error::new("pass either a managed model name/file name or `--all`".to_owned()),
        );
    }
    let found = match &args.target {
        None => setup::list_managed_model_paths(managed_model_dir, present, listing),
        Some(raw) => match resolve_managed_model_path(
            managed_model_dir,
            raw.as_str(),
            home,
            disk,
        ) {
            Ok(path) => {
                let mut paths: Vec<String> = Vec::new();
                text::push_text(&mut paths, path.as_str());
                assert(paths.deep_view() =~= seq![path@]);
                Ok(paths)
            },
            Err(e) => Err(e),
        },
    };
    match found {
        Ok(paths) => if paths.len() == 0 {
            Err(Error::new(text::cat2("no managed models were found under ", managed_model_dir)))
        } else {
            Ok(paths)
        },
        Err(e) => Err(e),
    }
}

/// The model to configure once `removed` are gone, where the one in effect was among them: the best
/// one that is left.
pub open spec fn replacement(
    config: ConfigFileView,
    in_effect: Option<Seq<char>>,
    removed: Seq<Seq<char>>,
    dir: Seq<char>,
    disk: Snapshot,
) -> Option<ConfigFileView> {
    match in_effect {
        Some(path) => if detect::has_path(removed, path) {
            Some(with_model(config, detect::best_in(disk, dir)))
        } else {
            None
        },
        None => None,
    }
}

/// The configuration that is to be stored once models are removed, if another one is. `config` is
/// the stored configuration, `effective` the one in effect, and `disk` what is left.
pub fn config_after_removal(
    config: ConfigFile,
    effective: &EffectiveConfig,
    removed: &Vec<String>,
    managed_model_dir: &str,
    disk: &Snapshot,
) -> (r: Option<ConfigFile>)
    ensures
        match r {
            Some(after) => replacement(
                config@,
                effective@.whisper_model_path,
                removed.deep_view(),
                managed_model_dir@,
                *disk,
            ) == Some(after@),
            None => replacement(
                config@,
                effective@.whisper_model_path,
                removed.deep_view(),
                managed_model_dir@,
                *disk,
            ) is None,
        },
{
    let is_removed = match &effective.whisper_model_path {
        Some(path) => detect::contains_path(removed, path.as_str()),
        None => false,
    };
    if is_removed {
        let mut after = config;
        after.whisper_model_path = detect::select_model_from_dir(managed_model_dir, disk);
        Some(after)
    } else {
        None
    }
}

/// What is reported of models that were removed.
#[derive(Debug)]
pub struct ModelRemoveReport {
    pub object: &'static str,
    pub status: &'static str,
    pub removed_paths: Vec<String>,
    pub active_model_path: Option<String>,
    pub config_file: String,
}

/// Whether `report` is what is reported of models that were removed, where `effective` is the
/// configuration in effect afterwards.
pub open spec fn reports_removal(
    report: ModelRemoveReport,
    removed_paths: Seq<Seq<char>>,
    effective: EffectiveView,
    paths: AppPaths,
) -> bool {
    &&& report.removed_paths.deep_view() == removed_paths
    &&& report.active_model_path.deep_view() == effective.whisper_model_path
    &&& report.config_file@ == paths.config_file@
}

/// What is reported of models that were removed, where `effective` is the configuration in effect
/// afterwards.
pub fn model_remove_report(
    removed_paths: Vec<String>,
    effective: &EffectiveConfig,
    paths: &AppPaths,
) -> (r: ModelRemoveReport)
    ensures
        reports_removal(r, removed_paths.deep_view(), effective@, *paths),
        r.object@ == "model_remove"@,
        r.status@ == "completed"@,
        r.removed_paths == removed_paths,
        r.active_model_path.deep_view() == effective@.whisper_model_path,
        r.config_file@ == paths.config_file@,
{
    ModelRemoveReport {
        object: "model_remove",
        status: "completed",
        active_model_path: effective.whisper_model_path.clone(),
        removed_paths,
        config_file: paths.config_file.clone(),
    }
}

// ---------------------------------------------------------------------------------------------
// Laws
// ---------------------------------------------------------------------------------------------
/// A path to a model that is there stands for that very file, whatever the file is called, unless a
/// download is asked for: the model is not managed, nothing is to be done for it, and its path is the
/// one that is stored.
pub proof fn law_path_to_model_selects_that_file(
    target: Seq<char>,
    paths: AppPaths,
    config: EffectiveView,
    home: Option<Seq<char>>,
    disk: Snapshot,
    stored: ConfigFileView,
)
    requires
        is_written_as_path(target),
        is_model_at(detect::expanded(target, home), disk),
    ensures
        choice_of(target, false, paths, config, home, disk) == Ok::<ModelChoiceView, ErrorView>(
            ModelChoiceView::File(detect::expanded(target, home)),
        ),
        with_model(
            stored,
            Some(ModelChoiceView::File(detect::expanded(target, home)).path()),
        ).whisper_model_path == Some(detect::expanded(target, home)),
{
}

/// A managed model's name on the command line, and the bare name of its file, stand for the managed
/// model, whatever lies elsewhere.
pub proof fn law_bare_names_are_managed(
    model: ManagedModel,
    force_download: bool,
    paths: AppPaths,
    config: EffectiveView,
    home: Option<Seq<char>>,
    disk: Snapshot,
)
    ensures
        forall|name: Seq<char>|
            name == model.spec_cli_name() || name == model.spec_file_name()
                ==> #[trigger] choice_of(name, force_download, paths, config, home, disk)
                == match setup::managed_install(
                path::spec_join(paths.config_dir@, "models"@),
                Some(model),
                force_download,
                setup::if_file(config.whisper_model_path, disk),
                disk,
            ) {
                Ok(install) => Ok::<ModelChoiceView, ErrorView>(ModelChoiceView::Managed(install)),
                Err(e) => Err::<ModelChoiceView, ErrorView>(e),
            },
{
    setup::law_models_are_found(model, Seq::empty());
    lemma_bare_names(model);
}

proof fn lemma_bare_names(model: ManagedModel)
    ensures
        path::is_plain_name(model.spec_file_name()),
        !is_written_as_path(model.spec_cli_name()),
        !is_written_as_path(model.spec_file_name()),
        model.spec_cli_name()[0] != '~',
        model.spec_file_name()[0] != '~',
{
    reveal_strlit("/");
    reveal_strlit("base-en");
    reveal_strlit("small-en");
    reveal_strlit("medium-en");
    reveal_strlit("large-v3-turbo");
    reveal_strlit("ggml-base.en.bin");
    reveal_strlit("ggml-small.en.bin");
    reveal_strlit("ggml-medium.en.bin");
    reveal_strlit("ggml-large-v3-turbo.bin");
    assert forall|name: Seq<char>, i: int|
        (name == model.spec_cli_name() || name == model.spec_file_name())
            && #[trigger] text::occurs_at(name, "/"@, i) implies false by {
        assert(name.subrange(i, i + 1)[0] == name[i]);
    }
}

/// Which model is chosen depends on nothing on disk but what is at the paths that were looked at.
pub proof fn law_choice_looks_at(
    target: Seq<char>,
    force_download: bool,
    paths: AppPaths,
    config: EffectiveView,
    home: Option<Seq<char>>,
    a: Snapshot,
    b: Snapshot,
)
    requires
        disk::agree_on(a, b, paths_for_choice(target, paths, config, home)),
    ensures
        choice_of(target, force_download, paths, config, home, a) == choice_of(
            target,
            force_download,
            paths,
            config,
            home,
            b,
        ),
{
    let looked_at = paths_for_choice(target, paths, config, home);
    assert(looked_at.contains(looked_at[0]));
    if config.whisper_model_path is Some {
        assert(looked_at.contains(looked_at[1]));
    }
    if setup::model_by_input(target) is Some {
        assert(looked_at.contains(looked_at.last()));
    }
}

/// Which model is removed by name depends on nothing on disk but what is at the paths that were
/// looked at.
pub proof fn law_removal_looks_at(
    dir: Seq<char>,
    raw: Seq<char>,
    home: Option<Seq<char>>,
    a: Snapshot,
    b: Snapshot,
)
    requires
        disk::agree_on(a, b, paths_for_removal(dir, raw, home)),
    ensures
        managed_model_at(dir, raw, home, a) == managed_model_at(dir, raw, home, b),
{
    let looked_at = paths_for_removal(dir, raw, home);
    assert(looked_at.contains(looked_at[0]));
    assert(looked_at.contains(looked_at[1]));
}

/// Nothing but a file within the managed directory is ever removed by name: its path begins with the
/// directory's, and no `..` behind it leads out again.
pub proof fn law_only_managed_models_are_removed(
    dir: Seq<char>,
    raw: Seq<char>,
    home: Option<Seq<char>>,
    disk: Snapshot,
)
    ensures
        managed_model_at(dir, raw, home, disk) matches Ok(path) ==> {
            &&& path::spec_lies_within(path, dir)
            &&& disk.has_file(path)
        },
{
}

/// A managed model is found for removal by its name on the command line and by its file's name,
/// unless a file of that very name lies elsewhere.
pub proof fn law_managed_model_is_found_for_removal(
    dir: Seq<char>,
    model: ManagedModel,
    home: Option<Seq<char>>,
    disk: Snapshot,
)
    requires
        disk.has_file(path::spec_join(dir, model.spec_file_name())),
        !disk.has_file(model.spec_cli_name()),
        !disk.has_file(model.spec_file_name()),
    ensures
        managed_model_at(dir, model.spec_cli_name(), home, disk) == Ok::<Seq<char>, ErrorView>(
            path::spec_join(dir, model.spec_file_name()),
        ),
        managed_model_at(dir, model.spec_file_name(), home, disk) == Ok::<Seq<char>, ErrorView>(
            path::spec_join(dir, model.spec_file_name()),
        ),
{
    setup::law_models_are_found(model, dir);
    lemma_bare_names(model);
    path::law_join_adds_component(dir, model.spec_file_name());
    detect::law_only_tilde_is_expanded(model.spec_cli_name(), home);
    detect::law_only_tilde_is_expanded(model.spec_file_name(), home);
}

/// Choosing a model changes nothing of the configuration but the model.
pub proof fn law_choice_keeps_other_settings(
    config: ConfigFileView,
    model: Option<Seq<char>>,
    key: ConfigKey,
)
    requires
        key != ConfigKey::WhisperModelPath,
    ensures
        with_model(config, model).value_of(key) == config.value_of(key),
{
}

/// The chosen model is the one in effect afterwards, where its path does not begin with `~`.
pub proof fn law_chosen_model_is_in_effect(
    config: ConfigFileView,
    model: Seq<char>,
    paths: AppPaths,
    env: crate::disk::Environment,
    disk: Snapshot,
)
    requires
        model.len() == 0 || model[0] != '~',
    ensures
        with_model(config, Some(model)).in_effect(paths, env, disk).whisper_model_path == Some(
            model,
        ),
{
    detect::law_only_tilde_is_expanded(model, env.home.deep_view());
}

/// A model that was removed is replaced: what takes its place is one of the files that are left, and
/// so none of those that were removed, or nothing.
pub proof fn law_removed_model_is_replaced(
    config: ConfigFileView,
    in_effect: Seq<char>,
    removed: Seq<Seq<char>>,
    dir: Seq<char>,
    disk: Snapshot,
)
    requires
        detect::has_path(removed, in_effect),
    ensures
        replacement(config, Some(in_effect), removed, dir, disk) matches Some(after) && {
            after.whisper_model_path matches Some(model) ==> {
                &&& disk.files_of(dir) matches Some(files) && files.contains(model) && ((forall|
                    i: int,
                |
                    0 <= i < files.len() ==> !detect::has_path(removed, #[trigger] files[i]))
                    ==> !detect::has_path(removed, model))
                &&& detect::is_model_path(model)
            }
        },
{
    if disk.files_of(dir) is Some {
        detect::law_best_model(disk.files_of(dir)->0);
    }
}

/// Which model takes the place of a removed one depends on nothing on disk but the files in the
/// managed directory.
pub proof fn law_replacement_looks_at(
    config: ConfigFileView,
    in_effect: Option<Seq<char>>,
    removed: Seq<Seq<char>>,
    dir: Seq<char>,
    a: Snapshot,
    b: Snapshot,
)
    requires
        a.files_of(dir) == b.files_of(dir),
    ensures
        replacement(config, in_effect, removed, dir, a) == replacement(
            config,
            in_effect,
            removed,
            dir,
            b,
        ),
{
}

/// Models are removed either all or by name: asking for both, or for neither, is refused.
pub proof fn law_removal_needs_one_scope(
    target: Option<Seq<char>>,
    all: bool,
    dir: Seq<char>,
    present: bool,
    listing: Result<Vec<String>, String>,
    home: Option<Seq<char>>,
    disk: Snapshot,
)
    requires
        all == target is Some,
    ensures
        removal_targets(target, all, dir, present, listing, home, disk) == Err::<
            Seq<Seq<char>>,
            ErrorView,
        >(error::plain("pass either a managed model name/file name or `--all`"@)),
{
}

// ---------------------------------------------------------------------------------------------
// What is listed
// ---------------------------------------------------------------------------------------------
/// In the listing, an entry is active exactly if its path is that of the model in effect, whatever
/// the file is called; so where the model in effect is among the listed files, its entry is active.
pub proof fn law_entry_is_active_if_in_effect(
    files: Seq<ModelFile>,
    in_effect: Option<Seq<char>>,
    i: int,
)
    requires
        0 <= i < files.len(),
    ensures
        entries_of(files, in_effect)[i].active <==> (in_effect matches Some(model)
            && path::components(model) == path::components(files[i].path@)),
        in_effect == Some(files[i].path@) ==> entries_of(files, in_effect)[i].active,
        in_effect is None ==> !entries_of(files, in_effect)[i].active,
{
}

/// A listing has one entry for each file, in order, with the file's own path, name and size.
pub proof fn law_listing_keeps_files(
    files: Seq<ModelFile>,
    in_effect: Option<Seq<char>>,
    i: int,
)
    requires
        0 <= i < files.len(),
    ensures
        entries_of(files, in_effect).len() == files.len(),
        entries_of(files, in_effect)[i].path == files[i].path@,
        entries_of(files, in_effect)[i].size_bytes == files[i].size_bytes,
        path::spec_unicode_name(files[i].path@) matches Some(name) ==> entries_of(
            files,
            in_effect,
        )[i].file_name == name,
        path::spec_unicode_name(files[i].path@) is None ==> entries_of(
            files,
            in_effect,
        )[i].file_name.len() == 0,
{
}

/// A file is listed under the name of the managed model that it is the file of, and under its own
/// where it is that of none.
pub proof fn law_managed_models_are_listed_by_name(
    files: Seq<ModelFile>,
    in_effect: Option<Seq<char>>,
    i: int,
    model: ManagedModel,
)
    requires
        0 <= i < files.len(),
    ensures
        path::spec_unicode_name(files[i].path@) == Some(model.spec_file_name()) ==> entries_of(
            files,
            in_effect,
        )[i].name == model.spec_cli_name(),
        (forall|m: ManagedModel|
            path::spec_unicode_name(files[i].path@) != Some(#[trigger] m.spec_file_name()))
            ==> entries_of(files, in_effect)[i].name == entries_of(files, in_effect)[i].file_name,
{
    setup::law_models_are_found(model, Seq::empty());
    setup::law_models_are_told_by_file(files[i].path@, model);
}

// ---------------------------------------------------------------------------------------------
// What is chosen
// ---------------------------------------------------------------------------------------------
/// What names a managed model, and is not the path of a model that is there or comes with the wish
/// for a download, stands for that model: it is to lie in the managed directory under its own name.
pub proof fn law_managed_model_is_chosen(
    target: Seq<char>,
    model: ManagedModel,
    force_download: bool,
    paths: AppPaths,
    config: EffectiveView,
    home: Option<Seq<char>>,
    disk: Snapshot,
)
    requires
        setup::model_by_input(target) == Some(model),
        force_download || !text::spec_contains(target, "/"@) || !disk.has_file(
            detect::expanded(target, home),
        ) || !detect::is_model_path(detect::expanded(target, home)),
    ensures
        choice_of(target, force_download, paths, config, home, disk) matches Ok(choice) && {
            &&& choice is Managed
            &&& choice.path() == path::spec_join(
                path::spec_join(paths.config_dir@, "models"@),
                model.spec_file_name(),
            )
        },
{
}

/// What names no managed model stands for the file it names, exactly if that is there and a model
/// and no download is asked for; else it is said which of these fails.
pub proof fn law_other_target_is_a_file(
    target: Seq<char>,
    force_download: bool,
    paths: AppPaths,
    config: EffectiveView,
    home: Option<Seq<char>>,
    disk: Snapshot,
)
    requires
        setup::model_by_input(target) is None,
    ensures
        ({
            let file = detect::expanded(target, home);
            let choice = choice_of(target, force_download, paths, config, home, disk);
            &&& choice is Ok <==> !force_download && disk.has_file(file) && detect::is_model_path(
                file,
            )
            &&& choice matches Ok(chosen) ==> chosen == ModelChoiceView::File(file)
            &&& force_download ==> choice == Err::<ModelChoiceView, ErrorView>(
                error::plain(
                    "--force-download only applies to managed model names like `small-en`"@,
                ),
            )
            &&& !force_download && !disk.has_file(file) ==> choice == Err::<
                ModelChoiceView,
                ErrorView,
            >(
                error::plain(
                    "model path does not exist: "@ + file
                        + "; pass a managed model name or a model file path"@,
                ),
            )
            &&& !force_download && disk.has_file(file) && !detect::is_model_path(file) ==> choice
                == Err::<ModelChoiceView, ErrorView>(
                error::plain("model path does not look like a Whisper model: "@ + file),
            )
        }),
{
}

/// The chosen model is stored, and what is reported is the stored path, whether the model is managed,
/// and how a managed one came to be there.
pub proof fn law_choice_is_stored_and_reported(
    config: ConfigFileView,
    choice: ModelChoiceView,
    report: ModelUseReport,
    paths: AppPaths,
)
    requires
        reports_choice(report, choice, paths),
    ensures
        with_model(config, Some(choice.path())).whisper_model_path == Some(report.model_path@),
        choice matches ModelChoiceView::Managed(install) ==> report.managed && report.model_path@
            == install.path && report.model_action == Some(install.action),
        choice matches ModelChoiceView::File(path) ==> !report.managed && report.model_path@ == path
            && report.model_action is None,
        report.config_file@ == paths.config_file@,
        report.object@ == "model"@ && report.status@ == "selected"@,
{
}

// ---------------------------------------------------------------------------------------------
// What is removed
// ---------------------------------------------------------------------------------------------
/// A file that is named by its path is removed exactly if it lies within the managed directory, and
/// is then the very file that is removed; elsewhere the removal is refused, and no file of that name
/// is removed in its place.
pub proof fn law_file_at_path_is_removed(
    dir: Seq<char>,
    raw: Seq<char>,
    home: Option<Seq<char>>,
    disk: Snapshot,
)
    requires
        disk.has_file(detect::expanded(raw, home)),
    ensures
        path::spec_lies_within(detect::expanded(raw, home), dir) ==> managed_model_at(
            dir,
            raw,
            home,
            disk,
        ) == Ok::<Seq<char>, ErrorView>(detect::expanded(raw, home)),
        !path::spec_lies_within(detect::expanded(raw, home), dir) ==> managed_model_at(
            dir,
            raw,
            home,
            disk,
        ) == Err::<Seq<char>, ErrorView>(
            error::plain(
                "only managed models under "@ + dir
                    + " can be removed with `scribecli model remove`"@,
            ),
        ),
{
}

/// What is no file by its path is looked for in the managed directory: as the file of the managed
/// model it names, or else as a file of that name; where there is none, that is said.
pub proof fn law_file_in_directory_is_removed(
    dir: Seq<char>,
    raw: Seq<char>,
    home: Option<Seq<char>>,
    disk: Snapshot,
)
    requires
        !disk.has_file(detect::expanded(raw, home)),
    ensures
        setup::model_by_input(raw) matches Some(model) ==> {
            &&& disk.has_file(path::spec_join(dir, model.spec_file_name())) ==> managed_model_at(
                dir,
                raw,
                home,
                disk,
            ) == Ok::<Seq<char>, ErrorView>(path::spec_join(dir, model.spec_file_name()))
            &&& !disk.has_file(path::spec_join(dir, model.spec_file_name())) ==> managed_model_at(
                dir,
                raw,
                home,
                disk,
            ) == Err::<Seq<char>, ErrorView>(
                error::plain("managed model `"@ + raw + "` was not found under "@ + dir),
            )
        },
        setup::model_by_input(raw) is None ==> {
            &&& disk.has_file(path::spec_join(dir, raw)) && path::is_single_name(raw)
                ==> managed_model_at(dir, raw, home, disk) == Ok::<Seq<char>, ErrorView>(
                path::spec_join(dir, raw),
            )
            &&& disk.has_file(path::spec_join(dir, raw)) ==> (managed_model_at(
                dir,
                raw,
                home,
                disk,
            ) is Ok <==> path::spec_lies_within(path::spec_join(dir, raw), dir))
            &&& !disk.has_file(path::spec_join(dir, raw)) ==> managed_model_at(dir, raw, home, disk)
                == Err::<Seq<char>, ErrorView>(
                error::plain("managed model `"@ + raw + "` was not found under "@ + dir),
            )
        },
{
    if setup::model_by_input(raw) is Some {
        let model = setup::model_by_input(raw)->0;
        lemma_bare_names(model);
        path::law_join_adds_component(dir, model.spec_file_name());
    } else if path::is_single_name(raw) {
        path::law_join_adds_component(dir, raw);
    }
}

/// Removing by name removes one file, the one that the name stands for; removing all removes every
/// file that was found, and is refused where there is none.
pub proof fn law_removal_takes_what_is_asked_for(
    raw: Seq<char>,
    dir: Seq<char>,
    present: bool,
    listing: Result<Vec<String>, String>,
    home: Option<Seq<char>>,
    disk: Snapshot,
)
    ensures
        managed_model_at(dir, raw, home, disk) matches Ok(path) ==> removal_targets(
            Some(raw),
            false,
            dir,
            present,
            listing,
            home,
            disk,
        ) == Ok::<Seq<Seq<char>>, ErrorView>(seq![path]),
        managed_model_at(dir, raw, home, disk) matches Err(e) ==> removal_targets(
            Some(raw),
            false,
            dir,
            present,
            listing,
            home,
            disk,
        ) == Err::<Seq<Seq<char>>, ErrorView>(e),
        removal_targets(None, true, dir, present, listing, home, disk) is Ok <==> present && (
        listing matches Ok(files) && files@.len() > 0),
        !present || (listing matches Ok(files) && files@.len() == 0) ==> removal_targets(
            None,
            true,
            dir,
            present,
            listing,
            home,
            disk,
        ) == Err::<Seq<Seq<char>>, ErrorView>(
            error::plain("no managed models were found under "@ + dir),
        ),
        removal_targets(None, true, dir, present, listing, home, disk) matches Ok(targets) ==> (
        listing matches Ok(files) && targets.to_multiset() == files.deep_view().to_multiset()),
{
    broadcast use vstd::seq_lib::group_to_multiset_ensures;

    if listing is Ok {
        let files = listing->Ok_0;
        setup::law_listing_is_sorted(files.deep_view());
        assert(files.deep_view().to_multiset().len() == files@.len());
        assert(setup::by_file_name(files.deep_view()).to_multiset().len()
            == setup::by_file_name(files.deep_view()).len());
    }
}

/// The configuration is stored again exactly if the model in effect was removed. Then it names the
/// best model that is left, or none where none is left, and is otherwise as it was.
pub proof fn law_best_model_left_takes_over(
    config: ConfigFileView,
    in_effect: Option<Seq<char>>,
    removed: Seq<Seq<char>>,
    dir: Seq<char>,
    disk: Snapshot,
    key: ConfigKey,
)
    ensures
        replacement(config, in_effect, removed, dir, disk) is Some <==> (in_effect matches Some(
            model,
        ) && exists|i: int|
            0 <= i < removed.len() && path::components(#[trigger] removed[i])
                == path::components(model)),
        replacement(config, in_effect, removed, dir, disk) matches Some(after) ==> {
            &&& key != ConfigKey::WhisperModelPath ==> after.value_of(key) == config.value_of(key)
            &&& disk.files_of(dir) is None ==> after.whisper_model_path is None
            &&& disk.files_of(dir) matches Some(files) ==> {
                &&& after.whisper_model_path is None <==> forall|i: int|
                    0 <= i < files.len() ==> !detect::is_model_path(#[trigger] files[i])
                &&& after.whisper_model_path matches Some(model) ==> files.contains(model)
                    && detect::is_model_path(model) && forall|i: int|
                    0 <= i < files.len() && detect::is_model_path(#[trigger] files[i])
                        ==> !detect::better(
                        detect::model_rank(files[i]),
                        detect::model_rank(model),
                    )
            }
        },
{
    if disk.files_of(dir) is Some {
        let files = disk.files_of(dir)->0;
        detect::law_best_model(files);
        if detect::best_model(files) is Some {
            let model = detect::best_model(files)->0;
            let i = choose|i: int| 0 <= i < files.len() && files[i] == model;
            assert(detect::is_model_path(files[i]));
        }
    }
    if in_effect is Some {
        let model = in_effect->0;
        if exists|i: int|
            0 <= i < removed.len() && path::components(#[trigger] removed[i]) == path::components(
                model,
            ) {
            let i = choose|i: int|
                0 <= i < removed.len() && path::components(#[trigger] removed[i])
                    == path::components(model);
            assert(path::spec_same(removed[i], model));
        }
        if detect::has_path(removed, model) {
            let i = choose|i: int|
                0 <= i < removed.len() && path::spec_same(#[trigger] removed[i], model);
            assert(path::components(removed[i]) == path::components(model));
        }
    }
}

/// The report on the managed models tells where they lie, which model is in effect, and of each of
/// them what is listed.
pub proof fn law_models_are_reported(
    report: ModelListReport,
    paths: AppPaths,
    config: EffectiveView,
    files: Seq<ModelFile>,
)
    requires
        reports_models(report, paths, config, files),
    ensures
        report.managed_model_dir@ == path::spec_join(paths.config_dir@, "models"@),
        report.active_model_path.deep_view() == config.whisper_model_path,
        report.models.deep_view() == entries_of(files, config.whisper_model_path),
{
}

/// A removal is reported with every file that was removed and with the model in effect afterwards.
pub proof fn law_removal_is_reported(
    report: ModelRemoveReport,
    removed_paths: Seq<Seq<char>>,
    effective: EffectiveView,
    paths: AppPaths,
)
    requires
        reports_removal(report, removed_paths, effective, paths),
    ensures
        report.removed_paths.deep_view() == removed_paths,
        report.active_model_path.deep_view() == effective.whisper_model_path,
        report.config_file@ == paths.config_file@,
{
}

} // verus!
