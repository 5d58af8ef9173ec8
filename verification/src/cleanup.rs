//! Removing managed state: what is removed, what becomes of the configuration, and what is reported.
use crate::background;
use crate::background::ActiveRecordingState;
use crate::config::{AppPaths, ConfigFile, ConfigFileView, ConfigKey};
use crate::disk::PathKind;
use crate::error;
use crate::error::{Error, ErrorView};
use crate::path;
use crate::text;
use vstd::prelude::*;

verus! {

// ---------------------------------------------------------------------------------------------
// What is removed
// ---------------------------------------------------------------------------------------------
/// What is to be removed.
#[derive(Debug, Clone, Copy, PartialEq, Eq, Structural)]
pub struct CleanupArgs {
    /// All managed state.
    pub all: bool,
    /// The managed models.
    pub models: bool,
    /// The recorded sessions.
    pub sessions: bool,
    /// The managed whisper-cli.
    pub bin: bool,
    /// The native helper.
    pub helper: bool,
    /// The configuration, and what is remembered of recordings.
    pub config: bool,
}

impl CleanupArgs {
    /// Whether anything is to be removed.
    pub open spec fn names_scope(self) -> bool {
        self.all || self.models || self.sessions || self.bin || self.helper || self.config
    }
}

/// `path`, where it is to be removed.
pub open spec fn where_wanted(wanted: bool, path: Seq<char>) -> Seq<Seq<char>> {
    if wanted {
        seq![path]
    } else {
        Seq::empty()
    }
}

/// The paths that are to be removed, in order.
pub open spec fn targets_of(args: CleanupArgs, paths: AppPaths) -> Seq<Seq<char>> {
    let dir = paths.config_dir@;
    if args.all {
        seq![dir]
    } else {
        where_wanted(args.models, path::spec_join(dir, "models"@)) + where_wanted(
            args.sessions,
            path::spec_join(dir, "sessions"@),
        ) + where_wanted(args.bin, path::spec_join(dir, "bin"@)) + where_wanted(
            args.helper,
            path::spec_join(dir, "native-helper"@),
        ) + where_wanted(args.config, paths.config_file@) + where_wanted(
            args.config,
            path::spec_join(dir, "active-recording.json"@),
        )
    }
}

/// The refusal of a cleanup that is to remove nothing.
pub open spec fn no_scope() -> ErrorView {
    error::plain("pass at least one cleanup scope like `--models`, `--sessions`, or `--all`"@)
}

/// The paths that are to be removed, or why nothing is: nothing was asked for, or a recording is
/// under way.
pub open spec fn cleanup_plan(
    args: CleanupArgs,
    paths: AppPaths,
    existing: Option<ActiveRecordingState>,
    running: bool,
) -> Result<Seq<Seq<char>>, ErrorView> {
    if !args.names_scope() {
        Err(no_scope())
    } else {
        match background::idle_check(existing, running) {
            Ok(()) => Ok(targets_of(args, paths)),
            Err(e) => Err(e),
        }
    }
}

fn push_wanted(targets: &mut Vec<String>, wanted: bool, path: &str)
    ensures
        final(targets).deep_view() == old(targets).deep_view() + where_wanted(wanted, path@),
{
    if wanted {
        text::push_text(targets, path);
    }
    assert(targets.deep_view() =~= old(targets).deep_view() + where_wanted(wanted, path@));
}

/// Refuses a cleanup that is to remove nothing.
pub fn require_scope(args: CleanupArgs) -> (r: Result<(), Error>)
    ensures
        match r {
            Ok(()) => args.names_scope(),
            Err(e) => !args.names_scope() && e@ == no_scope(),
        },
{
    if args.all || args.models || args.sessions || args.bin || args.helper || args.config {
        Ok(())
    } else {
        Err(
            Error::new(
                "pass at least one cleanup scope like `--models`, `--sessions`, or `--all`".to_owned(),
            ),
        )
    }
}

/// The paths that are to be removed. `existing` is the recording that is remembered, and `running`
/// whether its process still runs.
pub fn run_cleanup(
    args: CleanupArgs,
    paths: &AppPaths,
    existing: &Option<ActiveRecordingState>,
    running: bool,
) -> (r: Result<Vec<String>, Error>)
    ensures
        match r {
            Ok(targets) => cleanup_plan(args, *paths, *existing, running) == Ok::<
                Seq<Seq<char>>,
                ErrorView,
            >(targets.deep_view()),
            Err(e) => cleanup_plan(args, *paths, *existing, running) == Err::<
                Seq<Seq<char>>,
                ErrorView,
            >(e@),
        },
{
    if let Err(e) = require_scope(args) {
        return Err(e);
    }
    if let Err(e) = background::ensure_no_active_recording(existing, running) {
        return Err(e);
    }
    let dir = paths.config_dir.as_str();
    let mut targets: Vec<String> = Vec::new();
    assert(targets.deep_view() =~= Seq::empty());
    if args.all {
        text::push_text(&mut targets, dir);
        assert(targets.deep_view() =~= targets_of(args, *paths));
        return Ok(targets);
    }
    push_wanted(&mut targets, args.models, path::join(dir, "models").as_str());
    push_wanted(&mut targets, args.sessions, path::join(dir, "sessions").as_str());
    push_wanted(&mut targets, args.bin, path::join(dir, "bin").as_str());
    push_wanted(&mut targets, args.helper, path::join(dir, "native-helper").as_str());
    push_wanted(&mut targets, args.config, paths.config_file.as_str());
    push_wanted(
        &mut targets,
        args.config,
        background::active_recording_state_path(paths).as_str(),
    );
    assert(Seq::<Seq<char>>::empty() + where_wanted(
        args.models,
        path::spec_join(paths.config_dir@, "models"@),
    ) =~= where_wanted(args.models, path::spec_join(paths.config_dir@, "models"@)));
    Ok(targets)
}

/// The configuration that a cleanup leaves behind, if it is to be stored: the paths of what was
/// removed are forgotten, unless the configuration itself was removed.
pub open spec fn config_after(args: CleanupArgs, config: ConfigFileView) -> Option<
    ConfigFileView,
> {
    if args.all || args.config || !(args.models || args.bin) {
        None
    } else {
        Some(
            ConfigFileView {
                whisper_model_path: if args.models {
                    None
                } else {
                    config.whisper_model_path
                },
                whisper_cli_path: if args.bin {
                    None
                } else {
                    config.whisper_cli_path
                },
                ..config
            },
        )
    }
}

/// The configuration that a cleanup leaves behind, if it is to be stored.
pub fn config_after_cleanup(args: CleanupArgs, config: ConfigFile) -> (r: Option<ConfigFile>)
    ensures
        match r {
            Some(after) => config_after(args, config@) == Some(after@),
            None => config_after(args, config@) is None,
        },
{
    if args.all || args.config || !(args.models || args.bin) {
        return None;
    }
    let mut after = config;
    if args.models {
        after.whisper_model_path = None;
    }
    if args.bin {
        after.whisper_cli_path = None;
    }
    Some(after)
}

// ---------------------------------------------------------------------------------------------
// Sizes
// ---------------------------------------------------------------------------------------------
/// What stands at a path, and how many bytes its files take.
#[derive(Debug)]
pub enum SizeTree {
    /// A file of this many bytes.
    File(u64),
    /// A directory that holds these.
    Directory(Vec<SizeTree>),
}

/// How many bytes the files in `tree` take.
pub open spec fn tree_size(tree: SizeTree) -> nat
    decreases tree,
{
    match tree {
        SizeTree::File(bytes) => bytes as nat,
        SizeTree::Directory(entries) => forest_size(entries@),
    }
}

/// How many bytes the files in all of `entries` take.
pub open spec fn forest_size(entries: Seq<SizeTree>) -> nat
    decreases entries,
{
    if entries.len() == 0 {
        0
    } else {
        tree_size(entries[0]) + forest_size(entries.subrange(1, entries.len() as int))
    }
}

/// How many bytes the files in a tree take, if that is a number the report can hold.
pub fn path_size_bytes(tree: &SizeTree) -> (r: Option<u64>)
    ensures
        match r {
            Some(bytes) => bytes == tree_size(*tree),
            None => tree_size(*tree) > u64::MAX,
        },
    decreases tree,
{
    match tree {
        SizeTree::File(bytes) => Some(*bytes),
        SizeTree::Directory(entries) => {
            let mut total: u64 = 0;
            let mut i: usize = 0;
            assert(entries@.subrange(0, entries@.len() as int) =~= entries@);
            while i < entries.len()
                invariant
                    i <= entries@.len(),
                    *tree == SizeTree::Directory(*entries),
                    total + forest_size(entries@.subrange(i as int, entries@.len() as int))
                        == forest_size(entries@),
                decreases entries@.len() - i,
            {
                let ghost left = entries@.subrange(i as int, entries@.len() as int);
                assert(left[0] == entries@[i as int]);
                assert(left.subrange(1, left.len() as int) =~= entries@.subrange(
                    i + 1,
                    entries@.len() as int,
                ));
                assert(decreases_to!(*tree => tree->Directory_0));
                assert(decreases_to!(tree->Directory_0 => tree->Directory_0@));
                assert(decreases_to!(tree->Directory_0@ => tree->Directory_0@[i as int]));
                let bytes = match path_size_bytes(&entries[i]) {
                    Some(bytes) => bytes,
                    None => {
                        return None;
                    },
                };
                total = match total.checked_add(bytes) {
                    Some(sum) => sum,
                    None => {
                        return None;
                    },
                };
                i = i + 1;
            }
            Some(total)
        },
    }
}

// ---------------------------------------------------------------------------------------------
// Removing and reporting
// ---------------------------------------------------------------------------------------------
/// How something is removed.
#[derive(Debug, Clone, Copy, PartialEq, Eq, Structural)]
pub enum Removal {
    /// Not at all: nothing stands there.
    Skip,
    /// With all that it holds.
    Directory,
    /// As a single file.
    File,
}

/// How what stands at a path is removed.
pub open spec fn removal_for(kind: PathKind) -> Removal {
    match kind {
        PathKind::Missing => Removal::Skip,
        PathKind::Directory => Removal::Directory,
        _ => Removal::File,
    }
}

/// How what stands at a path is removed.
pub fn removal_of(kind: PathKind) -> (r: Removal)
    ensures
        r == removal_for(kind),
        r == match kind {
            PathKind::Missing => Removal::Skip,
            PathKind::Directory => Removal::Directory,
            _ => Removal::File,
        },
{
    match kind {
        PathKind::Missing => Removal::Skip,
        PathKind::Directory => Removal::Directory,
        _ => Removal::File,
    }
}

/// What was removed before, and `path` behind it where something stood there, with the bytes that
/// this counts for.
pub open spec fn counted(removed: Seq<Seq<char>>, path: Seq<char>, kind: PathKind, bytes: u64) -> (
    Seq<Seq<char>>,
    u64,
) {
    if kind == PathKind::Missing {
        (removed, 0)
    } else {
        (removed.push(path), bytes)
    }
}

/// Counts what was removed: `kind` stood at `path` and took `bytes` bytes. What was not there counts
/// for nothing.
pub fn remove_path_if_exists(path: &str, kind: PathKind, bytes: u64, removed_paths: &mut Vec<String>)
    -> (r: u64)
    ensures
        (final(removed_paths).deep_view(), r) == counted(
            old(removed_paths).deep_view(),
            path@,
            kind,
            bytes,
        ),
        kind == PathKind::Missing ==> r == 0 && final(removed_paths).deep_view() == old(
            removed_paths,
        ).deep_view(),
        kind != PathKind::Missing ==> r == bytes && final(removed_paths).deep_view() == old(
            removed_paths,
        ).deep_view().push(path@),
{
    if kind == PathKind::Missing {
        return 0;
    }
    text::push_text(removed_paths, path);
    bytes
}

/// The sum of `sizes`.
pub open spec fn sum_of(sizes: Seq<u64>) -> nat
    decreases sizes.len(),
{
    if sizes.len() == 0 {
        0
    } else {
        sum_of(sizes.drop_last()) + sizes.last() as nat
    }
}

proof fn lemma_sum_grows(sizes: Seq<u64>, i: int)
    requires
        0 <= i <= sizes.len(),
    ensures
        sum_of(sizes.take(i)) <= sum_of(sizes),
    decreases sizes.len(),
{
    if i < sizes.len() {
        lemma_sum_grows(sizes.drop_last(), i);
        assert(sizes.drop_last().take(i) =~= sizes.take(i));
    } else {
        assert(sizes.take(i) =~= sizes);
    }
}

/// The sum of several sizes, if that is a number the report can hold.
pub fn total_bytes(sizes: &Vec<u64>) -> (r: Option<u64>)
    ensures
        match r {
            Some(total) => total == sum_of(sizes@),
            None => sum_of(sizes@) > u64::MAX,
        },
{
    let mut total: u64 = 0;
    let mut i: usize = 0;
    while i < sizes.len()
        invariant
            i <= sizes@.len(),
            total == sum_of(sizes@.take(i as int)),
        decreases sizes@.len() - i,
    {
        assert(sizes@.take(i + 1).drop_last() =~= sizes@.take(i as int));
        assert(sizes@.take(i + 1).last() == sizes@[i as int]);
        total = match total.checked_add(sizes[i]) {
            Some(sum) => sum,
            None => {
                proof {
                    lemma_sum_grows(sizes@, i + 1);
                }
                return None;
            },
        };
        i = i + 1;
    }
    assert(sizes@.take(i as int) =~= sizes@);
    Some(total)
}

/// What is reported of a cleanup.
#[derive(Debug)]
pub struct CleanupReport {
    pub object: &'static str,
    pub status: &'static str,
    pub config_dir: String,
    pub removed_paths: Vec<String>,
    pub bytes_removed: u64,
}

/// Whether `report` is what is reported of a cleanup.
pub open spec fn reports_cleanup(
    report: CleanupReport,
    paths: AppPaths,
    removed_paths: Seq<Seq<char>>,
    bytes_removed: u64,
) -> bool {
    &&& report.object@ == "cleanup"@
    &&& report.status@ == "completed"@
    &&& report.config_dir@ == paths.config_dir@
    &&& report.removed_paths.deep_view() == removed_paths
    &&& report.bytes_removed == bytes_removed
}

/// What is reported of a cleanup.
pub fn cleanup_report(paths: &AppPaths, removed_paths: Vec<String>, bytes_removed: u64) -> (r:
    CleanupReport)
    ensures
        reports_cleanup(r, *paths, removed_paths.deep_view(), bytes_removed),
        r.object@ == "cleanup"@,
        r.status@ == "completed"@,
        r.config_dir@ == paths.config_dir@,
        r.removed_paths == removed_paths,
        r.bytes_removed == bytes_removed,
{
    CleanupReport {
        object: "cleanup",
        status: "completed",
        config_dir: paths.config_dir.clone(),
        removed_paths,
        bytes_removed,
    }
}

// ---------------------------------------------------------------------------------------------
// Laws
// ---------------------------------------------------------------------------------------------
/// All that a cleanup removes is managed state: it lies under the directory that holds all of it.
pub proof fn law_cleanup_stays_in_managed_state(
    args: CleanupArgs,
    paths: AppPaths,
    target: Seq<char>,
)
    requires
        paths.lie_under(paths.config_dir@),
        targets_of(args, paths).contains(target),
    ensures
        path::spec_lies_within(target, paths.config_dir@),
{
    let dir = paths.config_dir@;
    reveal_strlit("models");
    reveal_strlit("sessions");
    reveal_strlit("bin");
    reveal_strlit("native-helper");
    reveal_strlit("config.toml");
    reveal_strlit("active-recording.json");
    path::law_join_adds_component(dir, "models"@);
    path::law_join_adds_component(dir, "sessions"@);
    path::law_join_adds_component(dir, "bin"@);
    path::law_join_adds_component(dir, "native-helper"@);
    path::law_join_adds_component(dir, "config.toml"@);
    path::law_join_adds_component(dir, "active-recording.json"@);
    assert(path::components(dir).is_prefix_of(path::components(dir)));
}

/// Removing everything removes one directory, and with it all that any other scope names.
pub proof fn law_all_covers_every_scope(args: CleanupArgs, paths: AppPaths, target: Seq<char>)
    requires
        paths.lie_under(paths.config_dir@),
        targets_of(args, paths).contains(target),
    ensures
        targets_of(CleanupArgs { all: true, ..args }, paths) == seq![paths.config_dir@],
        path::spec_lies_within(
            target,
            targets_of(CleanupArgs { all: true, ..args }, paths)[0],
        ),
{
    law_cleanup_stays_in_managed_state(args, paths, target);
}

/// Where nothing is asked for, nothing is removed, and while a recording is under way neither.
pub proof fn law_cleanup_is_refused(
    args: CleanupArgs,
    paths: AppPaths,
    existing: Option<ActiveRecordingState>,
    running: bool,
)
    ensures
        cleanup_plan(args, paths, existing, running) is Ok <==> args.names_scope() && !(existing
            is Some && running),
{
}

/// A cleanup changes nothing of the configuration but the paths of the tool and of the model, and
/// forgets each exactly where it is removed.
pub proof fn law_cleanup_keeps_other_settings(
    args: CleanupArgs,
    config: ConfigFileView,
    key: ConfigKey,
)
    ensures
        config_after(args, config) matches Some(after) ==> {
            &&& key != ConfigKey::WhisperModelPath && key != ConfigKey::WhisperCliPath
                ==> after.value_of(key) == config.value_of(key)
            &&& args.models ==> after.whisper_model_path is None
            &&& !args.models ==> after.whisper_model_path == config.whisper_model_path
            &&& args.bin ==> after.whisper_cli_path is None
            &&& !args.bin ==> after.whisper_cli_path == config.whisper_cli_path
        },
{
}

/// A configuration that is removed is not written again.
pub proof fn law_removed_config_is_not_stored(args: CleanupArgs, config: ConfigFileView)
    requires
        args.config || args.all,
    ensures
        config_after(args, config) is None,
{
}

/// Whether `target` is among what a cleanup removes.
pub open spec fn removes(
    args: CleanupArgs,
    paths: AppPaths,
    existing: Option<ActiveRecordingState>,
    running: bool,
    target: Seq<char>,
) -> bool {
    cleanup_plan(args, paths, existing, running) matches Ok(targets) && targets.contains(target)
}

proof fn lemma_scope_names(dir: Seq<char>)
    ensures
        path::is_single_name("models"@),
        path::is_single_name("sessions"@),
        path::is_single_name("bin"@),
        path::is_single_name("native-helper"@),
        path::is_single_name("config.toml"@),
        path::is_single_name("active-recording.json"@),
        "models"@.len() == 6,
        "sessions"@.len() == 8,
        "bin"@.len() == 3,
        "native-helper"@.len() == 13,
        "config.toml"@.len() == 11,
        "active-recording.json"@.len() == 21,
        path::spec_file_name(path::spec_join(dir, "models"@)) == Some("models"@),
        path::spec_file_name(path::spec_join(dir, "sessions"@)) == Some("sessions"@),
        path::spec_file_name(path::spec_join(dir, "bin"@)) == Some("bin"@),
        path::spec_file_name(path::spec_join(dir, "native-helper"@)) == Some("native-helper"@),
        path::spec_file_name(path::spec_join(dir, "config.toml"@)) == Some("config.toml"@),
        path::spec_file_name(path::spec_join(dir, "active-recording.json"@)) == Some(
            "active-recording.json"@,
        ),
{
    reveal_strlit("models");
    reveal_strlit("sessions");
    reveal_strlit("bin");
    reveal_strlit("native-helper");
    reveal_strlit("config.toml");
    reveal_strlit("active-recording.json");
    path::law_join_file_name(dir, "models"@);
    path::law_join_file_name(dir, "sessions"@);
    path::law_join_file_name(dir, "bin"@);
    path::law_join_file_name(dir, "native-helper"@);
    path::law_join_file_name(dir, "config.toml"@);
    path::law_join_file_name(dir, "active-recording.json"@);
}

proof fn lemma_wanted(
    a: Seq<Seq<char>>,
    wanted: bool,
    path: Seq<char>,
    b: Seq<Seq<char>>,
    target: Seq<char>,
)
    requires
        b == a + where_wanted(wanted, path),
    ensures
        b.contains(target) <==> a.contains(target) || (wanted && target == path),
        a.no_duplicates() && !a.contains(path) ==> b.no_duplicates(),
{
    if a.contains(target) {
        let i = choose|i: int| 0 <= i < a.len() && a[i] == target;
        assert(b[i] == target);
    }
    if wanted {
        assert(b[a.len() as int] == path);
    }
    if b.contains(target) {
        let i = choose|i: int| 0 <= i < b.len() && b[i] == target;
        if i < a.len() {
            assert(a[i] == target);
        }
    }
    if a.no_duplicates() && !a.contains(path) {
        assert forall|i: int, j: int| 0 <= i < b.len() && 0 <= j < b.len() && i != j implies b[i]
            != b[j] by {
            if i < a.len() {
                assert(a[i] == b[i]);
                assert(a.contains(a[i]));
            }
            if j < a.len() {
                assert(a[j] == b[j]);
                assert(a.contains(a[j]));
            }
        }
    }
}

/// Without `all`, what a scope names is removed exactly if that scope is asked for: the directory of
/// sessions, that of models, that of programs, that of the helper, and the configuration file with
/// what is remembered of recordings. Nothing else is removed, and nothing twice.
pub proof fn law_only_what_is_asked_for_is_removed(
    args: CleanupArgs,
    paths: AppPaths,
    existing: Option<ActiveRecordingState>,
    running: bool,
    target: Seq<char>,
)
    requires
        paths.lie_under(paths.config_dir@),
        !args.all,
        args.models || args.sessions || args.bin || args.helper || args.config,
        existing is None || !running,
    ensures
        removes(
            args,
            paths,
            existing,
            running,
            path::spec_join(paths.config_dir@, "models"@),
        ) <==> args.models,
        removes(
            args,
            paths,
            existing,
            running,
            path::spec_join(paths.config_dir@, "sessions"@),
        ) <==> args.sessions,
        removes(
            args,
            paths,
            existing,
            running,
            path::spec_join(paths.config_dir@, "bin"@),
        ) <==> args.bin,
        removes(
            args,
            paths,
            existing,
            running,
            path::spec_join(paths.config_dir@, "native-helper"@),
        ) <==> args.helper,
        removes(
            args,
            paths,
            existing,
            running,
            path::spec_join(paths.config_dir@, "config.toml"@),
        ) <==> args.config,
        removes(args, paths, existing, running, paths.config_file@) <==> args.config,
        removes(
            args,
            paths,
            existing,
            running,
            path::spec_join(paths.config_dir@, "active-recording.json"@),
        ) <==> args.config,
        removes(args, paths, existing, running, target) ==> {
            ||| target == path::spec_join(paths.config_dir@, "models"@)
            ||| target == path::spec_join(paths.config_dir@, "sessions"@)
            ||| target == path::spec_join(paths.config_dir@, "bin"@)
            ||| target == path::spec_join(paths.config_dir@, "native-helper"@)
            ||| target == paths.config_file@
            ||| target == path::spec_join(paths.config_dir@, "active-recording.json"@)
        },
        cleanup_plan(args, paths, existing, running) matches Ok(targets)
            && targets.no_duplicates(),
{
    let dir = paths.config_dir@;
    lemma_scope_names(dir);
    let models = path::spec_join(dir, "models"@);
    let sessions = path::spec_join(dir, "sessions"@);
    let bin = path::spec_join(dir, "bin"@);
    let helper = path::spec_join(dir, "native-helper"@);
    let config = paths.config_file@;
    let active = path::spec_join(dir, "active-recording.json"@);
    let a0 = Seq::<Seq<char>>::empty();
    let a1 = where_wanted(args.models, models);
    let a2 = a1 + where_wanted(args.sessions, sessions);
    let a3 = a2 + where_wanted(args.bin, bin);
    let a4 = a3 + where_wanted(args.helper, helper);
    let a5 = a4 + where_wanted(args.config, config);
    let a6 = a5 + where_wanted(args.config, active);
    assert(a1 =~= a0 + where_wanted(args.models, models));
    assert forall|p: Seq<char>| #[trigger] a6.contains(p) <==> {
        ||| args.models && p == models
        ||| args.sessions && p == sessions
        ||| args.bin && p == bin
        ||| args.helper && p == helper
        ||| args.config && p == config
        ||| args.config && p == active
    } by {
        lemma_wanted(a0, args.models, models, a1, p);
        lemma_wanted(a1, args.sessions, sessions, a2, p);
        lemma_wanted(a2, args.bin, bin, a3, p);
        lemma_wanted(a3, args.helper, helper, a4, p);
        lemma_wanted(a4, args.config, config, a5, p);
        lemma_wanted(a5, args.config, active, a6, p);
    }
    lemma_wanted(a0, args.models, models, a1, sessions);
    lemma_wanted(a1, args.sessions, sessions, a2, bin);
    lemma_wanted(a0, args.models, models, a1, bin);
    lemma_wanted(a2, args.bin, bin, a3, helper);
    lemma_wanted(a1, args.sessions, sessions, a2, helper);
    lemma_wanted(a0, args.models, models, a1, helper);
    lemma_wanted(a3, args.helper, helper, a4, config);
    lemma_wanted(a2, args.bin, bin, a3, config);
    lemma_wanted(a1, args.sessions, sessions, a2, config);
    lemma_wanted(a0, args.models, models, a1, config);
    lemma_wanted(a4, args.config, config, a5, active);
    lemma_wanted(a3, args.helper, helper, a4, active);
    lemma_wanted(a2, args.bin, bin, a3, active);
    lemma_wanted(a1, args.sessions, sessions, a2, active);
    lemma_wanted(a0, args.models, models, a1, active);
    lemma_wanted(a5, args.config, active, a6, active);
    assert(targets_of(args, paths) == a6);
}

/// With `all`, the one directory that holds all managed state is removed, whatever else is asked
/// for.
pub proof fn law_all_removes_the_directory(
    args: CleanupArgs,
    paths: AppPaths,
    existing: Option<ActiveRecordingState>,
    running: bool,
)
    requires
        args.all,
        existing is None || !running,
    ensures
        cleanup_plan(args, paths, existing, running) matches Ok(targets) && targets.len() == 1
            && targets[0] == paths.config_dir@,
{
}

/// What a refused cleanup says: where nothing is asked for, what can be asked for, and while a
/// recording is under way, which one is.
pub proof fn law_refusal_of_cleanup_says_why(
    args: CleanupArgs,
    paths: AppPaths,
    existing: Option<ActiveRecordingState>,
    running: bool,
)
    ensures
        !(args.all || args.models || args.sessions || args.bin || args.helper || args.config)
            ==> cleanup_plan(args, paths, existing, running) == Err::<Seq<Seq<char>>, ErrorView>(
            error::plain(
                "pass at least one cleanup scope like `--models`, `--sessions`, or `--all`"@,
            ),
        ),
        (args.all || args.models || args.sessions || args.bin || args.helper || args.config)
            && running ==> (existing matches Some(state) ==> cleanup_plan(
            args,
            paths,
            existing,
            running,
        ) == Err::<Seq<Seq<char>>, ErrorView>(
            error::plain(
                "an active recording is running: "@ + state.session_id@
                    + "; stop it before cleanup"@,
            ),
        )),
{
}

/// The configuration is stored again exactly where the model or the tool it may name was removed and
/// it was not removed itself.
pub proof fn law_config_is_stored_where_it_changes(args: CleanupArgs, config: ConfigFileView)
    ensures
        config_after(args, config) is Some <==> (args.models || args.bin) && !args.config
            && !args.all,
{
}

/// The size of a directory is that of all that it holds, however it is divided; that of a file is
/// its own.
pub proof fn law_sizes_add_up(a: Seq<SizeTree>, b: Seq<SizeTree>, entries: Vec<SizeTree>, bytes: u64)
    ensures
        tree_size(SizeTree::File(bytes)) == bytes,
        tree_size(SizeTree::Directory(entries)) == forest_size(entries@),
        forest_size(Seq::empty()) == 0,
        b.len() == 1 ==> forest_size(b) == tree_size(b[0]),
        forest_size(a + b) == forest_size(a) + forest_size(b),
    decreases a.len(),
{
    if b.len() == 1 {
        assert(b.subrange(1, 1) =~= Seq::empty());
        assert(forest_size(b.subrange(1, b.len() as int)) == 0);
    }
    if a.len() == 0 {
        assert(a + b =~= b);
    } else {
        let rest = a.subrange(1, a.len() as int);
        law_sizes_add_up(rest, b, entries, bytes);
        assert((a + b).subrange(1, (a + b).len() as int) =~= rest + b);
    }
}

/// What was removed is counted in full: the sum over two lists is the sum of both.
pub proof fn law_sums_add_up(a: Seq<u64>, b: Seq<u64>, bytes: u64)
    ensures
        sum_of(Seq::empty()) == 0,
        sum_of(seq![bytes]) == bytes,
        sum_of(a + b) == sum_of(a) + sum_of(b),
    decreases b.len(),
{
    assert(seq![bytes].drop_last() =~= Seq::empty());
    assert(sum_of(seq![bytes].drop_last()) == 0);
    if b.len() == 0 {
        assert(a + b =~= a);
    } else {
        law_sums_add_up(a, b.drop_last(), bytes);
        assert((a + b).drop_last() =~= a + b.drop_last());
    }
}

/// A directory is removed with all that it holds, anything else that stands there by itself, and
/// nothing where nothing stands.
pub proof fn law_removal_goes_by_what_stands_there(kind: PathKind)
    ensures
        removal_for(kind) == Removal::Skip <==> kind == PathKind::Missing,
        removal_for(kind) == Removal::Directory <==> kind == PathKind::Directory,
        removal_for(kind) == Removal::File <==> kind == PathKind::File || kind == PathKind::Other,
{
}

/// What stood at a path is counted, with its path and its bytes, behind what was removed before; what
/// did not stand there is not.
pub proof fn law_only_what_stood_there_is_counted(
    removed: Seq<Seq<char>>,
    path: Seq<char>,
    kind: PathKind,
    bytes: u64,
)
    ensures
        kind == PathKind::Missing ==> counted(removed, path, kind, bytes).0 == removed && counted(
            removed,
            path,
            kind,
            bytes,
        ).1 == 0,
        kind != PathKind::Missing ==> counted(removed, path, kind, bytes).0 == removed + seq![path]
            && counted(removed, path, kind, bytes).1 == bytes,
{
    assert(removed.push(path) =~= removed + seq![path]);
}

/// A cleanup is reported with every path that was removed and with all of their bytes.
pub proof fn law_cleanup_is_reported(
    report: CleanupReport,
    paths: AppPaths,
    removed_paths: Seq<Seq<char>>,
    bytes_removed: u64,
)
    requires
        reports_cleanup(report, paths, removed_paths, bytes_removed),
    ensures
        report.removed_paths.deep_view() == removed_paths,
        report.bytes_removed == bytes_removed,
        report.config_dir@ == paths.config_dir@,
        report.object@ == "cleanup"@,
        report.status@ == "completed"@,
{
}

} // verus!
