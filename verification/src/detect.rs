//! Finding a whisper-cli and a model where none is configured.
use crate::disk;
use crate::disk::{Environment, Snapshot};
use crate::encoding;
use crate::path;
use crate::text;
use vstd::prelude::*;

verus! {

// ---------------------------------------------------------------------------------------------
// Home
// ---------------------------------------------------------------------------------------------
/// `path` with a leading `~` standing for the home directory, where there is one, and what follows as
/// it is shown.
pub open spec fn expanded(path: Seq<char>, home: Option<Seq<char>>) -> Seq<char> {
    match home {
        Some(home) => if path == "~"@ {
            home
        } else if text::spec_starts_with(path, "~/"@) {
            path::spec_join(home, encoding::shown(path.skip(2)))
        } else {
            path
        },
        None => path,
    }
}

/// The path with a leading `~` standing for the home directory, where there is one.
pub fn expand_home(path: String, home: &Option<String>) -> (r: String)
    ensures
        r@ == expanded(path@, home.deep_view()),
{
    match home {
        Some(home) => {
            if text::same(path.as_str(), "~") {
                home.clone()
            } else if text::starts_with(path.as_str(), "~/") {
                proof {
                    reveal_strlit("~/");
                }
                let rest = text::drop_chars(path.as_str(), 2);
                path::join(home.as_str(), encoding::shown_text(rest.as_str()).as_str())
            } else {
                path
            }
        },
        None => path,
    }
}

// ---------------------------------------------------------------------------------------------
// The tool
// ---------------------------------------------------------------------------------------------
/// Where a release puts its whisper-cli, as seen from the program at `exe`.
pub open spec fn bundled_at(exe: Seq<char>) -> Seq<Seq<char>> {
    match path::spec_parent(exe) {
        Some(dir) => seq![
            path::spec_join(dir, "whisper-cli"@),
            path::spec_join(dir, "../libexec/whisper-cli"@),
            path::spec_join(dir, "../libexec/scribecli/whisper-cli"@),
        ],
        None => Seq::empty(),
    }
}

/// Where a release puts its whisper-cli, as seen from the running program.
pub fn bundled_whisper_cli_candidates(exe_path: &str, disk: &Snapshot) -> (r: Vec<String>)
    ensures
        r.deep_view() == bundled_at(disk.target_of(exe_path@)),
{
    let exe = disk.target(exe_path);
    let mut candidates: Vec<String> = Vec::new();
    if let Some(dir) = path::parent(exe.as_str()) {
        candidates.push(path::join(dir.as_str(), "whisper-cli"));
        candidates.push(path::join(dir.as_str(), "../libexec/whisper-cli"));
        candidates.push(path::join(dir.as_str(), "../libexec/scribecli/whisper-cli"));
    }
    assert(candidates.deep_view() =~= bundled_at(disk.target_of(exe_path@)));
    candidates
}

/// `name` in each of `dirs`.
pub open spec fn in_each(dirs: Seq<Seq<char>>, name: Seq<char>) -> Seq<Seq<char>> {
    Seq::new(dirs.len(), |i: int| path::spec_join(dirs[i], name))
}

/// Where a program of this name may lie in the directories in which programs are looked for.
pub fn binary_candidates(name: &str, path_dirs: &Vec<String>) -> (r: Vec<String>)
    ensures
        r.deep_view() == in_each(path_dirs.deep_view(), name@),
{
    let mut out: Vec<String> = Vec::new();
    let mut i: usize = 0;
    let ghost all = in_each(path_dirs.deep_view(), name@);
    while i < path_dirs.len()
        invariant
            i <= path_dirs@.len(),
            all == in_each(path_dirs.deep_view(), name@),
            out.deep_view() =~= all.take(i as int),
        decreases path_dirs@.len() - i,
    {
        let ghost before = out.deep_view();
        let candidate = path::join(path_dirs[i].as_str(), name);
        let ghost shown = candidate@;
        out.push(candidate);
        assert(shown == all[i as int]);
        assert(out.deep_view() =~= before.push(shown));
        i = i + 1;
    }
    assert(all.take(i as int) =~= all);
    out
}

/// The program of this name in the first directory that holds it as a regular file.
pub fn find_binary_on_path(name: &str, path_dirs: &Vec<String>, disk: &Snapshot) -> (r: Option<
    String,
>)
    ensures
        r.deep_view() == disk.first_file_of(in_each(path_dirs.deep_view(), name@)),
{
    let candidates = binary_candidates(name, path_dirs);
    disk.first_file(&candidates)
}

/// Everywhere that a whisper-cli is looked for, in order: where the environment says, in the
/// release, in the directories in which programs are looked for, and where Homebrew puts it.
pub open spec fn cli_candidates(env: Environment, disk: Snapshot) -> Seq<Seq<char>> {
    (match env.whisper_cli_path.deep_view() {
        Some(raw) => seq![expanded(raw, env.home.deep_view())],
        None => Seq::empty(),
    }) + (match env.current_exe.deep_view() {
        Some(exe) => bundled_at(disk.target_of(exe)),
        None => Seq::empty(),
    }) + in_each(env.path_dirs.deep_view(), "whisper-cli"@) + seq![
        "/opt/homebrew/bin/whisper-cli"@,
        "/usr/local/bin/whisper-cli"@,
    ]
}

/// Everywhere that a whisper-cli is looked for, in order.
pub fn whisper_cli_candidates(env: &Environment, disk: &Snapshot) -> (r: Vec<String>)
    ensures
        r.deep_view() == cli_candidates(*env, *disk),
{
    let mut out: Vec<String> = Vec::new();
    if let Some(raw) = &env.whisper_cli_path {
        out.push(expand_home(raw.clone(), &env.home));
    }
    let ghost first = out.deep_view();
    assert(first =~= match env.whisper_cli_path.deep_view() {
        Some(raw) => seq![expanded(raw, env.home.deep_view())],
        None => Seq::empty(),
    });
    if let Some(exe) = &env.current_exe {
        let mut bundled = bundled_whisper_cli_candidates(exe.as_str(), disk);
        let ghost shown = bundled.deep_view();
        out.append(&mut bundled);
        assert(out.deep_view() =~= first + shown);
    }
    let ghost second = out.deep_view();
    assert(second =~= first + match env.current_exe.deep_view() {
        Some(exe) => bundled_at(disk.target_of(exe)),
        None => Seq::empty(),
    });
    let mut on_path = binary_candidates("whisper-cli", &env.path_dirs);
    let ghost shown = on_path.deep_view();
    out.append(&mut on_path);
    assert(out.deep_view() =~= second + shown);
    out.push("/opt/homebrew/bin/whisper-cli".to_owned());
    out.push("/usr/local/bin/whisper-cli".to_owned());
    assert(out.deep_view() =~= cli_candidates(*env, *disk));
    out
}

/// The first whisper-cli that is found.
pub open spec fn detected_cli(env: Environment, disk: Snapshot) -> Option<Seq<char>> {
    disk.first_file_of(cli_candidates(env, disk))
}

/// The first whisper-cli that is found.
pub fn detect_whisper_cli_path(env: &Environment, disk: &Snapshot) -> (r: Option<String>)
    ensures
        r.deep_view() == detected_cli(*env, *disk),
{
    let candidates = whisper_cli_candidates(env, disk);
    disk.first_file(&candidates)
}

// ---------------------------------------------------------------------------------------------
// Model files
// ---------------------------------------------------------------------------------------------
/// Whether a file of this name is a Whisper model.
pub open spec fn is_model_name(name: Seq<char>) -> bool {
    let lower = text::spec_lowercase(name);
    &&& text::spec_ends_with(lower, ".bin"@) || text::spec_ends_with(lower, ".gguf"@)
    &&& text::spec_contains(lower, "ggml"@) || text::spec_contains(lower, "whisper"@)
}

/// Whether the file at `path` is by its name a Whisper model.
pub open spec fn is_model_path(path: Seq<char>) -> bool {
    match path::spec_unicode_name(path) {
        Some(name) => is_model_name(name),
        None => false,
    }
}

/// Whether a path is by its file name that of a Whisper model.
pub fn is_whisper_model_file(path: &str) -> (r: bool)
    ensures
        r == is_model_path(path@),
{
    match path::unicode_name(path) {
        Some(name) => {
            let lower = text::lowercase(name.as_str());
            (text::ends_with(lower.as_str(), ".bin") || text::ends_with(lower.as_str(), ".gguf"))
                && (text::contains(lower.as_str(), "ggml") || text::contains(
                lower.as_str(),
                "whisper",
            ))
        },
        None => false,
    }
}

/// By what models are ordered: the better comes first.
pub struct ModelRank {
    pub size: int,
    pub format: int,
    pub name: Seq<char>,
}

/// The rank of a model by the size that its name gives, the largest first.
pub open spec fn size_rank(name: Seq<char>) -> int {
    if text::spec_contains(name, "large-v3-turbo"@) {
        0
    } else if text::spec_contains(name, "large-v3"@) {
        1
    } else if text::spec_contains(name, "large-v2"@) {
        2
    } else if text::spec_contains(name, "large"@) {
        3
    } else if text::spec_contains(name, "medium"@) {
        4
    } else if text::spec_contains(name, "small"@) {
        5
    } else if text::spec_contains(name, "base"@) {
        6
    } else if text::spec_contains(name, "tiny"@) {
        7
    } else {
        8
    }
}

/// The rank of the model at `path`.
pub open spec fn model_rank(path: Seq<char>) -> ModelRank {
    let name = text::spec_lowercase(
        match path::spec_unicode_name(path) {
            Some(name) => name,
            None => Seq::empty(),
        },
    );
    ModelRank {
        size: size_rank(name),
        format: if text::spec_ends_with(name, ".bin"@) {
            0
        } else {
            1
        },
        name,
    }
}

/// Whether rank `a` is better than rank `b`: by size, then by format, then by name.
pub open spec fn better(a: ModelRank, b: ModelRank) -> bool {
    if a.size != b.size {
        a.size < b.size
    } else if a.format != b.format {
        a.format < b.format
    } else {
        text::comes_before(a.name, b.name)
    }
}

/// By what a model is ordered: its size, its format and its name.
pub fn model_sort_key(path: &str) -> (r: (u8, u8, String))
    ensures
        model_rank(path@) == (ModelRank { size: r.0 as int, format: r.1 as int, name: r.2@ }),
{
    let own = match path::unicode_name(path) {
        Some(name) => name,
        None => String::new(),
    };
    let name = text::lowercase(own.as_str());
    let size: u8 = if text::contains(name.as_str(), "large-v3-turbo") {
        0
    } else if text::contains(name.as_str(), "large-v3") {
        1
    } else if text::contains(name.as_str(), "large-v2") {
        2
    } else if text::contains(name.as_str(), "large") {
        3
    } else if text::contains(name.as_str(), "medium") {
        4
    } else if text::contains(name.as_str(), "small") {
        5
    } else if text::contains(name.as_str(), "base") {
        6
    } else if text::contains(name.as_str(), "tiny") {
        7
    } else {
        8
    };
    let format: u8 = if text::ends_with(name.as_str(), ".bin") {
        0
    } else {
        1
    };
    (size, format, name)
}

fn ranks_better(a: &(u8, u8, String), b: &(u8, u8, String)) -> (r: bool)
    ensures
        r == better(
            ModelRank { size: a.0 as int, format: a.1 as int, name: a.2@ },
            ModelRank { size: b.0 as int, format: b.1 as int, name: b.2@ },
        ),
{
    if a.0 != b.0 {
        a.0 < b.0
    } else if a.1 != b.1 {
        a.1 < b.1
    } else {
        text::before(a.2.as_str(), b.2.as_str())
    }
}

/// The best of the models among `files`; of equally good ones, the one that comes first.
pub open spec fn best_model(files: Seq<Seq<char>>) -> Option<Seq<char>>
    decreases files.len(),
{
    if files.len() == 0 {
        None
    } else {
        let last = files.last();
        match best_model(files.drop_last()) {
            Some(best) => if is_model_path(last) && better(model_rank(last), model_rank(best)) {
                Some(last)
            } else {
                Some(best)
            },
            None => if is_model_path(last) {
                Some(last)
            } else {
                None
            },
        }
    }
}

/// The best of the models among `files`.
pub fn select_model(files: &Vec<String>) -> (r: Option<String>)
    ensures
        r.deep_view() == best_model(files.deep_view()),
{
    let ghost all = files.deep_view();
    let mut best: Option<String> = None;
    let mut i: usize = 0;
    assert(all.take(0) =~= Seq::<Seq<char>>::empty());
    while i < files.len()
        invariant
            i <= files@.len(),
            all == files.deep_view(),
            best.deep_view() == best_model(all.take(i as int)),
        decreases files@.len() - i,
    {
        assert(all.take(i + 1).drop_last() =~= all.take(i as int));
        assert(all.take(i + 1).last() == files@[i as int]@);
        if is_whisper_model_file(files[i].as_str()) {
            let replaces = match &best {
                Some(found) => {
                    let key = model_sort_key(files[i].as_str());
                    let found_key = model_sort_key(found.as_str());
                    ranks_better(&key, &found_key)
                },
                None => true,
            };
            if replaces {
                best = Some(files[i].clone());
            }
        }
        i = i + 1;
    }
    assert(all.take(i as int) =~= all);
    best
}

/// The best model in a directory.
pub open spec fn best_in(disk: Snapshot, dir: Seq<char>) -> Option<Seq<char>> {
    match disk.files_of(dir) {
        Some(files) => best_model(files),
        None => None,
    }
}

/// The best model in a directory.
pub fn select_model_from_dir(dir: &str, disk: &Snapshot) -> (r: Option<String>)
    ensures
        r.deep_view() == best_in(*disk, dir@),
{
    match disk.files(dir) {
        Some(files) => select_model(&files),
        None => None,
    }
}

// ---------------------------------------------------------------------------------------------
// Where models are looked for
// ---------------------------------------------------------------------------------------------
/// Whether one of `dirs` is `candidate`.
pub open spec fn has_path(dirs: Seq<Seq<char>>, candidate: Seq<char>) -> bool {
    exists|i: int| 0 <= i < dirs.len() && path::spec_same(#[trigger] dirs[i], candidate)
}

/// `dirs` with `candidate` behind them, if it is a directory and none of them.
pub open spec fn with_dir(disk: Snapshot, dirs: Seq<Seq<char>>, candidate: Seq<char>) -> Seq<
    Seq<char>,
> {
    if disk.has_dir(candidate) && !has_path(dirs, candidate) {
        dirs.push(candidate)
    } else {
        dirs
    }
}

/// `dirs` with each of `candidates` added in turn.
pub open spec fn with_dirs(
    disk: Snapshot,
    dirs: Seq<Seq<char>>,
    candidates: Seq<Seq<char>>,
) -> Seq<Seq<char>>
    decreases candidates.len(),
{
    if candidates.len() == 0 {
        dirs
    } else {
        with_dir(disk, with_dirs(disk, dirs, candidates.drop_last()), candidates.last())
    }
}

/// Whether one of several paths has the components of `candidate`.
pub fn contains_path(dirs: &Vec<String>, candidate: &str) -> (r: bool)
    ensures
        r == has_path(dirs.deep_view(), candidate@),
{
    let mut i: usize = 0;
    while i < dirs.len()
        invariant
            i <= dirs@.len(),
            forall|k: int|
                0 <= k < i ==> !path::spec_same(#[trigger] dirs.deep_view()[k], candidate@),
        decreases dirs@.len() - i,
    {
        assert(dirs.deep_view()[i as int] == dirs@[i as int]@);
        if path::same(dirs[i].as_str(), candidate) {
            return true;
        }
        i = i + 1;
    }
    false
}

/// Adds a path to `dirs` if it is a directory that they do not hold yet.
pub fn append_unique_dir(dirs: &mut Vec<String>, candidate: String, disk: &Snapshot)
    ensures
        final(dirs).deep_view() == with_dir(*disk, old(dirs).deep_view(), candidate@),
{
    if disk.is_dir(candidate.as_str()) && !contains_path(dirs, candidate.as_str()) {
        let ghost before = dirs.deep_view();
        let ghost shown = candidate@;
        dirs.push(candidate);
        assert(dirs.deep_view() =~= before.push(shown));
    }
}

fn append_unique_dirs(dirs: &mut Vec<String>, candidates: &Vec<String>, disk: &Snapshot)
    ensures
        final(dirs).deep_view() == with_dirs(
            *disk,
            old(dirs).deep_view(),
            candidates.deep_view(),
        ),
{
    let ghost start = dirs.deep_view();
    let ghost all = candidates.deep_view();
    let mut i: usize = 0;
    assert(all.take(0) =~= Seq::<Seq<char>>::empty());
    while i < candidates.len()
        invariant
            i <= candidates@.len(),
            all == candidates.deep_view(),
            dirs.deep_view() == with_dirs(*disk, start, all.take(i as int)),
        decreases candidates@.len() - i,
    {
        assert(all.take(i + 1).drop_last() =~= all.take(i as int));
        assert(all.take(i + 1).last() == candidates@[i as int]@);
        append_unique_dir(dirs, candidates[i].clone(), disk);
        i = i + 1;
    }
    assert(all.take(i as int) =~= all);
}

/// Where a tool keeps its models, as seen from each of `places`.
pub open spec fn model_places(places: Seq<Seq<char>>) -> Seq<Seq<char>>
    decreases places.len(),
{
    if places.len() == 0 {
        Seq::empty()
    } else {
        model_places(places.drop_last()).push(path::spec_join(places.last(), "models"@)).push(
            path::spec_join(places.last(), "share/whisper/models"@),
        ).push(path::spec_join(places.last(), "share/whisper.cpp/models"@))
    }
}

/// Where models may lie near the tool at `cli`: under its own path and the five paths above it.
pub open spec fn near_candidates(disk: Snapshot, cli: Seq<char>) -> Seq<Seq<char>> {
    model_places(path::spec_ancestors(disk.target_of(cli), 6))
}

/// Where models may lie near a tool.
pub fn near_cli_candidates(cli_path: &str, disk: &Snapshot) -> (r: Vec<String>)
    ensures
        r.deep_view() == near_candidates(*disk, cli_path@),
{
    let base = disk.target(cli_path);
    let places = path::ancestors(base.as_str(), 6);
    let ghost all = places.deep_view();
    let mut out: Vec<String> = Vec::new();
    let mut i: usize = 0;
    assert(all.take(0) =~= Seq::<Seq<char>>::empty());
    assert(out.deep_view() =~= model_places(all.take(0)));
    while i < places.len()
        invariant
            i <= places@.len(),
            all == places.deep_view(),
            out.deep_view() == model_places(all.take(i as int)),
        decreases places@.len() - i,
    {
        assert(all.take(i + 1).drop_last() =~= all.take(i as int));
        assert(all.take(i + 1).last() == places@[i as int]@);
        let ghost before = out.deep_view();
        let a = path::join(places[i].as_str(), "models");
        let b = path::join(places[i].as_str(), "share/whisper/models");
        let c = path::join(places[i].as_str(), "share/whisper.cpp/models");
        let ghost (x, y, z) = (a@, b@, c@);
        out.push(a);
        out.push(b);
        out.push(c);
        assert(out.deep_view() =~= before.push(x).push(y).push(z));
        i = i + 1;
    }
    assert(all.take(i as int) =~= all);
    out
}

/// The directories near the tool at `cli` in which models may lie, each once.
pub open spec fn near_dirs(disk: Snapshot, cli: Seq<char>) -> Seq<Seq<char>> {
    with_dirs(disk, Seq::empty(), near_candidates(disk, cli))
}

/// The directories near a tool in which models may lie, each once.
pub fn model_dirs_near_cli(cli_path: &str, disk: &Snapshot) -> (r: Vec<String>)
    ensures
        r.deep_view() == near_dirs(*disk, cli_path@),
{
    let candidates = near_cli_candidates(cli_path, disk);
    let mut dirs: Vec<String> = Vec::new();
    assert(dirs.deep_view() =~= Seq::<Seq<char>>::empty());
    append_unique_dirs(&mut dirs, &candidates, disk);
    dirs
}

/// Where other programs keep models in the user's home directory.
pub open spec fn home_candidates(home: Option<Seq<char>>) -> Seq<Seq<char>> {
    match home {
        Some(home) => seq![
            path::spec_join(home, "Library/Application Support/superwhisper"@),
            path::spec_join(home, "Library/Application Support/whisper.cpp"@),
            path::spec_join(home, ".cache/whisper.cpp"@),
            path::spec_join(home, ".cache/whisper"@),
        ],
        None => Seq::empty(),
    }
}

/// Where other programs keep models in the user's home directory.
pub fn home_model_candidates(home: &Option<String>) -> (r: Vec<String>)
    ensures
        r.deep_view() == home_candidates(home.deep_view()),
{
    let mut out: Vec<String> = Vec::new();
    if let Some(home) = home {
        out.push(path::join(home.as_str(), "Library/Application Support/superwhisper"));
        out.push(path::join(home.as_str(), "Library/Application Support/whisper.cpp"));
        out.push(path::join(home.as_str(), ".cache/whisper.cpp"));
        out.push(path::join(home.as_str(), ".cache/whisper"));
    }
    assert(out.deep_view() =~= home_candidates(home.deep_view()));
    out
}

/// All directories in which a model is looked for, in order, each once.
pub open spec fn model_dirs(cli: Option<Seq<char>>, env: Environment, disk: Snapshot) -> Seq<
    Seq<char>,
> {
    let at_home = with_dirs(disk, Seq::empty(), home_candidates(env.home.deep_view()));
    match cli {
        Some(cli) => with_dirs(disk, at_home, near_dirs(disk, cli)),
        None => at_home,
    }
}

/// Everywhere that a model may be looked for: in the user's home directory, where the environment
/// says, and near the tool.
pub open spec fn model_candidates(
    cli: Option<Seq<char>>,
    env: Environment,
    disk: Snapshot,
) -> Seq<Seq<char>> {
    home_candidates(env.home.deep_view()) + (match env.whisper_model_path.deep_view() {
        Some(raw) => seq![expanded(raw, env.home.deep_view())],
        None => Seq::empty(),
    }) + (match cli {
        Some(cli) => near_candidates(disk, cli),
        None => Seq::empty(),
    })
}

/// Everywhere that a model may be looked for.
pub fn whisper_model_candidates(
    whisper_cli_path: &Option<String>,
    env: &Environment,
    disk: &Snapshot,
) -> (r: Vec<String>)
    ensures
        r.deep_view() == model_candidates(whisper_cli_path.deep_view(), *env, *disk),
{
    let mut out = home_model_candidates(&env.home);
    let ghost first = out.deep_view();
    if let Some(raw) = &env.whisper_model_path {
        let named = expand_home(raw.clone(), &env.home);
        text::push_text(&mut out, named.as_str());
    }
    let ghost second = out.deep_view();
    assert(second =~= first + match env.whisper_model_path.deep_view() {
        Some(raw) => seq![expanded(raw, env.home.deep_view())],
        None => Seq::empty(),
    });
    if let Some(cli_path) = whisper_cli_path {
        let mut near = near_cli_candidates(cli_path.as_str(), disk);
        let ghost shown = near.deep_view();
        out.append(&mut near);
        assert(out.deep_view() =~= second + shown);
    }
    assert(out.deep_view() =~= model_candidates(whisper_cli_path.deep_view(), *env, *disk));
    out
}

/// The best model of the first of `dirs` that holds one.
pub open spec fn first_model(disk: Snapshot, dirs: Seq<Seq<char>>) -> Option<Seq<char>>
    decreases dirs.len(),
{
    if dirs.len() == 0 {
        None
    } else {
        match best_in(disk, dirs[0]) {
            Some(model) => Some(model),
            None => first_model(disk, dirs.skip(1)),
        }
    }
}

/// The model that the environment names: a file, or the best one in a directory.
pub open spec fn named_model(env: Environment, disk: Snapshot) -> Option<Seq<char>> {
    match env.whisper_model_path.deep_view() {
        Some(raw) => {
            let path = expanded(raw, env.home.deep_view());
            if disk.has_file(path) {
                Some(path)
            } else if disk.has_dir(path) {
                best_in(disk, path)
            } else {
                None
            }
        },
        None => None,
    }
}

/// The model that is found: the one that the environment names, and else the best one of the first
/// directory that holds any.
pub open spec fn detected_model(
    cli: Option<Seq<char>>,
    env: Environment,
    disk: Snapshot,
) -> Option<Seq<char>> {
    match named_model(env, disk) {
        Some(model) => Some(model),
        None => first_model(disk, model_dirs(cli, env, disk)),
    }
}

/// The model that is found, given the tool that it is for.
pub fn detect_whisper_model_path(
    whisper_cli_path: &Option<String>,
    env: &Environment,
    disk: &Snapshot,
) -> (r: Option<String>)
    ensures
        r.deep_view() == detected_model(whisper_cli_path.deep_view(), *env, *disk),
{
    if let Some(raw) = &env.whisper_model_path {
        let path = expand_home(raw.clone(), &env.home);
        if disk.is_file(path.as_str()) {
            return Some(path);
        }
        if disk.is_dir(path.as_str()) {
            if let Some(model) = select_model_from_dir(path.as_str(), disk) {
                return Some(model);
            }
        }
    }
    let mut dirs: Vec<String> = Vec::new();
    assert(dirs.deep_view() =~= Seq::<Seq<char>>::empty());
    let at_home = home_model_candidates(&env.home);
    append_unique_dirs(&mut dirs, &at_home, disk);
    if let Some(cli_path) = whisper_cli_path {
        let near = model_dirs_near_cli(cli_path.as_str(), disk);
        append_unique_dirs(&mut dirs, &near, disk);
    }
    let ghost all = dirs.deep_view();
    let mut i: usize = 0;
    assert(all.skip(0) =~= all);
    while i < dirs.len()
        invariant
            i <= dirs@.len(),
            all == dirs.deep_view(),
            all == model_dirs(whisper_cli_path.deep_view(), *env, *disk),
            named_model(*env, *disk) is None,
            first_model(*disk, all) == first_model(*disk, all.skip(i as int)),
        decreases dirs@.len() - i,
    {
        assert(all.skip(i as int)[0] == dirs@[i as int]@);
        if let Some(model) = select_model_from_dir(dirs[i].as_str(), disk) {
            return Some(model);
        }
        assert(all.skip(i as int).skip(1) =~= all.skip(i + 1));
        i = i + 1;
    }
    None
}

// ---------------------------------------------------------------------------------------------
// Laws
// ---------------------------------------------------------------------------------------------
proof fn lemma_first_file_agrees(a: Snapshot, b: Snapshot, paths: Seq<Seq<char>>)
    requires
        disk::agree_on(a, b, paths),
    ensures
        a.first_file_of(paths) == b.first_file_of(paths),
    decreases paths.len(),
{
    if paths.len() > 0 {
        assert(paths.contains(paths[0]));
        assert forall|p: Seq<char>| #[trigger] paths.skip(1).contains(p) implies paths.contains(
            p,
        ) by {
            let i = choose|i: int| 0 <= i < paths.skip(1).len() && paths.skip(1)[i] == p;
            assert(paths[i + 1] == p);
        }
        lemma_first_file_agrees(a, b, paths.skip(1));
    }
}

/// Which whisper-cli is found depends on nothing on disk but what the running program's path stands
/// for, and what is at the paths that are looked at.
pub proof fn law_cli_detection_looks_at(env: Environment, a: Snapshot, b: Snapshot)
    requires
        disk::agree_on_target(a, b, env.current_exe.deep_view()),
        disk::agree_on(a, b, cli_candidates(env, a)),
    ensures
        detected_cli(env, a) == detected_cli(env, b),
{
    lemma_first_file_agrees(a, b, cli_candidates(env, a));
}

proof fn lemma_with_dirs_agrees(
    a: Snapshot,
    b: Snapshot,
    dirs: Seq<Seq<char>>,
    candidates: Seq<Seq<char>>,
)
    requires
        disk::agree_on(a, b, candidates),
    ensures
        with_dirs(a, dirs, candidates) == with_dirs(b, dirs, candidates),
        forall|p: Seq<char>| #[trigger]
            with_dirs(a, dirs, candidates).contains(p) ==> dirs.contains(p) || candidates.contains(
                p,
            ),
    decreases candidates.len(),
{
    if candidates.len() > 0 {
        let shorter = candidates.drop_last();
        assert forall|p: Seq<char>| #[trigger] shorter.contains(p) implies candidates.contains(
            p,
        ) by {
            let i = choose|i: int| 0 <= i < shorter.len() && shorter[i] == p;
            assert(candidates[i] == p);
        }
        lemma_with_dirs_agrees(a, b, dirs, shorter);
        assert(candidates.contains(candidates.last()));
        let before = with_dirs(a, dirs, shorter);
        assert forall|p: Seq<char>| #[trigger]
            with_dirs(a, dirs, candidates).contains(p) implies dirs.contains(p)
            || candidates.contains(p) by {
            let all = with_dirs(a, dirs, candidates);
            let i = choose|i: int| 0 <= i < all.len() && all[i] == p;
            if i < before.len() {
                assert(before[i] == p);
                assert(before.contains(p));
            }
        }
    }
}

proof fn lemma_first_model_agrees(a: Snapshot, b: Snapshot, dirs: Seq<Seq<char>>)
    requires
        disk::agree_within(a, b, dirs),
    ensures
        first_model(a, dirs) == first_model(b, dirs),
    decreases dirs.len(),
{
    if dirs.len() > 0 {
        assert(dirs.contains(dirs[0]));
        assert forall|p: Seq<char>| #[trigger] dirs.skip(1).contains(p) implies dirs.contains(
            p,
        ) by {
            let i = choose|i: int| 0 <= i < dirs.skip(1).len() && dirs.skip(1)[i] == p;
            assert(dirs[i + 1] == p);
        }
        lemma_first_model_agrees(a, b, dirs.skip(1));
    }
}

proof fn lemma_candidates_hold(cli: Option<Seq<char>>, env: Environment, disk: Snapshot)
    ensures
        forall|p: Seq<char>| #[trigger]
            home_candidates(env.home.deep_view()).contains(p) ==> model_candidates(
                cli,
                env,
                disk,
            ).contains(p),
        env.whisper_model_path.deep_view() matches Some(raw) ==> model_candidates(
            cli,
            env,
            disk,
        ).contains(expanded(raw, env.home.deep_view())),
        cli matches Some(cli_path) ==> forall|p: Seq<char>| #[trigger]
            near_candidates(disk, cli_path).contains(p) ==> model_candidates(
                cli,
                env,
                disk,
            ).contains(p),
{
    let all = model_candidates(cli, env, disk);
    let at_home = home_candidates(env.home.deep_view());
    let named = match env.whisper_model_path.deep_view() {
        Some(raw) => seq![expanded(raw, env.home.deep_view())],
        None => Seq::empty(),
    };
    assert forall|p: Seq<char>| #[trigger] at_home.contains(p) implies all.contains(p) by {
        let i = choose|i: int| 0 <= i < at_home.len() && at_home[i] == p;
        assert(all[i] == p);
    }
    if named.len() > 0 {
        assert(all[at_home.len() as int] == named[0]);
    }
    if cli is Some {
        let near = near_candidates(disk, cli->0);
        assert forall|p: Seq<char>| #[trigger] near.contains(p) implies all.contains(p) by {
            let i = choose|i: int| 0 <= i < near.len() && near[i] == p;
            assert(all[at_home.len() + named.len() + i] == p);
        }
    }
}

/// Which model is found depends on nothing on disk but what the tool's path stands for, and what is
/// at and in the paths that are looked at.
pub proof fn law_model_detection_looks_at(
    cli: Option<Seq<char>>,
    env: Environment,
    a: Snapshot,
    b: Snapshot,
)
    requires
        disk::agree_on_target(a, b, cli),
        disk::agree_within(a, b, model_candidates(cli, env, a)),
    ensures
        detected_model(cli, env, a) == detected_model(cli, env, b),
{
    lemma_candidates_hold(cli, env, a);
    let none = Seq::<Seq<char>>::empty();
    let at_home = home_candidates(env.home.deep_view());
    lemma_with_dirs_agrees(a, b, none, at_home);
    let first = with_dirs(a, none, at_home);
    if cli is Some {
        let near = near_candidates(a, cli->0);
        lemma_with_dirs_agrees(a, b, none, near);
        lemma_with_dirs_agrees(a, b, first, near_dirs(a, cli->0));
    }
    lemma_first_model_agrees(a, b, model_dirs(cli, env, a));
}

/// A rank is not better than itself, and what is better than a rank is better than all that the
/// rank is better than.
pub proof fn law_better_is_an_order(a: ModelRank, b: ModelRank, c: ModelRank)
    ensures
        !better(a, a),
        better(a, b) && better(b, c) ==> better(a, c),
        better(a, b) || better(b, a) || a == b,
{
    text::lemma_before_irreflexive(a.name);
    text::lemma_before_total(a.name, b.name);
    if text::comes_before(a.name, b.name) && text::comes_before(b.name, c.name) {
        text::lemma_before_transitive(a.name, b.name, c.name);
    }
}

proof fn lemma_not_better_chain(a: ModelRank, b: ModelRank, c: ModelRank)
    requires
        better(a, b),
        !better(c, b),
    ensures
        !better(c, a),
{
    law_better_is_an_order(c, a, b);
}

/// The model that is chosen is one of the files, and a model, and no model among the files is
/// better. There is none only where no file is a model.
pub proof fn law_best_model(files: Seq<Seq<char>>)
    ensures
        match best_model(files) {
            Some(best) => files.contains(best) && is_model_path(best) && forall|i: int|
                0 <= i < files.len() && is_model_path(#[trigger] files[i]) ==> !better(
                    model_rank(files[i]),
                    model_rank(best),
                ),
            None => forall|i: int| 0 <= i < files.len() ==> !is_model_path(#[trigger] files[i]),
        },
    decreases files.len(),
{
    if files.len() > 0 {
        let rest = files.drop_last();
        let last = files.last();
        law_best_model(rest);
        assert forall|x: Seq<char>| rest.contains(x) implies files.contains(x) by {
            let k = choose|k: int| 0 <= k < rest.len() && rest[k] == x;
            assert(files[k] == x);
        }
        assert(files.contains(last)) by {
            assert(files[files.len() - 1] == last);
        }
        assert forall|i: int| 0 <= i < files.len() && i != files.len() - 1 implies rest[i]
            == files[i] by {}
        law_better_is_an_order(model_rank(last), model_rank(last), model_rank(last));
        if let Some(best) = best_model(rest) {
            law_better_is_an_order(model_rank(best), model_rank(best), model_rank(best));
            if is_model_path(last) && better(model_rank(last), model_rank(best)) {
                assert forall|i: int|
                    0 <= i < files.len() && is_model_path(#[trigger] files[i]) implies !better(
                    model_rank(files[i]),
                    model_rank(last),
                ) by {
                    if i < files.len() - 1 {
                        assert(rest[i] == files[i]);
                        lemma_not_better_chain(
                            model_rank(last),
                            model_rank(best),
                            model_rank(files[i]),
                        );
                    }
                }
            } else {
                assert forall|i: int|
                    0 <= i < files.len() && is_model_path(#[trigger] files[i]) implies !better(
                    model_rank(files[i]),
                    model_rank(best),
                ) by {
                    if i < files.len() - 1 {
                        assert(rest[i] == files[i]);
                    }
                }
            }
        } else {
            assert forall|i: int|
                0 <= i < files.len() && i < files.len() - 1 implies !is_model_path(
                #[trigger] files[i],
            ) by {
                assert(rest[i] == files[i]);
            }
        }
    }
}

/// A directory is looked into once: no two of the directories that are gathered are the same, and
/// all of them were found to be directories.
pub proof fn law_gathered_dirs_are_distinct(disk: Snapshot, candidates: Seq<Seq<char>>)
    ensures
        forall|i: int, j: int|
            0 <= i < j < with_dirs(disk, Seq::empty(), candidates).len() ==> !path::spec_same(
                #[trigger] with_dirs(disk, Seq::empty(), candidates)[i],
                #[trigger] with_dirs(disk, Seq::empty(), candidates)[j],
            ),
        forall|i: int|
            0 <= i < with_dirs(disk, Seq::empty(), candidates).len() ==> disk.has_dir(
                #[trigger] with_dirs(disk, Seq::empty(), candidates)[i],
            ),
    decreases candidates.len(),
{
    if candidates.len() > 0 {
        law_gathered_dirs_are_distinct(disk, candidates.drop_last());
        let before = with_dirs(disk, Seq::empty(), candidates.drop_last());
        let after = with_dirs(disk, Seq::empty(), candidates);
        assert forall|i: int, j: int| 0 <= i < j < after.len() implies !path::spec_same(
            #[trigger] after[i],
            #[trigger] after[j],
        ) by {
            if j < before.len() {
                assert(after[i] == before[i] && after[j] == before[j]);
            } else {
                assert(after[i] == before[i]);
            }
        }
        assert forall|i: int| 0 <= i < after.len() implies disk.has_dir(#[trigger] after[i]) by {
            if i < before.len() {
                assert(after[i] == before[i]);
            }
        }
    }
}

/// A path that does not begin with `~` stands for itself.
pub proof fn law_only_tilde_is_expanded(path: Seq<char>, home: Option<Seq<char>>)
    requires
        path.len() == 0 || path[0] != '~',
    ensures
        expanded(path, home) == path,
{
    reveal_strlit("~");
    reveal_strlit("~/");
    if text::spec_starts_with(path, "~/"@) {
        assert(path.subrange(0, 2)[0] == path[0]);
    }
}

// ---------------------------------------------------------------------------------------------
// What is found, and in which order
// ---------------------------------------------------------------------------------------------
/// A leading `~` stands for the home directory: alone for the directory itself, before a slash for
/// the directory that the rest lies in. Without a home directory, and before anything else, it
/// stands for itself.
pub proof fn law_tilde_stands_for_home(home: Seq<char>, rest: Seq<char>, path: Seq<char>)
    requires
        encoding::is_unicode(rest),
    ensures
        expanded(seq!['~'], Some(home)) == home,
        expanded(seq!['~', '/'] + rest, Some(home)) == path::spec_join(home, rest),
        expanded(path, None) == path,
        path.len() >= 2 && path[1] != '/' ==> expanded(path, Some(home)) == path,
{
    reveal_strlit("~");
    reveal_strlit("~/");
    assert("~"@ =~= seq!['~']);
    assert("~/"@ =~= seq!['~', '/']);
    let long = seq!['~', '/'] + rest;
    assert(long.subrange(0, 2) =~= "~/"@);
    assert(text::occurs_at(long, "~/"@, 0));
    assert(long.skip(2) =~= rest);
    assert(long.len() >= 2);
    if path.len() >= 2 && path[1] != '/' {
        if text::spec_starts_with(path, "~/"@) {
            assert(path.subrange(0, 2)[1] == path[1]);
        }
    }
}

/// A model file that the environment names is the one that is found, whatever else is on disk; of a
/// directory that the environment names, and that holds a model, one of its own files is found, and
/// none of its models is better.
pub proof fn law_named_model_is_found(
    cli: Option<Seq<char>>,
    env: Environment,
    disk: Snapshot,
    raw: Seq<char>,
)
    requires
        env.whisper_model_path.deep_view() == Some(raw),
    ensures
        disk.has_file(expanded(raw, env.home.deep_view())) ==> detected_model(cli, env, disk)
            == Some(expanded(raw, env.home.deep_view())),
        disk.has_dir(expanded(raw, env.home.deep_view())) ==> (disk.files_of(
            expanded(raw, env.home.deep_view()),
        ) matches Some(files) ==> ((exists|i: int|
            0 <= i < files.len() && is_model_path(#[trigger] files[i])) ==> (detected_model(
            cli,
            env,
            disk,
        ) matches Some(model) && files.contains(model) && is_model_path(model) && forall|i: int|
            0 <= i < files.len() && is_model_path(#[trigger] files[i]) ==> !better(
                model_rank(files[i]),
                model_rank(model),
            )))),
{
    let dir = expanded(raw, env.home.deep_view());
    if disk.files_of(dir) is Some {
        law_best_model(disk.files_of(dir)->0);
    }
}

/// A whisper-cli that the environment names is the one that is found, if it is a file, whatever else
/// is on disk.
pub proof fn law_named_cli_is_found(env: Environment, disk: Snapshot, raw: Seq<char>)
    requires
        env.whisper_cli_path.deep_view() == Some(raw),
        disk.has_file(expanded(raw, env.home.deep_view())),
    ensures
        detected_cli(env, disk) == Some(expanded(raw, env.home.deep_view())),
{
    let all = cli_candidates(env, disk);
    assert(all[0] == expanded(raw, env.home.deep_view()));
    disk::law_first_file_is_first(disk, all, 0);
}

/// Whether the environment names no whisper-cli that is a file.
pub open spec fn names_no_cli(env: Environment, disk: Snapshot) -> bool {
    env.whisper_cli_path.deep_view() matches Some(raw) ==> !disk.has_file(
        expanded(raw, env.home.deep_view()),
    )
}

/// Whether the release that the running program belongs to holds no whisper-cli.
pub open spec fn bundles_no_cli(env: Environment, disk: Snapshot) -> bool {
    env.current_exe.deep_view() matches Some(exe) ==> (path::spec_parent(disk.target_of(exe)) matches
        Some(dir) ==> !disk.has_file(path::spec_join(dir, "whisper-cli"@)) && !disk.has_file(
        path::spec_join(dir, "../libexec/whisper-cli"@),
    ) && !disk.has_file(path::spec_join(dir, "../libexec/scribecli/whisper-cli"@)))
}

proof fn lemma_no_cli_before(env: Environment, disk: Snapshot, k: int)
    requires
        names_no_cli(env, disk),
        0 <= k < cli_candidates(env, disk).len(),
    ensures
        k < cli_before_bundled(env) ==> !disk.has_file(cli_candidates(env, disk)[k]),
        bundles_no_cli(env, disk) && k < cli_before_bundled(env) + bundled_count(env, disk)
            ==> !disk.has_file(cli_candidates(env, disk)[k]),
{
    if k >= cli_before_bundled(env) && k < cli_before_bundled(env) + bundled_count(env, disk) {
        let exe = env.current_exe.deep_view()->0;
        assert(cli_candidates(env, disk)[k] == bundled_at(disk.target_of(exe))[k
            - cli_before_bundled(env)]);
    }
}

/// How many places come before those of the release.
spec fn cli_before_bundled(env: Environment) -> int {
    if env.whisper_cli_path.deep_view() is Some {
        1
    } else {
        0
    }
}

/// How many places the release has.
spec fn bundled_count(env: Environment, disk: Snapshot) -> int {
    match env.current_exe.deep_view() {
        Some(exe) => bundled_at(disk.target_of(exe)).len() as int,
        None => 0,
    }
}

/// Where the environment names none, the whisper-cli beside the running program is found; without
/// that, the one in the release's own `libexec`, and without that, the one under the program's name
/// there.
pub proof fn law_bundled_cli_is_found_next(env: Environment, disk: Snapshot, dir: Seq<char>)
    requires
        names_no_cli(env, disk),
        env.current_exe.deep_view() matches Some(exe) && path::spec_parent(disk.target_of(exe))
            == Some(dir),
    ensures
        disk.has_file(path::spec_join(dir, "whisper-cli"@)) ==> detected_cli(env, disk) == Some(
            path::spec_join(dir, "whisper-cli"@),
        ),
        !disk.has_file(path::spec_join(dir, "whisper-cli"@)) && disk.has_file(
            path::spec_join(dir, "../libexec/whisper-cli"@),
        ) ==> detected_cli(env, disk) == Some(path::spec_join(dir, "../libexec/whisper-cli"@)),
        !disk.has_file(path::spec_join(dir, "whisper-cli"@)) && !disk.has_file(
            path::spec_join(dir, "../libexec/whisper-cli"@),
        ) && disk.has_file(path::spec_join(dir, "../libexec/scribecli/whisper-cli"@))
            ==> detected_cli(env, disk) == Some(
            path::spec_join(dir, "../libexec/scribecli/whisper-cli"@),
        ),
{
    let all = cli_candidates(env, disk);
    let at = cli_before_bundled(env);
    let exe = env.current_exe.deep_view()->0;
    let bundled = bundled_at(disk.target_of(exe));
    assert(bundled.len() == 3);
    assert(all[at] == bundled[0]);
    assert(all[at + 1] == bundled[1]);
    assert(all[at + 2] == bundled[2]);
    assert forall|k: int| 0 <= k < at implies !disk.has_file(#[trigger] all[k]) by {
        lemma_no_cli_before(env, disk, k);
    }
    disk::law_first_file_is_first(disk, all, at);
    disk::law_first_file_is_first(disk, all, at + 1);
    disk::law_first_file_is_first(disk, all, at + 2);
}

/// Where neither the environment nor the release has one, the whisper-cli in the first of the
/// directories in which programs are looked for is found; where none of them has one either, that of
/// Homebrew, and where there is none at all, none is found.
pub proof fn law_cli_is_looked_for_elsewhere(env: Environment, disk: Snapshot, i: int)
    requires
        names_no_cli(env, disk),
        bundles_no_cli(env, disk),
    ensures
        0 <= i < env.path_dirs@.len() && disk.has_file(
            path::spec_join(env.path_dirs@[i]@, "whisper-cli"@),
        ) && (forall|k: int|
            0 <= k < i ==> !disk.has_file(
                path::spec_join((#[trigger] env.path_dirs@[k])@, "whisper-cli"@),
            )) ==> detected_cli(env, disk) == Some(
            path::spec_join(env.path_dirs@[i]@, "whisper-cli"@),
        ),
        (forall|k: int|
            0 <= k < env.path_dirs@.len() ==> !disk.has_file(
                path::spec_join((#[trigger] env.path_dirs@[k])@, "whisper-cli"@),
            )) ==> {
            &&& disk.has_file("/opt/homebrew/bin/whisper-cli"@) ==> detected_cli(env, disk) == Some(
                "/opt/homebrew/bin/whisper-cli"@,
            )
            &&& !disk.has_file("/opt/homebrew/bin/whisper-cli"@) && disk.has_file(
                "/usr/local/bin/whisper-cli"@,
            ) ==> detected_cli(env, disk) == Some("/usr/local/bin/whisper-cli"@)
            &&& !disk.has_file("/opt/homebrew/bin/whisper-cli"@) && !disk.has_file(
                "/usr/local/bin/whisper-cli"@,
            ) ==> detected_cli(env, disk) is None
        },
{
    let all = cli_candidates(env, disk);
    let at = cli_before_bundled(env) + bundled_count(env, disk);
    let n = env.path_dirs@.len() as int;
    assert forall|k: int| 0 <= k < at implies !disk.has_file(#[trigger] all[k]) by {
        lemma_no_cli_before(env, disk, k);
    }
    assert forall|k: int| 0 <= k < n implies #[trigger] all[at + k] == path::spec_join(
        env.path_dirs@[k]@,
        "whisper-cli"@,
    ) by {
        assert(env.path_dirs.deep_view()[k] == env.path_dirs@[k]@);
    }
    assert(all[at + n] == "/opt/homebrew/bin/whisper-cli"@);
    assert(all[at + n + 1] == "/usr/local/bin/whisper-cli"@);
    if 0 <= i < n && disk.has_file(path::spec_join(env.path_dirs@[i]@, "whisper-cli"@)) && (forall|
        k: int,
    |
        0 <= k < i ==> !disk.has_file(
            path::spec_join((#[trigger] env.path_dirs@[k])@, "whisper-cli"@),
        )) {
        assert forall|k: int| 0 <= k < at + i implies !disk.has_file(#[trigger] all[k]) by {
            if k >= at {
                assert(all[at + (k - at)] == path::spec_join(
                    env.path_dirs@[k - at]@,
                    "whisper-cli"@,
                ));
            }
        }
        disk::law_first_file_is_first(disk, all, at + i);
    }
    if forall|k: int|
        0 <= k < n ==> !disk.has_file(
            path::spec_join((#[trigger] env.path_dirs@[k])@, "whisper-cli"@),
        ) {
        assert forall|k: int| 0 <= k < at + n implies !disk.has_file(#[trigger] all[k]) by {
            if k >= at {
                assert(all[at + (k - at)] == path::spec_join(
                    env.path_dirs@[k - at]@,
                    "whisper-cli"@,
                ));
            }
        }
        disk::law_first_file_is_first(disk, all, at + n);
        disk::law_first_file_is_first(disk, all, at + n + 1);
        assert(all.len() == at + n + 2);
    }
}

// ---------------------------------------------------------------------------------------------
// In which order models are looked for
// ---------------------------------------------------------------------------------------------
/// Whether nothing comes of the place `j` of `places`: it is no directory, holds no model, or is a
/// place that was looked at before.
pub open spec fn gives_nothing(disk: Snapshot, places: Seq<Seq<char>>, j: int) -> bool {
    ||| !disk.has_dir(places[j])
    ||| best_in(disk, places[j]) is None
    ||| exists|i: int| 0 <= i < j && path::spec_same(#[trigger] places[i], places[j])
}

/// Whether `found` is what comes of looking at `places` in order.
pub open spec fn is_first_of(
    disk: Snapshot,
    places: Seq<Seq<char>>,
    found: Option<Seq<char>>,
) -> bool {
    match found {
        Some(model) => exists|k: int|
            {
                &&& 0 <= k < places.len()
                &&& disk.has_dir(#[trigger] places[k])
                &&& best_in(disk, places[k]) == Some(model)
                &&& forall|j: int| 0 <= j < k ==> gives_nothing(disk, places, j)
            },
        None => forall|j: int| 0 <= j < places.len() ==> gives_nothing(disk, places, j),
    }
}

/// Whether `dirs` are those of `places` that are worth a look.
spec fn gathers(disk: Snapshot, dirs: Seq<Seq<char>>, places: Seq<Seq<char>>) -> bool {
    &&& is_first_of(disk, places, first_model(disk, dirs))
    &&& forall|g: int| 0 <= g < dirs.len() ==> places.contains(#[trigger] dirs[g])
}

proof fn lemma_first_model_push(disk: Snapshot, dirs: Seq<Seq<char>>, dir: Seq<char>)
    ensures
        first_model(disk, dirs.push(dir)) == match first_model(disk, dirs) {
            Some(model) => Some(model),
            None => best_in(disk, dir),
        },
    decreases dirs.len(),
{
    if dirs.len() > 0 {
        lemma_first_model_push(disk, dirs.skip(1), dir);
        assert(dirs.push(dir).skip(1) =~= dirs.skip(1).push(dir));
    } else {
        assert(dirs.push(dir).skip(1) =~= Seq::empty());
        assert(first_model(disk, dirs.push(dir).skip(1)) is None);
    }
}

proof fn lemma_gives_nothing_push(
    disk: Snapshot,
    places: Seq<Seq<char>>,
    place: Seq<char>,
    j: int,
)
    requires
        0 <= j < places.len(),
        gives_nothing(disk, places, j),
    ensures
        gives_nothing(disk, places.push(place), j),
{
    let more = places.push(place);
    if exists|i: int| 0 <= i < j && path::spec_same(#[trigger] places[i], places[j]) {
        let i = choose|i: int| 0 <= i < j && path::spec_same(#[trigger] places[i], places[j]);
        assert(path::spec_same(more[i], more[j]));
    }
}

proof fn lemma_gathers_one(
    disk: Snapshot,
    dirs: Seq<Seq<char>>,
    places: Seq<Seq<char>>,
    place: Seq<char>,
)
    requires
        gathers(disk, dirs, places),
    ensures
        gathers(disk, with_dir(disk, dirs, place), places.push(place)),
{
    let more = places.push(place);
    let after = with_dir(disk, dirs, place);
    let n = places.len() as int;
    assert(more[n] == place);
    assert forall|g: int| 0 <= g < after.len() implies more.contains(#[trigger] after[g]) by {
        if g < dirs.len() {
            assert(places.contains(dirs[g]));
            let i = choose|i: int| 0 <= i < places.len() && places[i] == dirs[g];
            assert(more[i] == after[g]);
        }
    }
    assert forall|j: int| 0 <= j < n && gives_nothing(disk, places, j) implies gives_nothing(
        disk,
        more,
        j,
    ) by {
        lemma_gives_nothing_push(disk, places, place, j);
    }
    if has_path(dirs, place) {
        let g = choose|g: int| 0 <= g < dirs.len() && path::spec_same(#[trigger] dirs[g], place);
        assert(places.contains(dirs[g]));
        let i = choose|i: int| 0 <= i < places.len() && places[i] == dirs[g];
        assert(path::spec_same(more[i], more[n]));
        assert(gives_nothing(disk, more, n));
    }
    lemma_first_model_push(disk, dirs, place);
    match first_model(disk, dirs) {
        Some(model) => {
            let k = choose|k: int|
                {
                    &&& 0 <= k < places.len()
                    &&& disk.has_dir(#[trigger] places[k])
                    &&& best_in(disk, places[k]) == Some(model)
                    &&& forall|j: int| 0 <= j < k ==> gives_nothing(disk, places, j)
                };
            assert(more[k] == places[k]);
            assert(disk.has_dir(more[k]));
        },
        None => {
            assert(forall|j: int| 0 <= j < n ==> gives_nothing(disk, more, j));
            if first_model(disk, after) is Some {
                assert(disk.has_dir(more[n]));
            } else {
                assert(gives_nothing(disk, more, n));
            }
        },
    }
}

proof fn lemma_gathers_all(
    disk: Snapshot,
    dirs: Seq<Seq<char>>,
    places: Seq<Seq<char>>,
    candidates: Seq<Seq<char>>,
)
    requires
        gathers(disk, dirs, places),
    ensures
        gathers(disk, with_dirs(disk, dirs, candidates), places + candidates),
    decreases candidates.len(),
{
    if candidates.len() == 0 {
        assert(places + candidates =~= places);
    } else {
        let fewer = candidates.drop_last();
        lemma_gathers_all(disk, dirs, places, fewer);
        lemma_gathers_one(
            disk,
            with_dirs(disk, dirs, fewer),
            places + fewer,
            candidates.last(),
        );
        assert((places + fewer).push(candidates.last()) =~= places + candidates);
    }
}

proof fn lemma_all_covered(
    disk: Snapshot,
    dirs: Seq<Seq<char>>,
    candidates: Seq<Seq<char>>,
    i: int,
)
    requires
        0 <= i < candidates.len(),
        disk.has_dir(candidates[i]),
    ensures
        has_path(with_dirs(disk, dirs, candidates), candidates[i]),
    decreases candidates.len(),
{
    let fewer = candidates.drop_last();
    let before = with_dirs(disk, dirs, fewer);
    let after = with_dirs(disk, dirs, candidates);
    if i < fewer.len() {
        lemma_all_covered(disk, dirs, fewer, i);
        let k = choose|k: int|
            0 <= k < before.len() && path::spec_same(#[trigger] before[k], candidates[i]);
        assert(path::spec_same(after[k], candidates[i]));
    } else if !has_path(before, candidates[i]) {
        assert(after =~= before.push(candidates[i]));
        assert(path::spec_same(after[before.len() as int], candidates[i]));
    }
}

proof fn lemma_gathered_twice(disk: Snapshot, dirs: Seq<Seq<char>>, candidates: Seq<Seq<char>>)
    ensures
        with_dirs(disk, dirs, with_dirs(disk, Seq::empty(), candidates)) == with_dirs(
            disk,
            dirs,
            candidates,
        ),
    decreases candidates.len(),
{
    let none = Seq::<Seq<char>>::empty();
    if candidates.len() > 0 {
        let fewer = candidates.drop_last();
        let last = candidates.last();
        lemma_gathered_twice(disk, dirs, fewer);
        let once = with_dirs(disk, none, fewer);
        let whole = with_dirs(disk, dirs, once);
        if disk.has_dir(last) && has_path(once, last) {
            let g = choose|g: int| 0 <= g < once.len() && path::spec_same(#[trigger] once[g], last);
            law_gathered_dirs_are_distinct(disk, fewer);
            assert(disk.has_dir(once[g]));
            lemma_all_covered(disk, dirs, once, g);
            let k = choose|k: int|
                0 <= k < whole.len() && path::spec_same(#[trigger] whole[k], once[g]);
            assert(path::spec_same(whole[k], last));
            assert(has_path(whole, last));
        } else if disk.has_dir(last) {
            assert(once.push(last).drop_last() =~= once);
        }
    }
}

/// Where the environment names no model, a model is looked for in the user's home directory first,
/// in the places of four programs in this order, and then near the tool: the first of these that is
/// a directory and holds a model gives its best one. None is found only where none of them does.
pub proof fn law_models_are_looked_for_in_order(
    cli: Option<Seq<char>>,
    env: Environment,
    disk: Snapshot,
)
    requires
        env.whisper_model_path.deep_view() matches Some(raw) ==> !disk.has_file(
            expanded(raw, env.home.deep_view()),
        ) && (disk.has_dir(expanded(raw, env.home.deep_view())) ==> best_in(
            disk,
            expanded(raw, env.home.deep_view()),
        ) is None),
    ensures
        is_first_of(
            disk,
            (match env.home.deep_view() {
                Some(home) => seq![
                    path::spec_join(home, "Library/Application Support/superwhisper"@),
                    path::spec_join(home, "Library/Application Support/whisper.cpp"@),
                    path::spec_join(home, ".cache/whisper.cpp"@),
                    path::spec_join(home, ".cache/whisper"@),
                ],
                None => Seq::empty(),
            }) + (match cli {
                Some(cli) => near_candidates(disk, cli),
                None => Seq::empty(),
            }),
            detected_model(cli, env, disk),
        ),
{
    let none = Seq::<Seq<char>>::empty();
    let at_home = home_candidates(env.home.deep_view());
    assert(gathers(disk, none, none));
    lemma_gathers_all(disk, none, none, at_home);
    assert(none + at_home =~= at_home);
    match cli {
        Some(tool) => {
            let near = near_candidates(disk, tool);
            let first = with_dirs(disk, none, at_home);
            lemma_gathers_all(disk, first, at_home, near);
            lemma_gathered_twice(disk, first, near);
        },
        None => {
            assert(at_home + none =~= at_home);
        },
    }
}

/// Near a tool, models are looked for under its own path and under the paths above it, nearest
/// first, six in all: in each in `models`, then in `share/whisper/models`, then in
/// `share/whisper.cpp/models`.
pub proof fn law_models_near_tool(disk: Snapshot, cli: Seq<char>, i: int)
    requires
        0 <= i < path::spec_ancestors(disk.target_of(cli), 6).len(),
    ensures
        near_candidates(disk, cli).len() == 3 * path::spec_ancestors(disk.target_of(cli), 6).len(),
        near_candidates(disk, cli)[3 * i] == path::spec_join(
            path::spec_ancestors(disk.target_of(cli), 6)[i],
            "models"@,
        ),
        near_candidates(disk, cli)[3 * i + 1] == path::spec_join(
            path::spec_ancestors(disk.target_of(cli), 6)[i],
            "share/whisper/models"@,
        ),
        near_candidates(disk, cli)[3 * i + 2] == path::spec_join(
            path::spec_ancestors(disk.target_of(cli), 6)[i],
            "share/whisper.cpp/models"@,
        ),
{
    lemma_model_places(path::spec_ancestors(disk.target_of(cli), 6), i);
}

proof fn lemma_model_places(places: Seq<Seq<char>>, i: int)
    ensures
        model_places(places).len() == 3 * places.len(),
        0 <= i < places.len() ==> {
            &&& model_places(places)[3 * i] == path::spec_join(places[i], "models"@)
            &&& model_places(places)[3 * i + 1] == path::spec_join(
                places[i],
                "share/whisper/models"@,
            )
            &&& model_places(places)[3 * i + 2] == path::spec_join(
                places[i],
                "share/whisper.cpp/models"@,
            )
        },
    decreases places.len(),
{
    if places.len() > 0 {
        lemma_model_places(places.drop_last(), i);
    }
}

// ---------------------------------------------------------------------------------------------
// Which model is better
// ---------------------------------------------------------------------------------------------
/// The sizes that a model's name may give, the largest first.
pub open spec fn size_words() -> Seq<Seq<char>> {
    seq![
        "large-v3-turbo"@,
        "large-v3"@,
        "large-v2"@,
        "large"@,
        "medium"@,
        "small"@,
        "base"@,
        "tiny"@,
    ]
}

/// The name of the file at `path` in lower case.
pub open spec fn lower_name(path: Seq<char>) -> Seq<char> {
    match path::spec_unicode_name(path) {
        Some(name) => text::spec_lowercase(name),
        None => Seq::empty(),
    }
}

/// Of two models, the one whose name gives the larger size is the better, in whichever letters it is
/// written; a name that gives no size is the smallest.
pub proof fn law_larger_model_is_better(a: Seq<char>, b: Seq<char>, i: int)
    requires
        0 <= i < 8,
        text::spec_contains(lower_name(a), size_words()[i]),
        forall|k: int|
            0 <= k <= i ==> !text::spec_contains(lower_name(b), #[trigger] size_words()[k]),
    ensures
        better(model_rank(a), model_rank(b)),
        !better(model_rank(b), model_rank(a)),
{
    let words = size_words();
    let none = text::spec_lowercase(Seq::empty());
    assert(none =~= Seq::empty());
    assert(model_rank(a).name == lower_name(a));
    assert(model_rank(b).name == lower_name(b));
    assert(size_rank(lower_name(a)) <= i) by {
        assert(words[0] == "large-v3-turbo"@ && words[1] == "large-v3"@ && words[2] == "large-v2"@
            && words[3] == "large"@ && words[4] == "medium"@ && words[5] == "small"@ && words[6]
            == "base"@ && words[7] == "tiny"@);
    }
    assert(size_rank(lower_name(b)) > i) by {
        assert(!text::spec_contains(lower_name(b), words[0]));
        assert(i >= 1 ==> !text::spec_contains(lower_name(b), words[1]));
        assert(i >= 2 ==> !text::spec_contains(lower_name(b), words[2]));
        assert(i >= 3 ==> !text::spec_contains(lower_name(b), words[3]));
        assert(i >= 4 ==> !text::spec_contains(lower_name(b), words[4]));
        assert(i >= 5 ==> !text::spec_contains(lower_name(b), words[5]));
        assert(i >= 6 ==> !text::spec_contains(lower_name(b), words[6]));
        assert(i >= 7 ==> !text::spec_contains(lower_name(b), words[7]));
    }
}

/// Of two models of one size, one in the `.bin` format is better than one in another, and of two in
/// one format the one whose name comes first.
pub proof fn law_format_and_name_decide_among_equals(a: Seq<char>, b: Seq<char>)
    requires
        forall|k: int|
            0 <= k < 8 ==> text::spec_contains(lower_name(a), #[trigger] size_words()[k])
                == text::spec_contains(lower_name(b), size_words()[k]),
    ensures
        text::spec_ends_with(lower_name(a), ".bin"@) && !text::spec_ends_with(
            lower_name(b),
            ".bin"@,
        ) ==> better(model_rank(a), model_rank(b)) && !better(model_rank(b), model_rank(a)),
        text::spec_ends_with(lower_name(a), ".bin"@) == text::spec_ends_with(
            lower_name(b),
            ".bin"@,
        ) ==> (better(model_rank(a), model_rank(b)) <==> text::comes_before(
            lower_name(a),
            lower_name(b),
        )),
{
    let words = size_words();
    assert(text::spec_lowercase(Seq::empty()) =~= Seq::empty());
    assert(words[0] == "large-v3-turbo"@ && words[1] == "large-v3"@ && words[2] == "large-v2"@
        && words[3] == "large"@ && words[4] == "medium"@ && words[5] == "small"@ && words[6]
        == "base"@ && words[7] == "tiny"@);
    let (x, y) = (lower_name(a), lower_name(b));
    assert(text::spec_contains(x, words[0]) == text::spec_contains(y, words[0]));
    assert(text::spec_contains(x, words[1]) == text::spec_contains(y, words[1]));
    assert(text::spec_contains(x, words[2]) == text::spec_contains(y, words[2]));
    assert(text::spec_contains(x, words[3]) == text::spec_contains(y, words[3]));
    assert(text::spec_contains(x, words[4]) == text::spec_contains(y, words[4]));
    assert(text::spec_contains(x, words[5]) == text::spec_contains(y, words[5]));
    assert(text::spec_contains(x, words[6]) == text::spec_contains(y, words[6]));
    assert(text::spec_contains(x, words[7]) == text::spec_contains(y, words[7]));
    assert(size_rank(x) == size_rank(y));
    assert(model_rank(a).name == x);
    assert(model_rank(b).name == y);
}

/// A file is a model exactly if its name, in whichever letters, ends as model files do and holds the
/// name of a model format or of the tool.
pub proof fn law_models_are_told_by_name(path: Seq<char>)
    ensures
        is_model_path(path) <==> {
            &&& path::spec_unicode_name(path) is Some
            &&& text::spec_ends_with(lower_name(path), ".bin"@) || text::spec_ends_with(
                lower_name(path),
                ".gguf"@,
            )
            &&& text::spec_contains(lower_name(path), "ggml"@) || text::spec_contains(
                lower_name(path),
                "whisper"@,
            )
        },
{
}

/// Of models that are equally good, the one that was listed first is chosen: one more file is chosen
/// only if it is better than what was chosen among those before it.
pub proof fn law_best_model_among_more(files: Seq<Seq<char>>, file: Seq<char>)
    ensures
        best_model(Seq::empty()) is None,
        !is_model_path(file) ==> best_model(files.push(file)) == best_model(files),
        is_model_path(file) && best_model(files) is None ==> best_model(files.push(file)) == Some(
            file,
        ),
        is_model_path(file) ==> (best_model(files) matches Some(best) ==> best_model(
            files.push(file),
        ) == if better(model_rank(file), model_rank(best)) {
            Some(file)
        } else {
            Some(best)
        }),
{
    assert(files.push(file).drop_last() =~= files);
}

/// The best model of a directory is one of the files in it, and there is one exactly if the directory
/// could be read and a file in it is a model.
pub proof fn law_directory_gives_its_best_model(disk: Snapshot, dir: Seq<char>)
    ensures
        disk.files_of(dir) is None ==> best_in(disk, dir) is None,
        disk.files_of(dir) matches Some(files) ==> {
            &&& best_in(disk, dir) is None ==> forall|i: int|
                0 <= i < files.len() ==> !is_model_path(#[trigger] files[i])
            &&& best_in(disk, dir) matches Some(model) ==> files.contains(model) && is_model_path(
                model,
            ) && forall|i: int|
                0 <= i < files.len() && is_model_path(#[trigger] files[i]) ==> !better(
                    model_rank(files[i]),
                    model_rank(model),
                )
        },
{
    if disk.files_of(dir) is Some {
        law_best_model(disk.files_of(dir)->0);
    }
}

/// A program is found in the first of the directories that holds it as a file, under its own name.
pub proof fn law_program_is_found_in_first_directory(
    disk: Snapshot,
    dirs: Seq<Seq<char>>,
    name: Seq<char>,
    i: int,
)
    ensures
        0 <= i < dirs.len() && disk.has_file(path::spec_join(dirs[i], name)) && (forall|k: int|
            0 <= k < i ==> !disk.has_file(path::spec_join(#[trigger] dirs[k], name)))
            ==> disk.first_file_of(in_each(dirs, name)) == Some(path::spec_join(dirs[i], name)),
        (forall|k: int|
            0 <= k < dirs.len() ==> !disk.has_file(path::spec_join(#[trigger] dirs[k], name)))
            ==> disk.first_file_of(in_each(dirs, name)) is None,
{
    let all = in_each(dirs, name);
    assert forall|k: int| 0 <= k < dirs.len() implies #[trigger] all[k] == path::spec_join(
        dirs[k],
        name,
    ) by {}
    disk::law_first_file_is_first(disk, all, i);
}

} // verus!
