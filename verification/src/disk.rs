//! What was found on disk and in the environment: plain values, read elsewhere, that the rest of the
//! crate decides on.
use crate::text;
use vstd::prelude::*;

verus! {

/// What stands at a path.
#[derive(Debug, Clone, Copy, PartialEq, Eq, Structural)]
pub enum PathKind {
    /// Nothing.
    Missing,
    /// A regular file.
    File,
    /// A directory.
    Directory,
    /// Something else.
    Other,
}

/// What was found at one path.
#[derive(Debug)]
pub struct PathFact {
    pub path: String,
    pub kind: PathKind,
}

/// The regular files that were found in one directory.
#[derive(Debug)]
pub struct Listing {
    pub dir: String,
    /// Their paths, in the order in which the directory was read.
    pub files: Vec<String>,
}

/// What a path was found to stand for, with every link in it followed.
#[derive(Debug)]
pub struct Resolved {
    pub path: String,
    pub target: String,
}

/// What was found on disk.
#[derive(Debug)]
pub struct Snapshot {
    pub facts: Vec<PathFact>,
    pub listings: Vec<Listing>,
    pub resolved: Vec<Resolved>,
}

/// What the environment of the program holds.
#[derive(Debug)]
pub struct Environment {
    /// The user's home directory.
    pub home: Option<String>,
    /// A whisper-cli to prefer.
    pub whisper_cli_path: Option<String>,
    /// A model file, or a directory of models, to prefer.
    pub whisper_model_path: Option<String>,
    /// The directories in which programs are looked for.
    pub path_dirs: Vec<String>,
    /// The path of the running program.
    pub current_exe: Option<String>,
}

/// What `facts` say of `path`; nothing stands where nothing was found.
pub open spec fn kind_in(facts: Seq<PathFact>, path: Seq<char>) -> PathKind
    decreases facts.len(),
{
    if facts.len() == 0 {
        PathKind::Missing
    } else if facts[0].path@ == path {
        facts[0].kind
    } else {
        kind_in(facts.skip(1), path)
    }
}

/// The files that `listings` give for `dir`, if the directory could be read.
pub open spec fn files_in(listings: Seq<Listing>, dir: Seq<char>) -> Option<Seq<Seq<char>>>
    decreases listings.len(),
{
    if listings.len() == 0 {
        None
    } else if listings[0].dir@ == dir {
        Some(listings[0].files.deep_view())
    } else {
        files_in(listings.skip(1), dir)
    }
}

/// What `path` stands for: itself, where it could not be resolved.
pub open spec fn target_in(resolved: Seq<Resolved>, path: Seq<char>) -> Seq<char>
    decreases resolved.len(),
{
    if resolved.len() == 0 {
        path
    } else if resolved[0].path@ == path {
        resolved[0].target@
    } else {
        target_in(resolved.skip(1), path)
    }
}

/// The strings, each as it is.
pub fn copy_strings(strings: &Vec<String>) -> (r: Vec<String>)
    ensures
        r.deep_view() == strings.deep_view(),
{
    let mut out: Vec<String> = Vec::new();
    let mut i: usize = 0;
    while i < strings.len()
        invariant
            i <= strings@.len(),
            out.deep_view() =~= strings.deep_view().take(i as int),
        decreases strings@.len() - i,
    {
        let ghost before = out.deep_view();
        out.push(strings[i].clone());
        assert(out.deep_view() =~= before.push(strings@[i as int]@));
        i = i + 1;
    }
    assert(strings.deep_view().take(i as int) =~= strings.deep_view());
    out
}

/// Whether two snapshots tell the same of what is at each of `paths`.
pub open spec fn agree_on(a: Snapshot, b: Snapshot, paths: Seq<Seq<char>>) -> bool {
    forall|p: Seq<char>| #[trigger] paths.contains(p) ==> a.kind_of(p) == b.kind_of(p)
}

/// Whether two snapshots tell the same of what is at and in each of `paths`.
pub open spec fn agree_within(a: Snapshot, b: Snapshot, paths: Seq<Seq<char>>) -> bool {
    forall|p: Seq<char>| #[trigger]
        paths.contains(p) ==> a.kind_of(p) == b.kind_of(p) && a.files_of(p) == b.files_of(p)
}

/// Whether two snapshots tell the same of what `path` stands for, if there is one.
pub open spec fn agree_on_target(a: Snapshot, b: Snapshot, path: Option<Seq<char>>) -> bool {
    path matches Some(path) ==> a.target_of(path) == b.target_of(path)
}

impl Snapshot {
    /// What stands at `path`.
    pub open spec fn kind_of(self, path: Seq<char>) -> PathKind {
        kind_in(self.facts@, path)
    }

    /// Whether something stands at `path`.
    pub open spec fn has(self, path: Seq<char>) -> bool {
        self.kind_of(path) != PathKind::Missing
    }

    /// Whether a regular file stands at `path`.
    pub open spec fn has_file(self, path: Seq<char>) -> bool {
        self.kind_of(path) == PathKind::File
    }

    /// Whether a directory stands at `path`.
    pub open spec fn has_dir(self, path: Seq<char>) -> bool {
        self.kind_of(path) == PathKind::Directory
    }

    /// The files in `dir`, if it could be read.
    pub open spec fn files_of(self, dir: Seq<char>) -> Option<Seq<Seq<char>>> {
        files_in(self.listings@, dir)
    }

    /// What `path` stands for.
    pub open spec fn target_of(self, path: Seq<char>) -> Seq<char> {
        target_in(self.resolved@, path)
    }

    /// What stands at a path.
    pub fn kind(&self, path: &str) -> (r: PathKind)
        ensures
            r == self.kind_of(path@),
    {
        let mut i: usize = 0;
        assert(self.facts@.skip(0) =~= self.facts@);
        while i < self.facts.len()
            invariant
                i <= self.facts@.len(),
                self.kind_of(path@) == kind_in(self.facts@.skip(i as int), path@),
            decreases self.facts@.len() - i,
        {
            if text::same(self.facts[i].path.as_str(), path) {
                return self.facts[i].kind;
            }
            assert(self.facts@.skip(i as int).skip(1) =~= self.facts@.skip(i + 1));
            i = i + 1;
        }
        PathKind::Missing
    }

    /// Whether something stands at a path.
    pub fn is_present(&self, path: &str) -> (r: bool)
        ensures
            r == self.has(path@),
    {
        self.kind(path) != PathKind::Missing
    }

    /// Whether a regular file stands at a path.
    pub fn is_file(&self, path: &str) -> (r: bool)
        ensures
            r == self.has_file(path@),
    {
        self.kind(path) == PathKind::File
    }

    /// Whether a directory stands at a path.
    pub fn is_dir(&self, path: &str) -> (r: bool)
        ensures
            r == self.has_dir(path@),
    {
        self.kind(path) == PathKind::Directory
    }

    /// The files in a directory, if it could be read.
    pub fn files(&self, dir: &str) -> (r: Option<Vec<String>>)
        ensures
            r.deep_view() == self.files_of(dir@),
    {
        let mut i: usize = 0;
        assert(self.listings@.skip(0) =~= self.listings@);
        while i < self.listings.len()
            invariant
                i <= self.listings@.len(),
                self.files_of(dir@) == files_in(self.listings@.skip(i as int), dir@),
            decreases self.listings@.len() - i,
        {
            if text::same(self.listings[i].dir.as_str(), dir) {
                return Some(copy_strings(&self.listings[i].files));
            }
            assert(self.listings@.skip(i as int).skip(1) =~= self.listings@.skip(i + 1));
            i = i + 1;
        }
        None
    }

    /// What a path stands for, with every link in it followed.
    pub fn target(&self, path: &str) -> (r: String)
        ensures
            r@ == self.target_of(path@),
    {
        let mut i: usize = 0;
        assert(self.resolved@.skip(0) =~= self.resolved@);
        while i < self.resolved.len()
            invariant
                i <= self.resolved@.len(),
                self.target_of(path@) == target_in(self.resolved@.skip(i as int), path@),
            decreases self.resolved@.len() - i,
        {
            if text::same(self.resolved[i].path.as_str(), path) {
                return self.resolved[i].target.clone();
            }
            assert(self.resolved@.skip(i as int).skip(1) =~= self.resolved@.skip(i + 1));
            i = i + 1;
        }
        path.to_owned()
    }

    /// The first of `paths` at which a regular file stands.
    pub open spec fn first_file_of(self, paths: Seq<Seq<char>>) -> Option<Seq<char>>
        decreases paths.len(),
    {
        if paths.len() == 0 {
            None
        } else if self.has_file(paths[0]) {
            Some(paths[0])
        } else {
            self.first_file_of(paths.skip(1))
        }
    }

    /// The first of several paths at which a regular file stands.
    pub fn first_file(&self, paths: &Vec<String>) -> (r: Option<String>)
        ensures
            r.deep_view() == self.first_file_of(paths.deep_view()),
    {
        let ghost all = paths.deep_view();
        let mut i: usize = 0;
        assert(all.skip(0) =~= all);
        while i < paths.len()
            invariant
                i <= paths@.len(),
                all == paths.deep_view(),
                self.first_file_of(all) == self.first_file_of(all.skip(i as int)),
            decreases paths@.len() - i,
        {
            assert(all.skip(i as int)[0] == paths@[i as int]@);
            if self.is_file(paths[i].as_str()) {
                return Some(paths[i].clone());
            }
            assert(all.skip(i as int).skip(1) =~= all.skip(i + 1));
            i = i + 1;
        }
        None
    }
}

// ---------------------------------------------------------------------------------------------
// Laws
// ---------------------------------------------------------------------------------------------
/// What stands at a path is what was first found there, and nothing where nothing was found.
pub proof fn law_kind_is_what_was_found(disk: Snapshot, path: Seq<char>, i: int)
    ensures
        0 <= i < disk.facts@.len() && disk.facts@[i].path@ == path && (forall|k: int|
            0 <= k < i ==> (#[trigger] disk.facts@[k]).path@ != path) ==> disk.kind_of(path)
            == disk.facts@[i].kind,
        (forall|k: int| 0 <= k < disk.facts@.len() ==> (#[trigger] disk.facts@[k]).path@ != path)
            ==> disk.kind_of(path) == PathKind::Missing,
        disk.has(path) <==> disk.kind_of(path) != PathKind::Missing,
        disk.has_file(path) <==> disk.kind_of(path) == PathKind::File,
        disk.has_dir(path) <==> disk.kind_of(path) == PathKind::Directory,
{
    lemma_kind_in(disk.facts@, path, i);
}

proof fn lemma_kind_in(facts: Seq<PathFact>, path: Seq<char>, i: int)
    ensures
        0 <= i < facts.len() && facts[i].path@ == path && (forall|k: int|
            0 <= k < i ==> (#[trigger] facts[k]).path@ != path) ==> kind_in(facts, path)
            == facts[i].kind,
        (forall|k: int| 0 <= k < facts.len() ==> (#[trigger] facts[k]).path@ != path) ==> kind_in(
            facts,
            path,
        ) == PathKind::Missing,
    decreases facts.len(),
{
    if facts.len() > 0 && facts[0].path@ != path {
        lemma_kind_in(facts.skip(1), path, i - 1);
        assert forall|k: int| 0 <= k < facts.len() - 1 implies #[trigger] facts.skip(1)[k]
            == facts[k + 1] by {}
    }
}

/// The files of a directory are those that were first found in it, and none are known where the
/// directory was not read.
pub proof fn law_files_are_what_was_found(disk: Snapshot, dir: Seq<char>, i: int)
    ensures
        0 <= i < disk.listings@.len() && disk.listings@[i].dir@ == dir && (forall|k: int|
            0 <= k < i ==> (#[trigger] disk.listings@[k]).dir@ != dir) ==> disk.files_of(dir)
            == Some(disk.listings@[i].files.deep_view()),
        (forall|k: int| 0 <= k < disk.listings@.len() ==> (#[trigger] disk.listings@[k]).dir@ != dir)
            ==> disk.files_of(dir) is None,
{
    lemma_files_in(disk.listings@, dir, i);
}

proof fn lemma_files_in(listings: Seq<Listing>, dir: Seq<char>, i: int)
    ensures
        0 <= i < listings.len() && listings[i].dir@ == dir && (forall|k: int|
            0 <= k < i ==> (#[trigger] listings[k]).dir@ != dir) ==> files_in(listings, dir)
            == Some(listings[i].files.deep_view()),
        (forall|k: int| 0 <= k < listings.len() ==> (#[trigger] listings[k]).dir@ != dir)
            ==> files_in(listings, dir) is None,
    decreases listings.len(),
{
    if listings.len() > 0 && listings[0].dir@ != dir {
        lemma_files_in(listings.skip(1), dir, i - 1);
        assert forall|k: int| 0 <= k < listings.len() - 1 implies #[trigger] listings.skip(1)[k]
            == listings[k + 1] by {}
    }
}

/// A path stands for what it was first found to stand for, and for itself where that was not found
/// out.
pub proof fn law_target_is_what_was_found(disk: Snapshot, path: Seq<char>, i: int)
    ensures
        0 <= i < disk.resolved@.len() && disk.resolved@[i].path@ == path && (forall|k: int|
            0 <= k < i ==> (#[trigger] disk.resolved@[k]).path@ != path) ==> disk.target_of(path)
            == disk.resolved@[i].target@,
        (forall|k: int|
            0 <= k < disk.resolved@.len() ==> (#[trigger] disk.resolved@[k]).path@ != path)
            ==> disk.target_of(path) == path,
{
    lemma_target_in(disk.resolved@, path, i);
}

proof fn lemma_target_in(resolved: Seq<Resolved>, path: Seq<char>, i: int)
    ensures
        0 <= i < resolved.len() && resolved[i].path@ == path && (forall|k: int|
            0 <= k < i ==> (#[trigger] resolved[k]).path@ != path) ==> target_in(resolved, path)
            == resolved[i].target@,
        (forall|k: int| 0 <= k < resolved.len() ==> (#[trigger] resolved[k]).path@ != path)
            ==> target_in(resolved, path) == path,
    decreases resolved.len(),
{
    if resolved.len() > 0 && resolved[0].path@ != path {
        lemma_target_in(resolved.skip(1), path, i - 1);
        assert forall|k: int| 0 <= k < resolved.len() - 1 implies #[trigger] resolved.skip(1)[k]
            == resolved[k + 1] by {}
    }
}

/// The first file among paths is a file with none before it; there is none only where no path is
/// that of a file.
pub proof fn law_first_file_is_first(disk: Snapshot, paths: Seq<Seq<char>>, i: int)
    ensures
        0 <= i < paths.len() && disk.has_file(paths[i]) && (forall|k: int|
            0 <= k < i ==> !disk.has_file(#[trigger] paths[k])) ==> disk.first_file_of(paths)
            == Some(paths[i]),
        disk.first_file_of(paths) is None <==> forall|k: int|
            0 <= k < paths.len() ==> !disk.has_file(#[trigger] paths[k]),
        disk.first_file_of(paths) matches Some(p) ==> disk.has_file(p) && paths.contains(p),
    decreases paths.len(),
{
    if paths.len() > 0 {
        let rest = paths.skip(1);
        assert forall|k: int| 0 <= k < rest.len() implies #[trigger] rest[k] == paths[k + 1] by {}
        if !disk.has_file(paths[0]) {
            law_first_file_is_first(disk, rest, i - 1);
            if disk.first_file_of(rest) is None {
                assert forall|k: int| 0 <= k < paths.len() implies !disk.has_file(
                    #[trigger] paths[k],
                ) by {
                    if k > 0 {
                        assert(!disk.has_file(rest[k - 1]));
                    }
                }
            } else {
                let k = choose|k: int| 0 <= k < rest.len() && disk.has_file(#[trigger] rest[k]);
                assert(disk.has_file(paths[k + 1]));
                let p = disk.first_file_of(paths)->0;
                let j = choose|j: int| 0 <= j < rest.len() && rest[j] == p;
                assert(paths[j + 1] == p);
            }
        } else {
            assert(paths.contains(paths[0]));
        }
    }
}

} // verus!
