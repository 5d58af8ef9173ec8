use scribecli::detect;
use scribecli::disk::{Environment, Listing, PathFact, PathKind, Resolved, Snapshot};

fn empty() -> Snapshot {
    Snapshot { facts: Vec::new(), listings: Vec::new(), resolved: Vec::new() }
}

fn with_file(mut disk: Snapshot, path: &str) -> Snapshot {
    disk.facts.push(PathFact { path: path.to_string(), kind: PathKind::File });
    disk
}

fn with_dir(mut disk: Snapshot, dir: &str, files: &[&str]) -> Snapshot {
    disk.facts.push(PathFact { path: dir.to_string(), kind: PathKind::Directory });
    disk.listings.push(Listing {
        dir: dir.to_string(),
        files: files.iter().map(|file| file.to_string()).collect(),
    });
    disk
}

fn env() -> Environment {
    Environment {
        home: Some("/home/me".to_string()),
        whisper_cli_path: None,
        whisper_model_path: None,
        path_dirs: vec!["/usr/bin".to_string(), "/opt/bin".to_string()],
        current_exe: None,
    }
}

#[test]
fn bundled_whisper_candidates_cover_release_layouts() {
    let candidates =
        detect::bundled_whisper_cli_candidates("/tmp/scribecli-release/bin/scribecli", &empty());

    assert!(candidates.contains(&"/tmp/scribecli-release/bin/whisper-cli".to_string()));
    assert!(
        candidates.contains(&"/tmp/scribecli-release/bin/../libexec/whisper-cli".to_string())
    );
    assert!(candidates.contains(
        &"/tmp/scribecli-release/bin/../libexec/scribecli/whisper-cli".to_string()
    ));
}

#[test]
fn bundled_candidates_follow_links() {
    let mut disk = empty();
    disk.resolved.push(Resolved {
        path: "/usr/local/bin/scribecli".to_string(),
        target: "/opt/cellar/bin/scribecli".to_string(),
    });
    let candidates = detect::bundled_whisper_cli_candidates("/usr/local/bin/scribecli", &disk);
    assert_eq!(candidates[0], "/opt/cellar/bin/whisper-cli");
}

#[test]
fn prefers_best_model_in_known_directory() {
    let disk = with_dir(
        empty(),
        "/t/models",
        &["/t/models/ggml-small.en.bin", "/t/models/ggml-large-v3-turbo.bin"],
    );
    let selected = detect::select_model_from_dir("/t/models", &disk).unwrap();
    assert_eq!(selected, "/t/models/ggml-large-v3-turbo.bin");
    assert_eq!(detect::select_model_from_dir("/elsewhere", &disk), None);
}

#[test]
fn models_are_told_by_their_names() {
    assert!(detect::is_whisper_model_file("/x/GGML-Base.BIN"));
    assert!(detect::is_whisper_model_file("whisper-tiny.gguf"));
    assert!(!detect::is_whisper_model_file("/x/base.bin"));
    assert!(!detect::is_whisper_model_file("/x/ggml-base.txt"));
    assert!(!detect::is_whisper_model_file("/"));
}

#[test]
fn larger_models_rank_first() {
    let names = [
        "ggml-large-v3-turbo.bin",
        "ggml-large-v3.bin",
        "ggml-large-v2.bin",
        "ggml-large.bin",
        "ggml-medium.bin",
        "ggml-small.bin",
        "ggml-base.bin",
        "ggml-tiny.bin",
        "ggml-other.bin",
    ];
    for (rank, name) in names.iter().enumerate() {
        assert_eq!(detect::model_sort_key(name), (rank as u8, 0, name.to_string()));
    }
    assert_eq!(detect::model_sort_key("Whisper-Tiny.GGUF").1, 1);
    let mut backwards: Vec<String> = names.iter().map(|name| name.to_string()).collect();
    backwards.reverse();
    assert_eq!(detect::select_model(&backwards).unwrap(), names[0]);
    assert_eq!(detect::select_model(&vec!["notes.txt".to_string()]), None);
}

#[test]
fn the_tool_is_looked_for_in_order() {
    let disk = with_file(empty(), "/opt/bin/whisper-cli");
    assert_eq!(
        detect::detect_whisper_cli_path(&env(), &disk),
        Some("/opt/bin/whisper-cli".to_string())
    );
    let bundled = Environment {
        current_exe: Some("/app/bin/scribecli".to_string()),
        ..env()
    };
    let disk = with_file(disk, "/app/bin/../libexec/whisper-cli");
    assert_eq!(
        detect::detect_whisper_cli_path(&bundled, &disk),
        Some("/app/bin/../libexec/whisper-cli".to_string())
    );
    let named = Environment {
        whisper_cli_path: Some("~/w".to_string()),
        ..bundled
    };
    let disk = with_file(disk, "/home/me/w");
    assert_eq!(
        detect::detect_whisper_cli_path(&named, &disk),
        Some("/home/me/w".to_string())
    );
    assert_eq!(detect::detect_whisper_cli_path(&env(), &empty()), None);
}

#[test]
fn programs_are_looked_for_on_the_path() {
    let disk = with_file(empty(), "/opt/bin/whisper-cli");
    let dirs = env().path_dirs;
    assert_eq!(
        detect::find_binary_on_path("whisper-cli", &dirs, &disk),
        Some("/opt/bin/whisper-cli".to_string())
    );
    assert_eq!(detect::find_binary_on_path("other", &dirs, &disk), None);
}

#[test]
fn a_directory_of_models_can_be_named() {
    let named = Environment {
        whisper_model_path: Some("~/models".to_string()),
        ..env()
    };
    let disk = with_dir(empty(), "/home/me/models", &["/home/me/models/ggml-tiny.bin"]);
    assert_eq!(
        detect::detect_whisper_model_path(&None, &named, &disk),
        Some("/home/me/models/ggml-tiny.bin".to_string())
    );
    assert_eq!(detect::detect_whisper_model_path(&None, &named, &empty()), None);
}

#[test]
fn directories_are_gathered_once() {
    let disk = with_dir(with_dir(empty(), "/a", &[]), "/a/", &[]);
    let mut dirs = Vec::new();
    detect::append_unique_dir(&mut dirs, "/a".to_string(), &disk);
    detect::append_unique_dir(&mut dirs, "/a/".to_string(), &disk);
    detect::append_unique_dir(&mut dirs, "/missing".to_string(), &disk);
    assert_eq!(dirs, ["/a"]);
}

#[test]
fn only_a_leading_tilde_stands_for_home() {
    let home = Some("/home/me".to_string());
    assert_eq!(detect::expand_home("~".to_string(), &home), "/home/me");
    assert_eq!(detect::expand_home("~/x".to_string(), &home), "/home/me/x");
    assert_eq!(detect::expand_home("~x".to_string(), &home), "~x");
    assert_eq!(detect::expand_home("a/~".to_string(), &home), "a/~");
    assert_eq!(detect::expand_home("~/x".to_string(), &None), "~/x");
}

#[test]
fn the_places_for_models_are_named() {
    let mut env = env();
    env.whisper_model_path = Some("~/mine".to_string());
    let mut disk = empty();
    disk.resolved.push(Resolved { path: "/bin/w".to_string(), target: "/opt/w".to_string() });
    assert_eq!(
        detect::whisper_model_candidates(&Some("/bin/w".to_string()), &env, &disk),
        [
            "/home/me/Library/Application Support/superwhisper",
            "/home/me/Library/Application Support/whisper.cpp",
            "/home/me/.cache/whisper.cpp",
            "/home/me/.cache/whisper",
            "/home/me/mine",
            "/opt/w/models",
            "/opt/w/share/whisper/models",
            "/opt/w/share/whisper.cpp/models",
            "/opt/models",
            "/opt/share/whisper/models",
            "/opt/share/whisper.cpp/models",
            "/models",
            "/share/whisper/models",
            "/share/whisper.cpp/models",
        ]
    );
    env.home = None;
    env.whisper_model_path = None;
    assert!(detect::whisper_model_candidates(&None, &env, &disk).is_empty());
}
