use std::path::{Path, PathBuf};

use scribecli::path;

fn samples() -> Vec<&'static str> {
    vec![
        "",
        "/",
        "//",
        ".",
        "..",
        "./",
        "./a",
        "../a",
        "a",
        "a/",
        "a//b",
        "a/./b",
        "a/b/.",
        "a/b/..",
        "/a",
        "/a/",
        "/a/b.txt",
        "/a/b.tar.gz",
        "/a/.hidden",
        "/a/.hidden.txt",
        "a.",
        "..a",
        ".a",
        "/./a",
        "//a//b//",
        "models/ggml-small.en.bin",
        "~/Library/Application Support",
        "x/..",
        "/..",
        "./.",
        "/.",
    ]
}

fn text_of(p: &Path) -> String {
    p.to_str().unwrap().to_string()
}

#[test]
fn parts_agree_with_std() {
    for p in samples() {
        let std_path = Path::new(p);
        assert_eq!(
            path::file_name(p),
            std_path.file_name().map(|name| name.to_str().unwrap().to_string()),
            "{p}"
        );
        assert_eq!(
            path::file_stem(p),
            std_path.file_stem().map(|name| name.to_str().unwrap().to_string()),
            "{p}"
        );
        assert_eq!(path::parent(p), std_path.parent().map(text_of), "{p}");
        let above: Vec<String> = std_path.ancestors().take(4).map(text_of).collect();
        assert_eq!(path::ancestors(p, 4), above, "{p}");
        if p != "..a" {
            assert_eq!(
                path::with_extension(p, "download"),
                text_of(&std_path.with_extension("download")),
                "{p}"
            );
        }
        assert_eq!(
            path::with_file_name(p, "new.json"),
            text_of(&std_path.with_file_name("new.json")),
            "{p}"
        );
    }
}

#[test]
fn pairs_agree_with_std() {
    for a in samples() {
        for b in samples() {
            let x = Path::new(a);
            let y = Path::new(b);
            assert_eq!(path::join(a, b), text_of(&x.join(y)), "{a} {b}");
            assert_eq!(path::starts_with(a, b), x.starts_with(y), "{a} {b}");
            assert_eq!(path::same(a, b), PathBuf::from(a) == PathBuf::from(b), "{a} {b}");
        }
    }
}

#[test]
fn what_leads_out_lies_outside() {
    assert!(path::lies_within("/c/models/a.bin", "/c/models"));
    assert!(path::lies_within("/c/models/./x/a.bin", "/c/models/"));
    assert!(path::lies_within("../models/a.bin", "../models"));
    assert!(!path::lies_within("/c/models/../config.toml", "/c/models"));
    assert!(path::lies_within("/c/models/x/../a.bin", "/c/models"));
    assert!(path::lies_within("/c/models/../models/a.bin", "/c/models"));
    assert!(!path::lies_within("/c/models/x/../../a.bin", "/c/models"));
    assert!(!path::lies_within("/c/models/../../c/models-2/a.bin", "/c/models"));
    assert!(!path::lies_within("../../a.bin", ".."));
    assert!(!path::lies_within("../a.bin", ""));
    assert!(path::lies_within("/../a.bin", "/"));
    assert!(!path::lies_within("/c/x/../models/a.bin", "/c/models"));
    assert!(!path::lies_within("/c/models-2/a.bin", "/c/models"));
    assert!(path::lies_within("/c/models/..a.bin", "/c/models"));
    for base in samples() {
        assert!(path::lies_within(&path::join(base, "a.bin"), base), "{base}");
    }
}

#[test]
fn a_plain_name_is_one_more_component() {
    let base = path::components_of("/a/b/");
    let joined = path::components_of(&path::join("/a/b/", "c.wav"));
    assert_eq!(joined[..base.len()], base[..]);
    assert_eq!(joined[base.len()..], ["c.wav".to_string()]);
    assert_eq!(path::file_name(&path::join("/a/b/", "c.wav")).unwrap(), "c.wav");
}

#[test]
fn names_that_are_not_unicode_do_not_count() {
    let text = scribecli::encoding::path_text(b"/a/x\xff.bin");
    assert_eq!(path::unicode_name(&text), None);
    assert!(path::file_name(&text).is_some());
    assert_eq!(path::unicode_name("/a/x.bin"), Some("x.bin".to_string()));
    assert_eq!(path::unicode_name("/a/.."), None);
}
