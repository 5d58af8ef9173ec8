use scribecli::encoding::{holds_unicode, path_bytes, path_text, shown_text};
use scribecli::transcribe::default_transcript_path_for_audio;

#[test]
fn unicode_paths_are_their_text() {
    for path in ["", "/", "/a/b.wav", "a//b/", "/h\u{e9}/\u{1f600}/\u{10ffff}.bin", "~"] {
        assert_eq!(path_text(path.as_bytes()), path);
        assert_eq!(path_bytes(path), path.as_bytes());
        assert_eq!(shown_text(path), path);
        assert!(holds_unicode(path));
    }
}

#[test]
fn no_byte_is_lost() {
    let mut all: Vec<u8> = (1..=255).collect();
    all.extend(1..=255);
    for path in [
        b"/h/\xff/x".to_vec(),
        b"\xc3".to_vec(),
        b"\xc3\xa9/\xc3".to_vec(),
        b"/\xed\xa0\x80/\xf4\x90\x80\x80".to_vec(),
        all,
    ] {
        let text = path_text(&path);
        assert_eq!(path_bytes(&text), path);
        assert!(!holds_unicode(&text));
        assert_eq!(shown_text(&text), String::from_utf8_lossy(&path));
    }
}

#[test]
fn components_are_read_one_by_one() {
    assert_eq!(path_text(b"/\xc3\xa9/\xff/a"), "/\u{e9}/\0\u{ff}/a");
    assert_eq!(path_text(b"/\xff\xc3\xa9"), "/\0\u{ff}\0\u{c3}\0\u{a9}");
}

#[test]
fn a_message_shows_what_is_not_unicode_replaced() {
    let message = format!("failed to read {}", path_text(b"/h/\xff/x"));
    assert_eq!(shown_text(&message), "failed to read /h/\u{fffd}/x");
}

#[test]
fn a_stem_that_is_not_unicode_is_not_used() {
    let audio = path_text(b"/h/\xff.wav");
    assert_eq!(default_transcript_path_for_audio(&audio), "/h/transcript.transcript.json");
    let named = path_text(b"/\xff/a.wav");
    assert_eq!(
        path_bytes(&default_transcript_path_for_audio(&named)),
        b"/\xff/a.transcript.json"
    );
}
