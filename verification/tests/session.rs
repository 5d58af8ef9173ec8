use scribecli::session::{
    build_session_id, compact_at, now_rfc3339, rfc3339_at, session_id_at, session_id_text,
    signed_decimal_text, slugify, stamp_text, SessionPaths,
};

#[test]
fn artifacts_lie_in_the_session() {
    let paths = SessionPaths::create("/s", "weekly");
    assert_eq!(paths.root_dir, "/s/weekly");
    assert_eq!(paths.system_audio_path, "/s/weekly/system.wav");
    assert_eq!(paths.microphone_audio_path, "/s/weekly/microphone.wav");
    assert_eq!(paths.raw_audio_path, "/s/weekly/session.wav");
    assert_eq!(paths.transcript_path, "/s/weekly/transcript.json");
    assert_eq!(paths.event_log_path, "/s/weekly/events.jsonl");
}

#[test]
fn slugs_are_words_and_dashes() {
    assert_eq!(slugify("Weekly Sync"), "weekly-sync");
    assert_eq!(slugify("  --Q3 / Review!!  "), "q3-review");
    assert_eq!(slugify("Grüße"), "gr-e");
    assert_eq!(slugify("---"), "");
    assert_eq!(slugify(""), "");
    assert_eq!(slugify("a_b.c"), "a-b-c");
    for input in ["Weekly Sync", "x--Y", "../etc/passwd", "9 lives"] {
        let slug = slugify(input);
        assert_eq!(slugify(&slug), slug);
        assert!(!slug.contains("--"));
        assert!(!slug.contains('/'));
    }
}

#[test]
fn session_names_have_three_parts() {
    assert_eq!(
        session_id_text(Some("Weekly Sync"), "20260326T120000Z", 1234),
        "weekly-sync-20260326T120000Z-1234"
    );
    assert_eq!(session_id_text(Some("!!"), "T", 1), "session-T-1");
    assert_eq!(session_id_text(None, "T", 1), "session-T-1");
}

#[test]
fn session_names_carry_the_time() {
    let id = build_session_id(Some("a/b"), 77);
    assert!(!id.contains('/'));
    let stamp = id.strip_prefix("a-b-").unwrap().strip_suffix("-77").unwrap();
    assert_eq!(stamp.len(), "20260326T120000Z".len());
    assert_eq!(&stamp[8..9], "T");
    assert!(stamp.ends_with('Z'));
    assert!(stamp[..8].chars().all(|c| c.is_ascii_digit()));
    assert!(stamp[9..15].chars().all(|c| c.is_ascii_digit()));
    assert!(&stamp[..4] >= "2024");
}

#[test]
fn the_time_is_in_rfc_3339() {
    let now = now_rfc3339();
    let parsed = time::OffsetDateTime::parse(
        &now,
        &time::format_description::well_known::Rfc3339,
    )
    .unwrap();
    assert!(parsed.year() >= 2024);
    assert!(now.ends_with('Z'));
}

#[test]
fn without_a_format_the_seconds_stand() {
    assert_eq!(stamp_text(Some("x".to_string()), 5), "x");
    assert_eq!(stamp_text(None, 1_700_000_000), "1700000000");
    assert_eq!(stamp_text(None, -5), "-5");
    assert_eq!(signed_decimal_text(i64::MIN), i64::MIN.to_string());
    assert_eq!(signed_decimal_text(0), "0");
}

#[test]
fn moments_are_written_exactly() {
    assert_eq!(rfc3339_at(0, 5), "1970-01-01T00:00:00Z");
    assert_eq!(rfc3339_at(1_774_526_400_500_000_000, 0), "2026-03-26T12:00:00.5Z");
    assert_eq!(compact_at(0, 5), "19700101T000000Z");
    assert_eq!(compact_at(1_774_526_400_500_000_000, 0), "20260326T120000Z");
    assert_eq!(rfc3339_at(i128::MAX, -7), "-7");
    assert_eq!(compact_at(i128::MAX, 7), "7");
    assert_eq!(session_id_at(Some("Weekly Sync"), 0, 5, 42), "weekly-sync-19700101T000000Z-42");
    assert_eq!(session_id_at(None, i128::MIN, 5, 42), "session-5-42");
}
