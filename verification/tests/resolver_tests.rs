use bms_header::diag::Diagnostic;
use bms_header::fields::JudgeRankType;
use bms_header::header::Header;
use bms_header::ident::Identifier;
use bms_header::parse_header;
use bms_header::paths::{audio_candidates, image_candidates};

fn parse(text: &str) -> (Header, Vec<Diagnostic>) {
    parse_header(text.as_bytes()).expect("input should decode")
}

fn id(s: &str) -> Identifier {
    let mut it = s.chars();
    let c0 = it.next().unwrap();
    let c1 = it.next().unwrap();
    Identifier::from_chars(c0, c1).unwrap()
}

// Window values are in 1/10000 ms: 18 ms is 180000 units.
const MS: u64 = 10000;

#[test]
fn rank_resolution_over_timeline() {
    let (h, _) = parse("#TITLE t\n#RANK 2\n#EXRANKaa 48\n#EXRANKcc 100\n");
    let events = vec![(10u64, id("aa")), (20u64, id("cc"))];
    // Before aa fires: the baseline 18 ms.
    assert_eq!(h.effective_window(&events, 5), 18 * MS);
    // Between aa and cc: 18 ms * 48% = 8.64 ms.
    assert_eq!(h.effective_window(&events, 15), 86400);
    assert_eq!(h.effective_window(&events, 15) as f64 / MS as f64, 8.64);
    // After cc: 18 ms * 100% = 18 ms again.
    assert_eq!(h.effective_window(&events, 25), 18 * MS);
}

#[test]
fn rank_change_applies_at_shared_position() {
    // A rank change sharing a position with a judged note takes effect
    // for that same position.
    let (h, _) = parse("#TITLE t\n#EXRANKaa 50\n");
    let events = vec![(10u64, id("aa"))];
    assert_eq!(h.effective_window(&events, 10), 90000);
    assert_eq!(h.effective_window(&events, 9), 180000);
}

#[test]
fn exrank_does_not_reset_until_next_event() {
    let (h, _) = parse("#TITLE t\n#EXRANKaa 48\n");
    let events = vec![(10u64, id("aa"))];
    // Far past the event, the window is still in force.
    assert_eq!(h.effective_window(&events, u64::MAX), 86400);
}

#[test]
fn unresolved_exrank_event_keeps_window() {
    let (h, _) = parse("#TITLE t\n#EXRANKaa 48\n");
    let events = vec![(10u64, id("aa")), (20u64, id("bb"))];
    // bb is not defined: the window set by aa stays.
    assert_eq!(h.effective_window(&events, 30), 86400);
}

#[test]
fn defexrank_overrides_global_rank() {
    let (h, _) = parse("#TITLE t\n#RANK 0\n#DEFEXRANK 150\n");
    assert_eq!(h.rank_source(), JudgeRankType::Defexrank(15000));
    // 18 ms * 150% = 27 ms, scaled from Normal, not from RANK 0.
    assert_eq!(h.baseline_window(), 270000);
}

#[test]
fn global_rank_windows() {
    assert_eq!(parse("#TITLE t\n#RANK 0\n").0.baseline_window(), 8 * MS);
    assert_eq!(parse("#TITLE t\n#RANK 1\n").0.baseline_window(), 15 * MS);
    assert_eq!(parse("#TITLE t\n#RANK 2\n").0.baseline_window(), 18 * MS);
    assert_eq!(parse("#TITLE t\n#RANK 3\n").0.baseline_window(), 21 * MS);
}

#[test]
fn implicit_subtitle_from_tilde_pair() {
    let (h, _) = parse("#TITLE Fragment\u{FF5E}Reconstruction\u{FF5E}\n");
    let parts = h.title_parts();
    assert_eq!(parts.title, "Fragment");
    assert_eq!(parts.subtitle.as_deref(), Some("Reconstruction"));
}

#[test]
fn plain_title_has_no_subtitle() {
    let (h, _) = parse("#TITLE Plain Title\n");
    let parts = h.title_parts();
    assert_eq!(parts.title, "Plain Title");
    assert_eq!(parts.subtitle, None);
}

#[test]
fn implicit_subtitle_from_quotes() {
    let (h, _) = parse("#TITLE main \"sub\"\n");
    let parts = h.title_parts();
    assert_eq!(parts.title, "main");
    assert_eq!(parts.subtitle.as_deref(), Some("sub"));
}

#[test]
fn explicit_subtitle_suppresses_extraction() {
    let (h, _) = parse("#TITLE main\u{FF5E}tail\u{FF5E}\n#SUBTITLE given\n");
    let parts = h.title_parts();
    assert_eq!(parts.title, "main\u{FF5E}tail\u{FF5E}");
    assert_eq!(parts.subtitle.as_deref(), Some("given"));
}

#[test]
fn unsupported_delimiters_are_not_extracted() {
    let (h, _) = parse("#TITLE main(sub)\n");
    let parts = h.title_parts();
    assert_eq!(parts.title, "main(sub)");
    assert_eq!(parts.subtitle, None);
}

#[test]
fn audio_candidates_for_bare_stem() {
    let c = audio_candidates("boss");
    assert_eq!(c, vec!["boss.wav", "boss.ogg", "boss.mp3", "boss.flac"]);
}

#[test]
fn audio_candidates_replace_extension() {
    let c = audio_candidates("piano01.ogg");
    assert_eq!(
        c,
        vec!["piano01.wav", "piano01.ogg", "piano01.mp3", "piano01.flac"]
    );
}

#[test]
fn image_candidates_in_order() {
    let c = image_candidates("bga.bmp");
    assert_eq!(
        c,
        vec!["bga.bmp", "bga.png", "bga.jpg", "bga.gif", "bga.mpg", "bga.avi"]
    );
}

#[test]
fn utf8_input_decodes_first() {
    let (h, _) = parse("#TITLE caf\u{00E9}\n");
    assert_eq!(h.title.0, "caf\u{00E9}");
}

#[test]
fn shift_jis_input_decodes() {
    // "#TITLE <te su to>" in Shift-JIS; invalid as UTF-8.
    let bytes: &[u8] = &[
        b'#', b'T', b'I', b'T', b'L', b'E', b' ', 0x83, 0x65, 0x83, 0x58, 0x83, 0x67, b'\n',
    ];
    let (h, _) = parse_header(bytes).expect("Shift-JIS should decode");
    assert_eq!(h.title.0, "\u{30C6}\u{30B9}\u{30C8}");
}

#[test]
fn undetectable_encoding_is_fatal() {
    // A Shift-JIS lead byte with an invalid trail byte, and an odd length
    // that breaks both UTF-16 endiannesses.
    let bytes: &[u8] = &[0x82, 0x00, 0x41];
    assert!(parse_header(bytes).is_err());
}

#[test]
fn crlf_lines_are_handled() {
    let (h, _) = parse("#TITLE one\r\n#ARTIST two\r\n");
    assert_eq!(h.title.0, "one");
    assert_eq!(h.artist.0, "two");
}

#[test]
fn euc_jp_input_decodes() {
    // "#TITLE <U+74D4>" in EUC-JP; the trail byte 0xFD is invalid as a
    // Shift-JIS trail, so detection falls through to EUC-JP.
    let bytes: &[u8] = &[
        b'#', b'T', b'I', b'T', b'L', b'E', b' ', 0xE0, 0xFD, b'\n',
    ];
    let (h, _) = parse_header(bytes).expect("EUC-JP should decode");
    assert_eq!(h.title.0, "\u{74D4}");
}

#[test]
fn utf16_be_input_decodes() {
    // Big-endian UTF-16 with a first line that breaks every other
    // candidate: U+00D8 reads as an unpaired surrogate in little-endian
    // order, and the 0xFF byte is invalid in the legacy encodings.
    let bytes: &[u8] = &[
        0x00, 0xD8, 0x00, 0xFF, 0x00, 0x0A, 0x00, b'#', 0x00, b'T', 0x00, b'I', 0x00, b'T', 0x00,
        b'L', 0x00, b'E', 0x00, b' ', 0x00, b'B', 0x00, 0x0A,
    ];
    let (h, _) = parse_header(bytes).expect("UTF-16BE should decode");
    assert_eq!(h.title.0, "B");
}

#[test]
fn utf16_le_input_decodes() {
    // Little-endian UTF-16 opened by its byte-order mark; 0xFF is
    // invalid in UTF-8 and in the legacy encodings, so detection reaches
    // UTF-16LE. The mark becomes a lone non-directive first line.
    let bytes: &[u8] = &[
        0xFF, 0xFE, 0x0A, 0x00, b'#', 0x00, b'T', 0x00, b'I', 0x00, b'T', 0x00, b'L', 0x00, b'E',
        0x00, b' ', 0x00, b'A', 0x00, 0x0A, 0x00,
    ];
    let (h, _) = parse_header(bytes).expect("UTF-16LE should decode");
    assert_eq!(h.title.0, "A");
}
