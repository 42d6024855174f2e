use bms_header::diag::{Diagnostic, DirectiveId, Family, FieldId};
use bms_header::fields::{Difficulty, Player, Rank};
use bms_header::header::Header;
use bms_header::ident::Identifier;
use bms_header::parse_header;

fn parse(text: &str) -> (Header, Vec<Diagnostic>) {
    parse_header(text.as_bytes()).expect("input should decode")
}

fn id(s: &str) -> Identifier {
    let mut it = s.chars();
    let c0 = it.next().unwrap();
    let c1 = it.next().unwrap();
    Identifier::from_chars(c0, c1).unwrap()
}

#[test]
fn identifier_case_insensitive() {
    assert_eq!(id("aa"), id("AA"));
    assert_eq!(id("0f"), id("0F"));
    assert_eq!(id("zz"), id("ZZ"));
}

#[test]
fn identifier_canonicalization_idempotent() {
    let first = id("aa");
    let (c0, c1) = first.chars();
    assert_eq!(c0, 'A');
    assert_eq!(c1, 'A');
    let again = Identifier::from_chars(c0, c1).unwrap();
    assert_eq!(first, again);
}

#[test]
fn identifier_rejects_outside_alphabet() {
    assert!(Identifier::from_chars('!', '0').is_none());
    assert!(Identifier::from_chars('0', ' ').is_none());
    assert!(Identifier::from_chars('0', 'A').is_some());
}

#[test]
fn duplicate_index_keeps_first_value() {
    let (h, diags) = parse("#TITLE t\n#WAV0A a.wav\n#WAV0A b.wav\n");
    let w = h.wav_at(id("0A")).unwrap();
    assert_eq!(w.1, "a.wav");
    let dups: Vec<&Diagnostic> = diags
        .iter()
        .filter(|d| matches!(d, Diagnostic::DuplicateIndex(Family::Wav, _)))
        .collect();
    assert_eq!(dups.len(), 1);
    match dups[0] {
        Diagnostic::DuplicateIndex(Family::Wav, i) => assert_eq!(*i, id("0a")),
        _ => unreachable!(),
    }
}

#[test]
fn duplicate_index_all_five_families() {
    let text = "#TITLE t\n\
                #WAV0A a.wav\n#WAV0A b.wav\n\
                #BMP0B a.bmp\n#BMP0B b.bmp\n\
                #BPM0C 120\n#BPM0C 150\n\
                #STOP0D 96\n#STOP0D 48\n\
                #EXRANK0E 50\n#EXRANK0E 75\n";
    let (h, diags) = parse(text);
    assert_eq!(h.wav_at(id("0A")).unwrap().1, "a.wav");
    assert_eq!(h.bmp_at(id("0B")).unwrap().1, "a.bmp");
    match h.bpm_change(id("0C")).unwrap() {
        bms_header::fields::BPM::Extended(e) => assert_eq!(e.1, 12000),
        _ => unreachable!(),
    }
    assert_eq!(h.stop_at(id("0D")).unwrap().1, 96);
    let dups = diags
        .iter()
        .filter(|d| matches!(d, Diagnostic::DuplicateIndex(_, _)))
        .count();
    assert_eq!(dups, 5);
}

#[test]
fn defaults_substituted_when_omitted() {
    let (h, diags) = parse("#ARTIST someone\n");
    assert_eq!(h.rank, Rank::Normal);
    assert_eq!(h.baseline_window(), 180000); // 18 ms in 1/10000 ms units
    assert_eq!(h.total.0, 16000); // 160.00
    assert_eq!(h.play_level.0, 3);
    assert_eq!(h.player, Player::One);
    assert_eq!(h.bpm.0, 13000); // 130.00
    assert_eq!(h.volwav.0, 100);
    assert_eq!(h.title.0, "");
    assert_eq!(h.difficulty, None);
    assert_eq!(h.ln_type, None);
    assert_eq!(h.ln_obj, None);
    // The omitted title is the one default that carries a diagnostic.
    let title_diags = diags
        .iter()
        .filter(|d| {
            matches!(
                d,
                Diagnostic::MalformedOperand(DirectiveId::Field(FieldId::Title), _)
            )
        })
        .count();
    assert_eq!(title_diags, 1);
}

#[test]
fn scalar_fields_parse() {
    let text = "#PLAYER 2\n#RANK 1\n#TOTAL 199.97\n#VOLWAV 250\n#PLAYLEVEL 12\n\
                #DIFFICULTY 4\n#TITLE  My Song \n#ARTIST composer\n#SUBARTIST bga team\n\
                #MAKER noter\n#GENRE techno\n#BPM 155.5\n#LNTYPE 1\n#LNOBJ ZZ\n\
                #STAGEFILE stage.png\n#BANNER banner.png\n#BACKBMP back.png\n";
    let (h, diags) = parse(text);
    assert_eq!(h.player, Player::Two);
    assert_eq!(h.rank, Rank::Hard);
    assert_eq!(h.total.0, 19997);
    assert_eq!(h.volwav.0, 250);
    assert_eq!(h.play_level.0, 12);
    assert_eq!(h.difficulty, Some(Difficulty::Another));
    assert_eq!(h.title.0, "My Song");
    assert_eq!(h.artist.0, "composer");
    assert_eq!(h.subartist.0, "bga team");
    assert_eq!(h.maker.0, "noter");
    assert_eq!(h.genre.0, "techno");
    assert_eq!(h.bpm.0, 15550);
    assert_eq!(h.ln_type.unwrap().0, 1);
    assert_eq!(h.ln_obj.unwrap().0, id("zz"));
    assert_eq!(h.stagefile.0, "stage.png");
    assert_eq!(h.banner.0, "banner.png");
    assert_eq!(h.back_bmp.0, "back.png");
    assert_eq!(diags.len(), 0);
}

#[test]
fn malformed_playlevel_recovers_with_default() {
    let (h, diags) = parse("#TITLE t\n#PLAYLEVEL abc\n");
    assert_eq!(h.play_level.0, 3);
    let malformed: Vec<&Diagnostic> = diags
        .iter()
        .filter(|d| matches!(d, Diagnostic::MalformedOperand(_, _)))
        .collect();
    assert_eq!(malformed.len(), 1);
    match malformed[0] {
        Diagnostic::MalformedOperand(DirectiveId::Field(FieldId::PlayLevel), raw) => {
            assert_eq!(raw, "abc");
        }
        _ => panic!("wrong diagnostic subject"),
    }
}

#[test]
fn malformed_enum_ordinal_out_of_range() {
    let (h, diags) = parse("#TITLE t\n#PLAYER 7\n#RANK 9\n#DIFFICULTY 0\n");
    assert_eq!(h.player, Player::One);
    assert_eq!(h.rank, Rank::Normal);
    assert_eq!(h.difficulty, None);
    let malformed = diags
        .iter()
        .filter(|d| matches!(d, Diagnostic::MalformedOperand(_, _)))
        .count();
    assert_eq!(malformed, 3);
}

#[test]
fn stop_fractional_operand_truncates() {
    let (h, diags) = parse("#TITLE t\n#STOP11 96.7\n");
    assert_eq!(h.stop_at(id("11")).unwrap().1, 96);
    assert_eq!(diags.len(), 0);
}

#[test]
fn stop_negative_operand_is_malformed() {
    let (h, diags) = parse("#TITLE t\n#STOP11 -48\n");
    assert!(h.stop_at(id("11")).is_none());
    let malformed = diags
        .iter()
        .filter(|d| {
            matches!(
                d,
                Diagnostic::MalformedOperand(DirectiveId::Indexed(Family::Stop), _)
            )
        })
        .count();
    assert_eq!(malformed, 1);
}

#[test]
fn negative_extended_bpm_is_kept() {
    let (h, _) = parse("#TITLE t\n#EXBPMAA -100\n#BPMBB 155.5\n");
    match h.bpm_change(id("AA")).unwrap() {
        bms_header::fields::BPM::Extended(e) => assert_eq!(e.1, -10000),
        _ => unreachable!(),
    }
    match h.bpm_change(id("BB")).unwrap() {
        bms_header::fields::BPM::Extended(e) => assert_eq!(e.1, 15550),
        _ => unreachable!(),
    }
}

#[test]
fn unknown_directive_is_reported_and_skipped() {
    let (h, diags) = parse("#TITLE t\n#NOSUCH x\n#ARTIST a\n");
    assert_eq!(h.artist.0, "a");
    match &diags[0] {
        Diagnostic::UnknownDirective(w) => assert_eq!(w, "NOSUCH"),
        _ => panic!("expected an unknown directive"),
    }
}

#[test]
fn bad_identifier_is_unknown_directive() {
    let (_, diags) = parse("#TITLE t\n#WAV!! x.wav\n#WAV0 y.wav\n");
    let unknown = diags
        .iter()
        .filter(|d| matches!(d, Diagnostic::UnknownDirective(_)))
        .count();
    assert_eq!(unknown, 2);
}

#[test]
fn directive_names_are_case_insensitive() {
    let (h, _) = parse("#title hello\n#wav0a snd.wav\n");
    assert_eq!(h.title.0, "hello");
    assert_eq!(h.wav_at(id("0A")).unwrap().1, "snd.wav");
}

#[test]
fn non_directive_lines_are_ignored() {
    let (h, diags) = parse("#TITLE t\n\nrandom prose\n  \n*-- comment\n");
    assert_eq!(h.title.0, "t");
    assert_eq!(diags.len(), 0);
}

#[test]
fn exrank_prefix_never_missplit() {
    // EXRANKaa must bind as the EXRANK family, not as EX + RANK.
    let (h, _) = parse("#TITLE t\n#RANK 2\n#EXRANKaa 48\n");
    assert_eq!(h.rank, Rank::Normal);
    assert_eq!(h.rank_source(), bms_header::fields::JudgeRankType::Rank);
    assert!(matches!(
        h.exrank_source(id("aa")),
        Some(bms_header::fields::JudgeRankType::Exrank(_, 4800))
    ));
}

#[test]
fn last_scalar_definition_wins() {
    let (h, _) = parse("#TITLE one\n#TITLE two\n");
    assert_eq!(h.title.0, "two");
}
