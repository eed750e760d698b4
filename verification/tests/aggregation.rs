use fault_tracker::render::blank_field;
use fault_tracker::render::channel_type;
use fault_tracker::render::ChannelKind;
use fault_tracker::render::occurrence_footer;
use fault_tracker::render::render_notification;
use fault_tracker::render::rewrite_footer;
use fault_tracker::render::Attribution;
use fault_tracker::render::Field;
use fault_tracker::render::RED;
use fault_tracker::report::begin_report;
use fault_tracker::report::finish_report;
use fault_tracker::report::ReportPhase;
use fault_tracker::report::ReportResolution;
use fault_tracker::retrieve::retrieve;
use fault_tracker::retrieve::Retrieval;
use fault_tracker::store::IncidentStore;
use fault_tracker::store::RecordOutcome;
use fault_tracker::Error;

fn diag(text: &str) -> Vec<u8> {
    text.as_bytes().to_vec()
}

fn new_fingerprint(store: &mut IncidentStore, text: &str) -> Vec<u8> {
    match begin_report(store, &diag(text)) {
        ReportPhase::New { fingerprint } => fingerprint,
        _ => panic!("expected a first occurrence"),
    }
}

#[test]
fn fingerprint_is_sha256_of_the_bytes() {
    let mut store = IncidentStore::new();
    let fp = new_fingerprint(&mut store, "abc");
    let expected: [u8; 32] = [
        0xba, 0x78, 0x16, 0xbf, 0x8f, 0x01, 0xcf, 0xea, 0x41, 0x41, 0x40, 0xde, 0x5d, 0xae,
        0x22, 0x23, 0xb0, 0x03, 0x61, 0xa3, 0x96, 0x17, 0x7a, 0x9c, 0xb4, 0x10, 0xff, 0x61,
        0xf2, 0x00, 0x15, 0xad,
    ];
    assert_eq!(fp, expected.to_vec());
}

#[test]
fn fingerprint_is_deterministic_and_separates_texts() {
    let mut s1 = IncidentStore::new();
    let mut s2 = IncidentStore::new();
    let mut s3 = IncidentStore::new();
    let a1 = new_fingerprint(&mut s1, "nil pointer at X");
    let a2 = new_fingerprint(&mut s2, "nil pointer at X");
    let b = new_fingerprint(&mut s3, "nil pointer at Y");
    assert_eq!(a1, a2);
    assert_ne!(a1, b);
    assert_eq!(a1.len(), 32);
}

#[test]
fn first_report_creates_incident_with_count_one() {
    let mut store = IncidentStore::new();
    let d = diag("nil pointer at X");
    let fp = new_fingerprint(&mut store, "nil pointer at X");
    match finish_report(&mut store, &fp, &d, 101) {
        ReportResolution::Created { notification_ref } => assert_eq!(notification_ref, 101),
        _ => panic!("expected this insert to win"),
    }
    assert_eq!(store.occurrence_count(&fp), 1);
}

#[test]
fn repeated_fault_updates_footer_and_creates_no_new_notification() {
    let mut store = IncidentStore::new();
    let d = diag("nil pointer at X");
    let fp = new_fingerprint(&mut store, "nil pointer at X");
    match finish_report(&mut store, &fp, &d, 101) {
        ReportResolution::Created { notification_ref } => assert_eq!(notification_ref, 101),
        _ => panic!("expected this insert to win"),
    }
    match begin_report(&mut store, &d) {
        ReportPhase::Existing { notification_ref, occurrences, footer } => {
            assert_eq!(notification_ref, 101);
            assert_eq!(occurrences, 2);
            assert_eq!(footer, "This error has occurred 2 times!");
        }
        _ => panic!("expected the incident to exist"),
    }
    assert_eq!(store.occurrence_count(&fp), 2);
}

#[test]
fn n_reports_of_one_fault_count_n() {
    let mut store = IncidentStore::new();
    let d = diag("nil pointer at X");
    let fp = new_fingerprint(&mut store, "nil pointer at X");
    match finish_report(&mut store, &fp, &d, 101) {
        ReportResolution::Created { .. } => {}
        _ => panic!("expected this insert to win"),
    }
    for expected in 2..=7u64 {
        match begin_report(&mut store, &d) {
            ReportPhase::Existing { notification_ref, occurrences, .. } => {
                assert_eq!(notification_ref, 101);
                assert_eq!(occurrences, expected);
            }
            _ => panic!("expected the incident to exist"),
        }
    }
    assert_eq!(store.occurrence_count(&fp), 7);
}

#[test]
fn different_faults_get_separate_incidents() {
    let mut store = IncidentStore::new();
    let da = diag("nil pointer at X");
    let db = diag("index out of range at Y");
    let fa = new_fingerprint(&mut store, "nil pointer at X");
    match finish_report(&mut store, &fa, &da, 101) {
        ReportResolution::Created { notification_ref } => assert_eq!(notification_ref, 101),
        _ => panic!("expected this insert to win"),
    }
    let fb = new_fingerprint(&mut store, "index out of range at Y");
    match finish_report(&mut store, &fb, &db, 202) {
        ReportResolution::Created { notification_ref } => assert_eq!(notification_ref, 202),
        _ => panic!("expected this insert to win"),
    }
    assert_ne!(fa, fb);
    assert_eq!(store.occurrence_count(&fa), 1);
    assert_eq!(store.occurrence_count(&fb), 1);
    assert!(store.notification_known(101));
    assert!(store.notification_known(202));
}

#[test]
fn losing_a_create_race_orphans_the_second_notification() {
    let mut store = IncidentStore::new();
    let d = diag("nil pointer at X");
    // Two reporters both see no incident before either insert lands.
    let fp1 = new_fingerprint(&mut store, "nil pointer at X");
    let fp2 = new_fingerprint(&mut store, "nil pointer at X");
    assert_eq!(fp1, fp2);
    match finish_report(&mut store, &fp1, &d, 301) {
        ReportResolution::Created { notification_ref } => assert_eq!(notification_ref, 301),
        _ => panic!("the first insert should win"),
    }
    match finish_report(&mut store, &fp2, &d, 302) {
        ReportResolution::LostRace { authoritative_ref, orphan_ref, occurrences } => {
            assert_eq!(authoritative_ref, 301);
            assert_eq!(orphan_ref, 302);
            assert_eq!(occurrences, 2);
        }
        _ => panic!("the second insert should lose the race"),
    }
    assert_eq!(store.occurrence_count(&fp1), 2);
    // Exactly one notification survives: the winner's.
    assert!(store.notification_known(301));
    assert!(!store.notification_known(302));
    assert!(matches!(retrieve(&store, 302), Retrieval::Absent));
}

#[test]
fn retrieve_returns_the_exact_diagnostic_bytes() {
    let mut store = IncidentStore::new();
    let text = "nil pointer at X\n  frame 0: run\n  frame 1: main";
    let d = diag(text);
    let fp = new_fingerprint(&mut store, text);
    match finish_report(&mut store, &fp, &d, 101) {
        ReportResolution::Created { .. } => {}
        _ => panic!("expected this insert to win"),
    }
    // A later occurrence must not disturb the stored diagnostic.
    match begin_report(&mut store, &d) {
        ReportPhase::Existing { .. } => {}
        _ => panic!("expected the incident to exist"),
    }
    match retrieve(&store, 101) {
        Retrieval::Artifact { filename, contents } => {
            assert_eq!(filename, "traceback.txt");
            assert_eq!(contents, text.as_bytes().to_vec());
        }
        Retrieval::Absent => panic!("the notification is live"),
    }
}

#[test]
fn retrieve_of_an_unknown_reference_is_absent() {
    let mut store = IncidentStore::new();
    assert!(matches!(retrieve(&store, 999), Retrieval::Absent));
    let d = diag("nil pointer at X");
    let fp = new_fingerprint(&mut store, "nil pointer at X");
    match finish_report(&mut store, &fp, &d, 101) {
        ReportResolution::Created { .. } => {}
        _ => panic!("expected this insert to win"),
    }
    assert!(matches!(retrieve(&store, 999), Retrieval::Absent));
}

#[test]
fn record_occurrence_ignores_the_candidate_of_a_loser() {
    let mut store = IncidentStore::new();
    let d = diag("nil pointer at X");
    let fp = new_fingerprint(&mut store, "nil pointer at X");
    match store.record_occurrence(&fp, &d, 101) {
        RecordOutcome::Recorded { notification_ref, occurrences, is_new } => {
            assert_eq!(notification_ref, 101);
            assert_eq!(occurrences, 1);
            assert!(is_new);
        }
        RecordOutcome::Saturated => panic!("a fresh incident cannot be saturated"),
    }
    match store.record_occurrence(&fp, &d, 999) {
        RecordOutcome::Recorded { notification_ref, occurrences, is_new } => {
            assert_eq!(notification_ref, 101);
            assert_eq!(occurrences, 2);
            assert!(!is_new);
        }
        RecordOutcome::Saturated => panic!("the count is nowhere near the limit"),
    }
    assert!(!store.notification_known(999));
}

#[test]
fn footer_counts_occurrences_in_words() {
    assert_eq!(occurrence_footer(1), "This error has occurred 1 time!");
    assert_eq!(occurrence_footer(2), "This error has occurred 2 times!");
    assert_eq!(occurrence_footer(10), "This error has occurred 10 times!");
    assert_eq!(occurrence_footer(12345), "This error has occurred 12345 times!");
}

#[test]
fn blank_field_is_the_invisible_spacer() {
    let f = blank_field();
    assert_eq!(f.name, "\u{200B}");
    assert_eq!(f.value, "\u{200B}");
    assert!(f.inline);
}

#[test]
fn renderer_wraps_values_but_not_the_spacer() {
    let fields = vec![
        Field { name: String::from("Event"), value: String::from("command"), inline: true },
        blank_field(),
        Field { name: String::from("Guild"), value: String::from("testing"), inline: false },
    ];
    let content = render_notification(
        String::from("an unknown error occurred"),
        &fields,
        Some(Attribution { name: String::from("operator"), icon_url: None }),
    );
    assert_eq!(content.title, "an unknown error occurred");
    assert_eq!(content.footer, "This error has occurred 1 time!");
    assert_eq!(content.colour, RED);
    assert_eq!(content.fields.len(), 3);
    assert_eq!(content.fields[0].name, "Event");
    assert_eq!(content.fields[0].value, "`command`");
    assert!(content.fields[0].inline);
    assert_eq!(content.fields[1].value, "\u{200B}");
    assert_eq!(content.fields[2].value, "`testing`");
    assert!(!content.fields[2].inline);
    let author = content.author.expect("attribution passes through");
    assert_eq!(author.name, "operator");
    assert!(author.icon_url.is_none());
}

#[test]
fn rewriting_the_footer_touches_nothing_else() {
    let fields = vec![Field { name: String::from("Event"), value: String::from("command"), inline: true }];
    let content = render_notification(String::from("a fault"), &fields, None);
    let edited = rewrite_footer(content, occurrence_footer(3));
    assert_eq!(edited.title, "a fault");
    assert_eq!(edited.footer, "This error has occurred 3 times!");
    assert_eq!(edited.fields.len(), 1);
    assert_eq!(edited.fields[0].value, "`command`");
    assert!(edited.author.is_none());
    assert_eq!(edited.colour, RED);
}

#[test]
fn channel_kinds_map_to_their_labels() {
    assert_eq!(channel_type(ChannelKind::Text), "Text Channel");
    assert_eq!(channel_type(ChannelKind::News), "Text Channel");
    assert_eq!(channel_type(ChannelKind::Voice), "Voice Channel");
    assert_eq!(channel_type(ChannelKind::NewsThread), "News Thread Channel");
    assert_eq!(channel_type(ChannelKind::PublicThread), "Public Thread Channel");
    assert_eq!(channel_type(ChannelKind::PrivateThread), "Private Thread Channel");
    assert_eq!(channel_type(ChannelKind::Private), "Private Channel");
    assert_eq!(channel_type(ChannelKind::Category), "Category Channel??");
    assert_eq!(channel_type(ChannelKind::Other), "Unknown Channel Type");
}

#[test]
fn error_distinguishes_expected_from_unexpected_faults() {
    let expected = Error::GuildOnly;
    let unexpected = Error::Unexpected(String::from("nil pointer at X"));
    assert!(matches!(expected, Error::GuildOnly));
    match unexpected {
        Error::Unexpected(text) => assert_eq!(text, "nil pointer at X"),
        Error::GuildOnly => panic!("an unexpected fault must stay unexpected"),
    }
}
