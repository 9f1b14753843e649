use aptnomo::codec::{
    card_from_record, card_record, pattern_from_record, pattern_record, CardRecord, PatternRecord,
    Record,
};
use aptnomo::error::StoreError;
use aptnomo::types::{BaselinePattern, CardStatus, Module, PatternType, Severity, ThreatCard};

fn sample_card() -> ThreatCard {
    ThreatCard {
        id: 12,
        timestamp: 1_700_000_000,
        module: Module::Files,
        severity: Severity::Red,
        title: "hidden executable".into(),
        description: "hidden executable in /tmp: .x".into(),
        process_name: None,
        pid: Some(77),
        file_path: Some("/tmp/.x".into()),
        command: None,
        status: CardStatus::AutoKilled,
        auto_kill: true,
    }
}

#[test]
fn card_records_carry_variant_indices() {
    let r = card_record(&sample_card());
    assert_eq!((r.module, r.severity, r.status), (7, 3, 4));
    assert_eq!(r.id, 12);
    assert_eq!(r.file_path.as_deref(), Some("/tmp/.x"));
    let back = card_from_record(r).unwrap();
    assert_eq!(back.module, Module::Files);
    assert_eq!(back.severity, Severity::Red);
    assert_eq!(back.status, CardStatus::AutoKilled);
    assert_eq!(back.description, "hidden executable in /tmp: .x");
}

#[test]
fn a_record_with_an_unknown_index_is_refused() {
    let mut r = card_record(&sample_card());
    r.severity = 4;
    assert!(matches!(card_from_record(r), Err(StoreError::Decode)));
    let r = CardRecord {
        id: 1,
        timestamp: 0,
        module: 8,
        severity: 0,
        title: String::new(),
        description: String::new(),
        process_name: None,
        pid: None,
        file_path: None,
        command: None,
        status: 0,
        auto_kill: false,
    };
    assert!(matches!(card_from_record(r), Err(StoreError::Decode)));
    let p = PatternRecord { module: 0, pattern_type: 5, value: "v".into(), learned_at: 0, swipe_count: 1 };
    assert!(matches!(pattern_from_record(p), Err(StoreError::Decode)));
}

#[test]
fn pattern_records_carry_variant_indices() {
    let p = BaselinePattern {
        module: Module::Cron,
        pattern_type: PatternType::CronPattern,
        value: "/etc/cron.d/job".into(),
        learned_at: 3,
        swipe_count: 1,
    };
    let r = pattern_record(&p);
    assert_eq!((r.module, r.pattern_type), (6, 3));
    let back = pattern_from_record(r).unwrap();
    assert_eq!(back.pattern_type, PatternType::CronPattern);
    assert_eq!(back.value, "/etc/cron.d/job");
}

#[test]
fn encoded_cards_decode_back() {
    let c = sample_card();
    let bytes = c.encode().unwrap();
    let back = ThreatCard::decode(&bytes).unwrap();
    assert_eq!(back.id, c.id);
    assert_eq!(back.title, c.title);
    assert_eq!(back.pid, c.pid);
    assert_eq!(back.status, c.status);
    assert!(matches!(ThreatCard::decode(&[0u8, 1, 2]), Err(StoreError::Decompress)));
}

#[test]
fn stored_cards_keep_extreme_and_unicode_values() {
    let c = ThreatCard {
        id: u64::MAX,
        timestamp: u64::MAX,
        module: Module::Process,
        severity: Severity::Red,
        title: "hidden file: /tmp/.悪意のある".into(),
        description: "".into(),
        process_name: Some("".into()),
        pid: Some(u32::MAX),
        file_path: Some("/tmp/.悪意のある".into()),
        command: Some("".into()),
        status: CardStatus::Pending,
        auto_kill: true,
    };
    let back = ThreatCard::decode(&c.encode().unwrap()).unwrap();
    assert_eq!(back.id, u64::MAX);
    assert_eq!(back.timestamp, u64::MAX);
    assert_eq!(back.pid, Some(u32::MAX));
    assert_eq!(back.title, "hidden file: /tmp/.悪意のある");
    assert_eq!(back.description, "");
    assert_eq!(back.process_name.as_deref(), Some(""));
    assert_eq!(back.command.as_deref(), Some(""));
    let p = BaselinePattern {
        module: Module::Ssh,
        pattern_type: PatternType::SshKey,
        value: "".into(),
        learned_at: 0,
        swipe_count: 0,
    };
    let q = BaselinePattern::decode(&p.encode().unwrap()).unwrap();
    assert_eq!(q.value, "");
    assert_eq!(q.swipe_count, 0);
}

#[test]
fn a_huge_length_fails_to_decode_instead_of_allocating() {
    let mut raw = vec![0u8, 0, 0, 0, 0xFD];
    raw.extend_from_slice(&[0xFF; 8]);
    let bytes = zstd::encode_all(raw.as_slice(), 3).unwrap();
    assert!(matches!(ThreatCard::decode(&bytes), Err(StoreError::Decode)));
    assert!(matches!(BaselinePattern::decode(&bytes), Err(StoreError::Decode)));
}

#[test]
fn a_record_beyond_the_size_bound_is_not_encoded() {
    let mut c = sample_card();
    c.description = "x".repeat(aptnomo::codec::MAX_RECORD_BYTES);
    assert!(matches!(c.encode(), Err(StoreError::Encode)));
    // A large command line, well beyond what a process can have, still fits.
    let mut big = sample_card();
    big.description = "y".repeat(4 * 1024 * 1024);
    big.command = Some("z".repeat(4 * 1024 * 1024));
    let back = ThreatCard::decode(&big.encode().unwrap()).unwrap();
    assert_eq!(back.description.len(), 4 * 1024 * 1024);
    let mut db = sled::Config::new().temporary(true).open().unwrap();
    assert!(matches!(aptnomo::store::write_threat(&mut db, &c), Err(StoreError::Encode)));
    assert_eq!(aptnomo::store::count(&db, aptnomo::store::TREE_THREATS).unwrap(), 0);
    c.description = "x".repeat(1000);
    assert!(c.encode().is_ok());
}
