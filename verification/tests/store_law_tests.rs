use aptnomo::error::StoreError;
use aptnomo::store::{
    count, f96_get, f97_put, next_threat_id, pending_threats, resolve_threat, scan_prefix,
    threat_key, write_threat, TREE_HISTORY, TREE_THREATS,
};
use aptnomo::types::{BaselinePattern, CardStatus, Module, PatternType, Severity, ThreatCard};

fn temp_db() -> sled::Db {
    sled::Config::new().temporary(true).open().unwrap()
}

fn card(id: u64, status: CardStatus) -> ThreatCard {
    ThreatCard {
        id,
        timestamp: 5,
        module: Module::Cron,
        severity: Severity::Yellow,
        title: "Ünïcode title".into(),
        description: "cron job with suspicious command: /etc/cron.d/x".into(),
        process_name: None,
        pid: None,
        file_path: Some("/etc/cron.d/x".into()),
        command: Some("".into()),
        status,
        auto_kill: false,
    }
}

#[test]
fn read_after_write_gives_back_every_field() {
    let mut db = temp_db();
    let c = card(77, CardStatus::Quarantined);
    write_threat(&mut db, &c).unwrap();
    let back: ThreatCard = f96_get(&db, TREE_THREATS, &threat_key(77)).unwrap().unwrap();
    assert_eq!(back.id, 77);
    assert_eq!(back.timestamp, 5);
    assert_eq!(back.module, Module::Cron);
    assert_eq!(back.severity, Severity::Yellow);
    assert_eq!(back.title, "Ünïcode title");
    assert_eq!(back.description, c.description);
    assert_eq!(back.process_name, None);
    assert_eq!(back.pid, None);
    assert_eq!(back.file_path.as_deref(), Some("/etc/cron.d/x"));
    assert_eq!(back.command.as_deref(), Some(""));
    assert_eq!(back.status, CardStatus::Quarantined);
    assert!(!back.auto_kill);
}

#[test]
fn stored_values_are_compressed() {
    let mut db = temp_db();
    write_threat(&mut db, &card(1, CardStatus::Pending)).unwrap();
    let raw = db.open_tree(TREE_THREATS).unwrap().get(threat_key(1).as_bytes()).unwrap().unwrap();
    // A zstd frame begins with its magic number.
    assert_eq!(&raw[..4], &[0x28, 0xb5, 0x2f, 0xfd]);
    assert!(zstd::decode_all(raw.as_ref()).is_ok());
}

#[test]
fn pending_cards_come_in_identifier_order() {
    let mut db = temp_db();
    for id in [30u64, 2, 1000, 7, 999] {
        write_threat(&mut db, &card(id, CardStatus::Pending)).unwrap();
    }
    let ids: Vec<u64> = pending_threats(&db).unwrap().iter().map(|c| c.id).collect();
    assert_eq!(ids, vec![2, 7, 30, 999, 1000]);
}

#[test]
fn scan_prefix_keys_are_text() {
    let mut db = temp_db();
    f97_put(&mut db, "t", "ключ:1", &card(1, CardStatus::Pending)).unwrap();
    let items: Vec<(String, ThreatCard)> = scan_prefix(&db, "t", "ключ").unwrap();
    assert_eq!(items.len(), 1);
    assert_eq!(items[0].0, "ключ:1");
}

#[test]
fn resolve_keeps_fields_and_moves_counts() {
    let mut db = temp_db();
    write_threat(&mut db, &card(3, CardStatus::Pending)).unwrap();
    write_threat(&mut db, &card(4, CardStatus::Pending)).unwrap();
    resolve_threat(&mut db, 3, CardStatus::Baselined).unwrap();
    assert_eq!(count(&db, TREE_THREATS).unwrap(), 1);
    assert_eq!(count(&db, TREE_HISTORY).unwrap(), 1);
    let h: ThreatCard = f96_get(&db, TREE_HISTORY, &threat_key(3)).unwrap().unwrap();
    assert_eq!(h.status, CardStatus::Baselined);
    assert_eq!(h.title, "Ünïcode title");
    // Resolving again finds nothing and changes nothing.
    resolve_threat(&mut db, 3, CardStatus::Killed).unwrap();
    let h: ThreatCard = f96_get(&db, TREE_HISTORY, &threat_key(3)).unwrap().unwrap();
    assert_eq!(h.status, CardStatus::Baselined);
    assert_eq!(count(&db, TREE_THREATS).unwrap(), 1);
}

#[test]
fn generated_identifiers_increase_by_one() {
    let mut db = temp_db();
    let a = next_threat_id(&mut db).unwrap();
    let b = next_threat_id(&mut db).unwrap();
    let c = next_threat_id(&mut db).unwrap();
    assert_eq!(b, a + 1);
    assert_eq!(c, b + 1);
}

#[test]
fn value_that_is_not_compressed_fails_to_decompress() {
    let db = temp_db();
    db.open_tree(TREE_THREATS).unwrap().insert(b"k", vec![1u8, 2, 3]).unwrap();
    let r = f96_get::<ThreatCard>(&db, TREE_THREATS, "k");
    assert!(matches!(r, Err(StoreError::Decompress)));
}

#[test]
fn value_that_is_not_a_card_fails_to_decode() {
    let db = temp_db();
    let junk = zstd::encode_all(&[0xffu8, 0xff][..], 3).unwrap();
    db.open_tree(TREE_THREATS).unwrap().insert(b"k", junk).unwrap();
    let r = f96_get::<ThreatCard>(&db, TREE_THREATS, "k");
    assert!(matches!(r, Err(StoreError::Decode)));
    assert!(matches!(pending_threats(&db), Err(StoreError::Decode)));
}

#[test]
fn unknown_variant_index_fails_to_decode() {
    let db = temp_db();
    // A pattern record whose module index names no module.
    let raw = bincode::serde::encode_to_vec((99u32, 0u32, "v", 0u64, 1u32), bincode::config::standard()).unwrap();
    let bytes = zstd::encode_all(raw.as_slice(), 3).unwrap();
    db.open_tree("baseline").unwrap().insert(b"k", bytes).unwrap();
    let r = f96_get::<BaselinePattern>(&db, "baseline", "k");
    assert!(matches!(r, Err(StoreError::Decode)));
    // The same record with a valid index decodes.
    let raw = bincode::serde::encode_to_vec((3u32, 4u32, "v", 0u64, 1u32), bincode::config::standard()).unwrap();
    let bytes = zstd::encode_all(raw.as_slice(), 3).unwrap();
    db.open_tree("baseline").unwrap().insert(b"k", bytes).unwrap();
    let p = f96_get::<BaselinePattern>(&db, "baseline", "k").unwrap().unwrap();
    assert_eq!(p.module, Module::Ssh);
    assert_eq!(p.pattern_type, PatternType::SshKey);
    assert_eq!(p.value, "v");
}

#[test]
fn keys_are_sixteen_digits_that_read_back() {
    for id in [0u64, 7, 1234, 9_999_999_999_999_999] {
        let k = threat_key(id);
        assert_eq!(k.len(), 16);
        assert!(k.bytes().all(|c| c.is_ascii_digit()));
        assert_eq!(k.parse::<u64>(), Ok(id));
    }
    assert!(threat_key(99) < threat_key(100));
    assert!(!(threat_key(100) < threat_key(99)));
}

#[test]
fn count_counts_the_keys() {
    let mut db = temp_db();
    write_threat(&mut db, &card(1, CardStatus::Pending)).unwrap();
    write_threat(&mut db, &card(2, CardStatus::Pending)).unwrap();
    write_threat(&mut db, &card(2, CardStatus::Pending)).unwrap();
    assert_eq!(count(&db, TREE_THREATS).unwrap(), 2);
    assert_eq!(count(&db, TREE_HISTORY).unwrap(), 0);
}
