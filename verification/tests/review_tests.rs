use aptnomo::review::{
    apply_swipe, baseline_pattern_for, card_badge, card_details, cards_or_none, f93_baseline_learn,
    index_after_refresh, index_after_swipe, load_pending, module_icon, remove_card,
    refresh_cards, severity_colors, signal_target, swipe_signal, swipe_status, ProcessSignal,
    SwipeAction,
};
use aptnomo::store::{all_baselines, history_cards, pending_threats, write_threat};
use aptnomo::types::{CardStatus, Module, PatternType, Severity, ThreatCard};

fn card(id: u64, module: Module) -> ThreatCard {
    ThreatCard {
        id,
        timestamp: 1,
        module,
        severity: Severity::Orange,
        title: format!("title {}", id),
        description: format!("description {}", id),
        process_name: Some("nginx".into()),
        pid: Some(2041),
        file_path: Some("/etc/cron.d/job".into()),
        command: None,
        status: CardStatus::Pending,
        auto_kill: false,
    }
}

#[test]
fn swipes_resolve_to_statuses() {
    assert_eq!(swipe_status(SwipeAction::Baseline), CardStatus::Baselined);
    assert_eq!(swipe_status(SwipeAction::Kill), CardStatus::Killed);
    assert_eq!(swipe_status(SwipeAction::Quarantine), CardStatus::Quarantined);
}

#[test]
fn signals_spare_init() {
    let mut c = card(1, Module::Process);
    assert_eq!(signal_target(&c), Some(2041));
    c.pid = Some(2);
    assert_eq!(signal_target(&c), None);
    c.pid = None;
    assert_eq!(signal_target(&c), None);
}

#[test]
fn baseline_pattern_by_module() {
    let p = baseline_pattern_for(&card(1, Module::Process), 99);
    assert_eq!(p.pattern_type, PatternType::ProcessName);
    assert_eq!(p.value, "nginx");
    assert_eq!(p.learned_at, 99);
    assert_eq!(p.swipe_count, 1);
    let p = baseline_pattern_for(&card(2, Module::Network), 0);
    assert_eq!((p.pattern_type, p.value.as_str()), (PatternType::ListenPort, "title 2"));
    let p = baseline_pattern_for(&card(3, Module::Files), 0);
    assert_eq!((p.pattern_type, p.value.as_str()), (PatternType::FilePath, "/etc/cron.d/job"));
    let p = baseline_pattern_for(&card(4, Module::Cron), 0);
    assert_eq!((p.pattern_type, p.value.as_str()), (PatternType::CronPattern, "/etc/cron.d/job"));
    let p = baseline_pattern_for(&card(5, Module::Ssh), 0);
    assert_eq!((p.pattern_type, p.value.as_str()), (PatternType::SshKey, "description 5"));
    let p = baseline_pattern_for(&card(6, Module::Rootkit), 0);
    assert_eq!((p.pattern_type, p.value.as_str()), (PatternType::ProcessName, "title 6"));
    assert_eq!(p.module, Module::Rootkit);
    let mut c = card(7, Module::Process);
    c.process_name = None;
    assert_eq!(baseline_pattern_for(&c, 0).value, "");
}

#[test]
fn learning_a_baseline_stores_it() {
    let mut db = sled::Config::new().temporary(true).open().unwrap();
    f93_baseline_learn(&mut db, &card(1, Module::Network)).unwrap();
    f93_baseline_learn(&mut db, &card(1, Module::Network)).unwrap();
    let all = all_baselines(&db).unwrap();
    assert_eq!(all.len(), 1);
    assert_eq!(all[0].value, "title 1");
    assert_eq!(all[0].module, Module::Network);
}

#[test]
fn removing_a_card_keeps_the_others_in_order() {
    let mut cards = vec![card(1, Module::Ssh), card(2, Module::Cron), card(3, Module::Logs)];
    remove_card(&mut cards, 2);
    let ids: Vec<u64> = cards.iter().map(|c| c.id).collect();
    assert_eq!(ids, vec![1, 3]);
    remove_card(&mut cards, 9);
    assert_eq!(cards.len(), 2);
}

#[test]
fn index_resets() {
    assert_eq!(index_after_swipe(2, 2), 0);
    assert_eq!(index_after_swipe(1, 2), 1);
    assert_eq!(index_after_swipe(3, 0), 3);
    assert_eq!(index_after_refresh(3, 0), 0);
    assert_eq!(index_after_refresh(0, 4), 0);
    assert_eq!(index_after_refresh(2, 4), 2);
}

#[test]
fn colors_and_icons() {
    assert_eq!(severity_colors(&Severity::Green), ((0x50, 0xb4, 0x32), (0x2d, 0x5a, 0x2d)));
    assert_eq!(severity_colors(&Severity::Red), ((0xc8, 0x32, 0x32), (0x5a, 0x1a, 0x1a)));
    assert_eq!(module_icon(&Module::Network), "net");
    assert_eq!(module_icon(&Module::Rootkit), "rkit");
    assert_eq!(module_icon(&Module::Persistence), "persist");
}

#[test]
fn kill_swipe_resolves_and_drops_the_card() {
    let mut db = sled::Config::new().temporary(true).open().unwrap();
    let cards = vec![card(1, Module::Process), card(2, Module::Cron)];
    for c in &cards {
        write_threat(&mut db, c).unwrap();
    }
    let mut list = load_pending(&db);
    assert_eq!(list.len(), 2);
    let mut current = 1;
    let top = list[1].clone();
    let (resolved, learned) = apply_swipe(&mut db, &mut list, &mut current, &top, SwipeAction::Kill);
    assert!(resolved.is_ok());
    assert!(learned.is_none());
    assert_eq!(list.len(), 1);
    assert_eq!(list[0].id, 1);
    assert_eq!(current, 0);
    let history = history_cards(&db).unwrap();
    assert_eq!(history.len(), 1);
    assert_eq!(history[0].id, 2);
    assert_eq!(history[0].status, CardStatus::Killed);
    assert_eq!(pending_threats(&db).unwrap().len(), 1);
    assert!(all_baselines(&db).unwrap().is_empty());
}

#[test]
fn right_swipe_resolves_and_learns() {
    let mut db = sled::Config::new().temporary(true).open().unwrap();
    let c = card(5, Module::Network);
    write_threat(&mut db, &c).unwrap();
    let mut list = load_pending(&db);
    let mut current = 0;
    let (resolved, learned) = apply_swipe(&mut db, &mut list, &mut current, &c, SwipeAction::Baseline);
    assert!(resolved.is_ok());
    assert!(matches!(learned, Some(Ok(()))));
    assert!(list.is_empty());
    assert_eq!(current, 0);
    assert_eq!(history_cards(&db).unwrap()[0].status, CardStatus::Baselined);
    let learnt = all_baselines(&db).unwrap();
    assert_eq!(learnt.len(), 1);
    assert_eq!(learnt[0].value, "title 5");
}

#[test]
fn up_swipe_quarantines() {
    let mut db = sled::Config::new().temporary(true).open().unwrap();
    let c = card(9, Module::Process);
    write_threat(&mut db, &c).unwrap();
    let mut list = load_pending(&db);
    let mut current = 0;
    apply_swipe(&mut db, &mut list, &mut current, &c, SwipeAction::Quarantine).0.unwrap();
    assert_eq!(history_cards(&db).unwrap()[0].status, CardStatus::Quarantined);
    assert!(load_pending(&db).is_empty());
}

#[test]
fn swipe_signals() {
    let mut c = card(1, Module::Process);
    assert_eq!(swipe_signal(SwipeAction::Kill, &c), Some((2041, ProcessSignal::Kill)));
    assert_eq!(swipe_signal(SwipeAction::Quarantine, &c), Some((2041, ProcessSignal::Stop)));
    assert_eq!(swipe_signal(SwipeAction::Baseline, &c), None);
    c.pid = Some(1);
    assert_eq!(swipe_signal(SwipeAction::Kill, &c), None);
}

#[test]
fn card_text() {
    let mut c = card(1, Module::Process);
    assert_eq!(card_badge(&c), "proc ORANGE — processes");
    c.severity = Severity::Red;
    c.module = Module::Network;
    assert_eq!(card_badge(&c), "net RED — network");
    assert_eq!(card_details(&c), vec!["PID: 2041".to_string(), "Path: /etc/cron.d/job".to_string()]);
    c.pid = None;
    c.file_path = None;
    c.command = Some("nc -e /bin/sh".into());
    assert_eq!(card_details(&c), vec!["Cmd: nc -e /bin/sh".to_string()]);
}

#[test]
fn each_right_swipe_counts_once_more() {
    let mut db = sled::Config::new().temporary(true).open().unwrap();
    let c = card(1, Module::Network);
    f93_baseline_learn(&mut db, &c).unwrap();
    f93_baseline_learn(&mut db, &c).unwrap();
    f93_baseline_learn(&mut db, &c).unwrap();
    let all = all_baselines(&db).unwrap();
    assert_eq!(all.len(), 1);
    assert_eq!(all[0].swipe_count, 3);
}

#[test]
fn refresh_reloads_and_keeps_the_index_on_a_card() {
    let mut db = sled::Config::new().temporary(true).open().unwrap();
    write_threat(&mut db, &card(1, Module::Ssh)).unwrap();
    write_threat(&mut db, &card(2, Module::Cron)).unwrap();
    let mut cards = Vec::new();
    let mut current = 5;
    refresh_cards(&db, &mut cards, &mut current);
    assert_eq!(cards.len(), 2);
    assert_eq!(current, 0);
    current = 1;
    refresh_cards(&db, &mut cards, &mut current);
    assert_eq!(current, 1);
    assert_eq!(cards_or_none(Err(aptnomo::error::StoreError::Encode)).len(), 0);
}

#[test]
fn an_unreadable_stored_pattern_is_overwritten() {
    let mut db = sled::Config::new().temporary(true).open().unwrap();
    let c = card(4, Module::Network);
    db.open_tree("baseline").unwrap().insert("network:title 4".as_bytes(), vec![1u8, 2, 3]).unwrap();
    f93_baseline_learn(&mut db, &c).unwrap();
    let all = all_baselines(&db).unwrap();
    assert_eq!(all.len(), 1);
    assert_eq!(all[0].swipe_count, 1);
    assert_eq!(all[0].value, "title 4");
}
