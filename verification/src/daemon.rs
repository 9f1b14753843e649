//! The decisions of the daemon around each pass: what it reports, what it
//! kills, what it stores, and when it scans next.

use vstd::prelude::*;

use crate::db::{all_trees_unchanged, db_tree, id_step, next_generated_id, other_trees_unchanged};
use crate::error::StoreError;
use crate::scan::{Severity, Threat, ThreatView};
use crate::codec::Record;
use crate::db::is_prefix_scan;
use crate::store::{
    card_key, duplicate_scan, holds_at, is_duplicate, next_threat_id, resolve_outcome,
    resolve_threat, threats_tree, write_threat,
};
use crate::text::{
    chars_of, contains_str, decimal, decimal_chars, nul_to_space, push_all, push_str, replace_nul,
    seq_contains, seq_starts_with, string_of, trim, trim_chars,
};
use crate::types::{
    module_from_str, module_of_label, CardStatus, Module, ThreatCard, ThreatCardView,
};

verus! {

/// Seconds between passes while the machine is clean.
pub const SCAN_INTERVAL_SECS: u64 = 300;

/// Seconds between passes at start and after a pass that found threats.
pub const FAST_SCAN_SECS: u64 = 30;

/// The size in bytes beyond which a log file is moved aside (10 MB).
pub const LOG_MAX_BYTES: u64 = 10485760;

/// The seconds to wait after a pass: short after a pass with findings,
/// settling from the short interval to the normal one after a clean pass.
pub open spec fn next_interval_spec(found_threats: bool, interval: u64) -> u64 {
    if found_threats {
        FAST_SCAN_SECS
    } else if interval == FAST_SCAN_SECS {
        SCAN_INTERVAL_SECS
    } else {
        interval
    }
}

/// The seconds to wait after a pass.
pub fn next_interval(found_threats: bool, interval: u64) -> (res: u64)
    ensures
        res == next_interval_spec(found_threats, interval),
{
    let mut next = interval;
    if found_threats {
        next = FAST_SCAN_SECS;
    }
    if !found_threats && next == FAST_SCAN_SECS {
        next = SCAN_INTERVAL_SECS;
    }
    next
}

/// Starting from the short interval, the daemon only ever waits the short
/// or the normal interval, and a clean pass always leads to the normal one.
pub proof fn law_interval_settles(found: Seq<bool>)
    ensures
        ({
            let i = intervals(found);
            i == FAST_SCAN_SECS || i == SCAN_INTERVAL_SECS
        }),
        found.len() > 0 && !found.last() ==> intervals(found) == SCAN_INTERVAL_SECS,
        found.len() > 0 && found.last() ==> intervals(found) == FAST_SCAN_SECS,
    decreases found.len(),
{
    if found.len() > 0 {
        law_interval_settles(found.drop_last());
    }
}

/// The interval after a run of passes with the given outcomes, starting from
/// the short interval.
pub open spec fn intervals(found: Seq<bool>) -> u64
    decreases found.len(),
{
    if found.len() == 0 {
        FAST_SCAN_SECS
    } else {
        next_interval_spec(found.last(), intervals(found.drop_last()))
    }
}

/// The rank of a severity, lowest first.
pub open spec fn severity_rank(s: Severity) -> nat {
    match s {
        Severity::Info => 0,
        Severity::Low => 1,
        Severity::Medium => 2,
        Severity::High => 3,
        Severity::Critical => 4,
    }
}

/// A threat that the daemon kills without asking: flagged for it by its
/// detection rule, and critical.
pub open spec fn should_auto_kill_spec(t: ThreatView) -> bool {
    t.auto_kill && severity_rank(t.severity) >= severity_rank(Severity::Critical)
}

/// Whether the daemon kills this threat without asking.
pub fn should_auto_kill(t: &Threat) -> (res: bool)
    ensures
        res == should_auto_kill_spec(t@),
{
    t.auto_kill && match t.severity {
        Severity::Critical => true,
        _ => false,
    }
}

/// The programs whose processes are never killed: editors, shells, browsers
/// and the terminal multiplexer.
pub open spec fn user_programs() -> Seq<Seq<char>> {
    seq![
        "vim"@,
        "nano"@,
        "bash"@,
        "zsh"@,
        "fish"@,
        "code"@,
        "chrome"@,
        "firefox"@,
        "tmux"@,
    ]
}

/// Killing is safe when the threat names a process other than init and the
/// kernel's thread daemon (pid above 2) whose command line, where it could
/// be read, names no user program.
pub open spec fn safe_to_kill_spec(pid: Option<u32>, cmdline: Option<Seq<char>>) -> bool {
    match pid {
        None => false,
        Some(p) => p > 2 && match cmdline {
            None => true,
            Some(c) => forall|i: int|
                0 <= i < user_programs().len() ==> !seq_contains(c, #[trigger] user_programs()[i]),
        },
    }
}

/// The daemon kills only what its rules allow: a critical threat that its
/// rule marked for killing, naming a process above pid 2 whose command line,
/// where it could be read, names none of the user programs.
pub proof fn law_kill_is_safe(t: ThreatView, cmdline: Option<Seq<char>>)
    requires
        should_auto_kill_spec(t),
        safe_to_kill_spec(t.pid, cmdline),
    ensures
        t.auto_kill,
        t.severity == Severity::Critical,
        t.pid matches Some(p) && p > 2,
        cmdline matches Some(c) ==> !seq_contains(c, "vim"@) && !seq_contains(c, "nano"@)
            && !seq_contains(c, "bash"@) && !seq_contains(c, "zsh"@) && !seq_contains(c, "fish"@)
            && !seq_contains(c, "code"@) && !seq_contains(c, "chrome"@) && !seq_contains(
            c,
            "firefox"@,
        ) && !seq_contains(c, "tmux"@),
{
    if let Some(c) = cmdline {
        assert(user_programs()[0] == "vim"@);
        assert(user_programs()[1] == "nano"@);
        assert(user_programs()[2] == "bash"@);
        assert(user_programs()[3] == "zsh"@);
        assert(user_programs()[4] == "fish"@);
        assert(user_programs()[5] == "code"@);
        assert(user_programs()[6] == "chrome"@);
        assert(user_programs()[7] == "firefox"@);
        assert(user_programs()[8] == "tmux"@);
    }
}

/// Whether killing this threat is safe, given the command line of its
/// process where it could be read.
pub fn is_safe_to_kill(t: &Threat, cmdline: Option<&str>) -> (res: bool)
    ensures
        res == safe_to_kill_spec(
            t.pid,
            match cmdline {
                Some(c) => Some(c@),
                None => None,
            },
        ),
{
    match t.pid {
        None => false,
        Some(pid) => {
            if pid <= 2 {
                return false;
            }
            match cmdline {
                None => true,
                Some(c) => {
                    let text = chars_of(c);
                    let progs: [&str; 9] = [
                        "vim",
                        "nano",
                        "bash",
                        "zsh",
                        "fish",
                        "code",
                        "chrome",
                        "firefox",
                        "tmux",
                    ];
                    let ghost xs = user_programs();
                    assert(progs@.map_values(|s: &str| s@) =~= xs);
                    let mut k: usize = 0;
                    while k < 9
                        invariant
                            k <= 9,
                            xs == user_programs(),
                            t.pid == Some(pid),
                            pid > 2,
                            cmdline == Some(c),
                            progs@.map_values(|s: &str| s@) == xs,
                            text@ == c@,
                            forall|i: int| 0 <= i < k ==> !seq_contains(c@, #[trigger] xs[i]),
                        decreases 9 - k,
                    {
                        assert(progs@[k as int]@ == xs[k as int]);
                        if contains_str(text.as_slice(), progs[k]) {
                            assert(seq_contains(c@, user_programs()[k as int]));
                            return false;
                        }
                        k = k + 1;
                    }
                    true
                },
            }
        },
    }
}

/// The card severity of a threat severity: informational is green, low is
/// yellow, medium and high are orange, critical is red.
pub open spec fn card_severity_spec(s: Severity) -> crate::types::Severity {
    match s {
        Severity::Info => crate::types::Severity::Green,
        Severity::Low => crate::types::Severity::Yellow,
        Severity::Medium => crate::types::Severity::Orange,
        Severity::High => crate::types::Severity::Orange,
        Severity::Critical => crate::types::Severity::Red,
    }
}

/// The card severity of a threat severity.
pub fn card_severity(s: Severity) -> (res: crate::types::Severity)
    ensures
        res == card_severity_spec(s),
{
    match s {
        Severity::Info => crate::types::Severity::Green,
        Severity::Low => crate::types::Severity::Yellow,
        Severity::Medium => crate::types::Severity::Orange,
        Severity::High => crate::types::Severity::Orange,
        Severity::Critical => crate::types::Severity::Red,
    }
}

/// Whether a sequence holds a NUL character.
pub open spec fn has_nul(c: Seq<char>) -> bool {
    exists|i: int| 0 <= i < c.len() && c[i] == '\0'
}

/// The name of a process from its raw command line: the first argument
/// (up to the first NUL) without its directory (after its last `/`).
pub open spec fn process_name_of(c: Seq<char>) -> Seq<char>
    decreases c.len(),
{
    if c.len() == 0 {
        Seq::empty()
    } else {
        let init = c.drop_last();
        let r = process_name_of(init);
        if has_nul(init) || c.last() == '\0' {
            r
        } else if c.last() == '/' {
            Seq::empty()
        } else {
            r.push(c.last())
        }
    }
}

/// The command of a process from its raw command line: the arguments
/// separated by spaces, trimmed.
pub open spec fn command_of(c: Seq<char>) -> Seq<char> {
    trim(nul_to_space(c))
}

/// The name of a process from its raw command line.
pub fn process_name(cmdline: &[char]) -> (res: Vec<char>)
    ensures
        res@ == process_name_of(cmdline@),
{
    let mut name: Vec<char> = Vec::new();
    let mut seen_nul = false;
    let mut i: usize = 0;
    while i < cmdline.len()
        invariant
            i <= cmdline@.len(),
            name@ == process_name_of(cmdline@.subrange(0, i as int)),
            seen_nul == has_nul(cmdline@.subrange(0, i as int)),
        decreases cmdline@.len() - i,
    {
        let ghost pre = cmdline@.subrange(0, i as int);
        let ghost next = cmdline@.subrange(0, i + 1);
        assert(next.drop_last() =~= pre);
        assert(next.last() == cmdline@[i as int]);
        let ch = cmdline[i];
        if seen_nul || ch == '\0' {
        } else if ch == '/' {
            name = Vec::new();
        } else {
            name.push(ch);
        }
        if ch == '\0' {
            assert(next[i as int] == '\0');
            seen_nul = true;
        } else if !seen_nul {
            assert forall|j: int| 0 <= j < next.len() implies next[j] != '\0' by {
                if j < i {
                    assert(next[j] == pre[j]);
                }
            }
        } else {
            proof {
                let k = choose|k: int| 0 <= k < pre.len() && pre[k] == '\0';
                assert(next[k] == pre[k]);
            }
        }
        i = i + 1;
    }
    assert(cmdline@.subrange(0, cmdline@.len() as int) =~= cmdline@);
    name
}

/// The pending card of a threat, with the given identifier and time: title
/// and description are the threat's description, the module is the one its
/// label names, and where the threat names a process whose command line was
/// read, the process name and command come from that command line.
pub open spec fn card_of_threat(
    t: ThreatView,
    id: u64,
    now: u64,
    cmdline: Option<Seq<char>>,
) -> ThreatCardView {
    ThreatCardView {
        id,
        timestamp: now,
        module: module_of_label(t.module),
        severity: card_severity_spec(t.severity),
        title: t.description,
        description: t.description,
        process_name: match (t.pid, cmdline) {
            (Some(_), Some(c)) => Some(process_name_of(c)),
            _ => None,
        },
        pid: t.pid,
        file_path: t.path,
        command: match (t.pid, cmdline) {
            (Some(_), Some(c)) => Some(command_of(c)),
            _ => None,
        },
        status: CardStatus::Pending,
        auto_kill: t.auto_kill,
    }
}

/// The characters of an optional string slice.
pub open spec fn opt_str(o: Option<&str>) -> Option<Seq<char>> {
    match o {
        Some(c) => Some(c@),
        None => None,
    }
}

/// The pending card of a threat, given the command line of its process
/// where it could be read.
pub fn card_for_threat(t: &Threat, id: u64, now: u64, cmdline: Option<&str>) -> (res: ThreatCard)
    ensures
        res@ == card_of_threat(t@, id, now, opt_str(cmdline)),
{
    let (process_name, command) = match (t.pid, cmdline) {
        (Some(_), Some(c)) => {
            let raw = chars_of(c);
            let name = process_name(raw.as_slice());
            let spaced = replace_nul(raw.as_slice());
            let cmd = trim_chars(spaced.as_slice());
            (Some(string_of(name.as_slice())), Some(string_of(cmd.as_slice())))
        },
        _ => (None, None),
    };
    ThreatCard {
        id,
        timestamp: now,
        module: module_from_str(t.module),
        severity: card_severity(t.severity),
        title: t.description.clone(),
        description: t.description.clone(),
        process_name,
        pid: t.pid,
        file_path: match &t.path {
            Some(p) => Some(p.clone()),
            None => None,
        },
        command,
        status: CardStatus::Pending,
        auto_kill: t.auto_kill,
    }
}

/// A point in time of the system clock.
#[verifier::external_type_specification]
#[verifier::external_body]
pub struct ExSystemTime(std::time::SystemTime);

/// The error of a time before the epoch.
#[verifier::external_type_specification]
#[verifier::external_body]
pub struct ExSystemTimeError(std::time::SystemTimeError);

/// The current time of the system clock.
///
/// Calls `SystemTime::now`. Nothing is claimed of the result: it is the
/// clock's.
#[verifier::external_body]
fn system_now() -> std::time::SystemTime {
    std::time::SystemTime::now()
}

/// The time elapsed from the Unix epoch to `t`.
///
/// Calls `SystemTime::duration_since` with `UNIX_EPOCH`. Nothing is claimed of
/// the result: `t` is opaque here.
#[verifier::external_body]
fn since_epoch(t: std::time::SystemTime) -> Result<std::time::Duration, std::time::SystemTimeError> {
    t.duration_since(std::time::UNIX_EPOCH)
}

/// The whole seconds of a duration.
///
/// Calls `Duration::as_secs`. Nothing is claimed of the result: the duration
/// is opaque here.
#[verifier::external_body]
fn whole_secs(d: &std::time::Duration) -> u64 {
    d.as_secs()
}

/// The seconds of a clock reading since the epoch: the whole seconds where
/// the clock is at or after the epoch, zero where it is before.
pub fn secs_or_zero(since: Option<u64>) -> (res: u64)
    ensures
        res == (match since {
            Some(s) => s,
            None => 0,
        }),
{
    match since {
        Some(s) => s,
        None => 0,
    }
}

/// The current time in whole seconds since the Unix epoch, zero if the clock
/// is before the epoch.
pub(crate) fn unix_time_secs() -> u64 {
    let since = match since_epoch(system_now()) {
        Ok(d) => Some(whole_secs(&d)),
        Err(_) => None,
    };
    secs_or_zero(since)
}

/// Convert a threat to a card for storage: a fresh identifier from the
/// database, the current time, and the process fields from the command
/// line of the threat's process where it could be read.
pub fn threat_to_card(db: &mut sled::Db, t: &Threat, cmdline: Option<&str>) -> (res: Result<
    ThreatCard,
    StoreError,
>)
    ensures
        all_trees_unchanged(*old(db), *final(db)),
        next_generated_id(*final(db)) == id_step(next_generated_id(*old(db))),
        res matches Ok(c) ==> c@ == card_of_threat(
            t@,
            next_generated_id(*old(db)),
            c.timestamp,
            opt_str(cmdline),
        ),
        res matches Err(e) ==> e is Db,
{
    let id = match next_threat_id(db) {
        Ok(id) => id,
        Err(e) => return Err(e),
    };
    let now = unix_time_secs();
    Ok(card_for_threat(t, id, now, cmdline))
}

/// Whether a full scan of the threats tree of `db` finds (`b`) a pending
/// card of module `m` with description `d`.
pub open spec fn duplicate_found(db: sled::Db, m: Module, d: Seq<char>, b: bool) -> bool {
    exists|es: Seq<(Seq<u8>, Seq<u8>)>|
        is_prefix_scan(es, db_tree(db, threats_tree()), Seq::empty()) && #[trigger] duplicate_scan(
            es,
            m,
            d,
        ) == Some(b)
}

/// Store the card of a threat unless a pending card of the same module and
/// description is already stored: a fresh identifier, the current time and
/// the process fields from the command line, written into the threats tree
/// under its key. Returns the card written, or `None` for a duplicate.
pub fn store_threat(db: &mut sled::Db, t: &Threat, cmdline: Option<&str>) -> (res: Result<
    Option<ThreatCard>,
    StoreError,
>)
    ensures
        res matches Ok(None) ==> duplicate_found(*old(db), module_of_label(t.module@), t.description@, true)
            && all_trees_unchanged(*old(db), *final(db))
            && next_generated_id(*final(db)) == next_generated_id(*old(db)),
        res matches Ok(Some(c)) ==> duplicate_found(
            *old(db),
            module_of_label(t.module@),
            t.description@,
            false,
        ) && c@ == card_of_threat(
            t@,
            next_generated_id(*old(db)),
            c.timestamp,
            opt_str(cmdline),
        ) && next_generated_id(*final(db)) == id_step(next_generated_id(*old(db)))
            && other_trees_unchanged(*old(db), *final(db), threats_tree()) && holds_at::<ThreatCard>(
            db_tree(*old(db), threats_tree()),
            db_tree(*final(db), threats_tree()),
            card_key(c.id),
            c@,
        ),
        res matches Err(e) ==> other_trees_unchanged(*old(db), *final(db), threats_tree()) && (e is Db
            || (e is Encode && all_trees_unchanged(*old(db), *final(db)) && exists|now: u64|
            !<ThreatCard as Record>::fits(
                #[trigger] card_of_threat(
                    t@,
                    next_generated_id(*old(db)),
                    now,
                    opt_str(cmdline),
                ),
            )) || ((e is Decompress || e is Decode) && all_trees_unchanged(*old(db), *final(db))
            && exists|es: Seq<(Seq<u8>, Seq<u8>)>|
            is_prefix_scan(es, db_tree(*old(db), threats_tree()), Seq::empty())
                && #[trigger] duplicate_scan(es, module_of_label(t.module@), t.description@)
                is None)),
{
    let module = module_from_str(t.module);
    let dup = match is_duplicate(db, &module, t.description.as_str()) {
        Ok(b) => b,
        Err(e) => return Err(e),
    };
    if dup {
        return Ok(None);
    }
    let card = match threat_to_card(db, t, cmdline) {
        Ok(c) => c,
        Err(e) => return Err(e),
    };
    match write_threat(db, &card) {
        Ok(()) => Ok(Some(card)),
        Err(e) => Err(e),
    }
}

/// Mark the stored card of an auto-killed threat: resolve it as
/// auto-killed, moving it from the threats tree to the history tree.
pub fn record_auto_kill(db: &mut sled::Db, card: &ThreatCard) -> (res: Result<(), StoreError>)
    ensures
        resolve_outcome(*old(db), *final(db), card.id, CardStatus::AutoKilled, res),
{
    resolve_threat(db, card.id, CardStatus::AutoKilled)
}

/// The current time as decimal seconds, the timestamp of log lines.
pub fn chrono_now() -> (res: String)
    ensures
        exists|secs: u64| res@ == decimal(secs as nat),
{
    let secs = unix_time_secs();
    let d = decimal_chars(secs);
    string_of(d.as_slice())
}

/// The name that `Debug` gives a severity.
pub open spec fn severity_name(s: Severity) -> Seq<char> {
    match s {
        Severity::Info => "Info"@,
        Severity::Low => "Low"@,
        Severity::Medium => "Medium"@,
        Severity::High => "High"@,
        Severity::Critical => "Critical"@,
    }
}

fn severity_name_str(s: Severity) -> (res: &'static str)
    ensures
        res@ == severity_name(s),
{
    match s {
        Severity::Info => "Info",
        Severity::Low => "Low",
        Severity::Medium => "Medium",
        Severity::High => "High",
        Severity::Critical => "Critical",
    }
}

/// The report line of a threat:
/// `[aptnomo] SEVERITY | module | description[ [AUTO-KILL]] | pid:PID path:PATH`,
/// with `-` for a missing pid or path.
pub open spec fn report_line_spec(t: ThreatView) -> Seq<char> {
    "[aptnomo] "@ + severity_name(t.severity) + " | "@ + t.module + " | "@ + t.description + (
    if t.auto_kill {
        " [AUTO-KILL]"@
    } else {
        Seq::empty()
    }) + " | pid:"@ + match t.pid {
        Some(p) => decimal(p as nat),
        None => "-"@,
    } + " path:"@ + match t.path {
        Some(p) => p,
        None => "-"@,
    }
}

/// The report line of a threat.
pub fn report_line(t: &Threat) -> (res: String)
    ensures
        res@ == report_line_spec(t@),
{
    let mut v = chars_of("[aptnomo] ");
    push_str(&mut v, severity_name_str(t.severity));
    push_str(&mut v, " | ");
    push_str(&mut v, t.module);
    push_str(&mut v, " | ");
    push_str(&mut v, t.description.as_str());
    if t.auto_kill {
        push_str(&mut v, " [AUTO-KILL]");
    }
    push_str(&mut v, " | pid:");
    match t.pid {
        Some(p) => {
            let d = decimal_chars(p as u64);
            push_all(&mut v, d.as_slice());
        },
        None => push_str(&mut v, "-"),
    }
    push_str(&mut v, " path:");
    match &t.path {
        Some(p) => push_str(&mut v, p.as_str()),
        None => push_str(&mut v, "-"),
    }
    let res = string_of(v.as_slice());
    proof {
        reveal_strlit("");
    }
    assert(res@ =~= report_line_spec(t@));
    res
}

/// A line of a log file: the timestamp, a space, the message.
pub fn log_entry(now: &str, msg: &str) -> (res: String)
    ensures
        res@ == now@ + " "@ + msg@,
{
    let mut v = chars_of(now);
    push_str(&mut v, " ");
    push_str(&mut v, msg);
    string_of(v.as_slice())
}

/// The line of the kill log: `TIME KILLED pid=PID reason=DESCRIPTION`.
pub fn kill_entry(now: &str, pid: u32, reason: &str) -> (res: String)
    ensures
        res@ == now@ + " KILLED pid="@ + decimal(pid as nat) + " reason="@ + reason@,
{
    let mut v = chars_of(now);
    push_str(&mut v, " KILLED pid=");
    let d = decimal_chars(pid as u64);
    push_all(&mut v, d.as_slice());
    push_str(&mut v, " reason=");
    push_str(&mut v, reason);
    string_of(v.as_slice())
}

/// The notice printed before a kill: `[aptnomo] KILLING pid PID — DESCRIPTION`.
pub fn kill_notice(pid: u32, reason: &str) -> (res: String)
    ensures
        res@ == "[aptnomo] KILLING pid "@ + decimal(pid as nat) + " — "@ + reason@,
{
    let mut v = chars_of("[aptnomo] KILLING pid ");
    let d = decimal_chars(pid as u64);
    push_all(&mut v, d.as_slice());
    push_str(&mut v, " — ");
    push_str(&mut v, reason);
    string_of(v.as_slice())
}

/// The file a log is moved to when it grows too large: its path with `.old`
/// appended.
pub fn rotated_path(path: &str) -> (res: String)
    ensures
        res@ == path@ + ".old"@,
{
    let mut v = chars_of(path);
    push_str(&mut v, ".old");
    string_of(v.as_slice())
}

/// A log is rotated once it is larger than the limit.
pub fn needs_rotation(len: u64, max_bytes: u64) -> (res: bool)
    ensures
        res == (len > max_bytes),
{
    len > max_bytes
}

/// The kill-safety rule lets a kill through whenever nothing forbids it: a
/// process above pid 2 whose command line, where it was read, names none of
/// vim, nano, bash, zsh, fish, code, chrome, firefox and tmux is safe to
/// kill.
pub proof fn law_kill_allowed_unless_forbidden(p: u32, cmdline: Option<Seq<char>>)
    requires
        p > 2,
        cmdline matches Some(c) ==> !seq_contains(c, "vim"@) && !seq_contains(c, "nano"@)
            && !seq_contains(c, "bash"@) && !seq_contains(c, "zsh"@) && !seq_contains(c, "fish"@)
            && !seq_contains(c, "code"@) && !seq_contains(c, "chrome"@) && !seq_contains(
            c,
            "firefox"@,
        ) && !seq_contains(c, "tmux"@),
    ensures
        safe_to_kill_spec(Some(p), cmdline),
{
    if let Some(c) = cmdline {
        let u = user_programs();
        assert(u.len() == 9);
        assert(u[0] == "vim"@);
        assert(u[1] == "nano"@);
        assert(u[2] == "bash"@);
        assert(u[3] == "zsh"@);
        assert(u[4] == "fish"@);
        assert(u[5] == "code"@);
        assert(u[6] == "chrome"@);
        assert(u[7] == "firefox"@);
        assert(u[8] == "tmux"@);
        assert forall|i: int| 0 <= i < u.len() implies !seq_contains(c, #[trigger] u[i]) by {
            if i == 0 {
            } else if i == 1 {
            } else if i == 2 {
            } else if i == 3 {
            } else if i == 4 {
            } else if i == 5 {
            } else if i == 6 {
            } else if i == 7 {
            } else {
            }
        }
    }
}

/// A report line opens with `[aptnomo] `, the name of the threat's severity
/// (Info, Low, Medium, High or Critical) and ` | `.
pub proof fn law_report_names_the_severity(t: ThreatView)
    ensures
        t.severity == Severity::Info ==> seq_starts_with(
            report_line_spec(t),
            "[aptnomo] "@ + "Info"@ + " | "@,
        ),
        t.severity == Severity::Low ==> seq_starts_with(
            report_line_spec(t),
            "[aptnomo] "@ + "Low"@ + " | "@,
        ),
        t.severity == Severity::Medium ==> seq_starts_with(
            report_line_spec(t),
            "[aptnomo] "@ + "Medium"@ + " | "@,
        ),
        t.severity == Severity::High ==> seq_starts_with(
            report_line_spec(t),
            "[aptnomo] "@ + "High"@ + " | "@,
        ),
        t.severity == Severity::Critical ==> seq_starts_with(
            report_line_spec(t),
            "[aptnomo] "@ + "Critical"@ + " | "@,
        ),
{
    let h = report_line_spec(t);
    let p = "[aptnomo] "@ + severity_name(t.severity) + " | "@;
    assert(h.subrange(0, p.len() as int) =~= p);
}

} // verus!
