//! The detection rules of the daemon.
//!
//! The daemon reads the machine (unit files, `/proc`, logs, cron tables,
//! temporary directories) and hands what it read to the functions here,
//! which decide what is a threat.

use vstd::prelude::*;

use crate::text::{
    char_vecs, chars_of, contains_str, decimal, decimal_chars, eq_str, lines, lines_of, lowercase,
    nul_to_space, parse_hex, parse_hex_u16, push_all, push_str, replace_nul, seq_contains,
    seq_starts_with, starts_with, string_of, tail_from, to_lowercase, trim, trim_chars, words,
    words_of,
};

verus! {

/// Threat severity of the detection modules.
#[derive(Debug, Clone, Copy, PartialEq, Eq, PartialOrd, Ord, Structural)]
pub enum Severity {
    Info,
    Low,
    Medium,
    High,
    Critical,
}

/// A detected threat.
#[derive(Debug, Clone)]
pub struct Threat {
    pub module: &'static str,
    pub severity: Severity,
    pub description: String,
    pub pid: Option<u32>,
    pub path: Option<String>,
    /// Whether the threat may be terminated without asking.
    pub auto_kill: bool,
}

/// The abstract value of a threat.
pub ghost struct ThreatView {
    pub module: Seq<char>,
    pub severity: Severity,
    pub description: Seq<char>,
    pub pid: Option<u32>,
    pub path: Option<Seq<char>>,
    pub auto_kill: bool,
}

impl View for Threat {
    type V = ThreatView;

    open spec fn view(&self) -> ThreatView {
        ThreatView {
            module: self.module@,
            severity: self.severity,
            description: self.description@,
            pid: self.pid,
            path: match self.path {
                Some(p) => Some(p@),
                None => None,
            },
            auto_kill: self.auto_kill,
        }
    }
}

/// The views of a sequence of threats.
pub open spec fn threat_views(ts: Seq<Threat>) -> Seq<ThreatView> {
    ts.map_values(|t: Threat| t@)
}

/// The findings of `f` on each item of `xs`, in order.
pub open spec fn concat_map<A>(xs: Seq<A>, f: spec_fn(A) -> Seq<ThreatView>) -> Seq<ThreatView>
    decreases xs.len(),
{
    if xs.len() == 0 {
        Seq::empty()
    } else {
        concat_map(xs.drop_last(), f) + f(xs.last())
    }
}

proof fn lemma_concat_map_step<A>(xs: Seq<A>, f: spec_fn(A) -> Seq<ThreatView>, i: int)
    requires
        0 <= i < xs.len(),
    ensures
        concat_map(xs.subrange(0, i + 1), f) == concat_map(xs.subrange(0, i), f) + f(xs[i]),
{
    assert(xs.subrange(0, i + 1).drop_last() =~= xs.subrange(0, i));
}

/// A threat with the given fields.
pub open spec fn threat(
    module: Seq<char>,
    severity: Severity,
    description: Seq<char>,
    pid: Option<u32>,
    path: Option<Seq<char>>,
    auto_kill: bool,
) -> ThreatView {
    ThreatView { module, severity, description, pid, path, auto_kill }
}

/// The characters of each pair of strings.
pub open spec fn text_pairs(v: Seq<(String, String)>) -> Seq<(Seq<char>, Seq<char>)> {
    v.map_values(|p: (String, String)| (p.0@, p.1@))
}

/// The command of an `ExecStart=` line of a unit (leading and trailing white
/// space ignored), or nothing for any other line.
pub open spec fn exec_start_value(line: Seq<char>) -> Option<Seq<char>> {
    let l = trim(line);
    if seq_starts_with(l, "ExecStart="@) {
        Some(l.subrange(10, l.len() as int))
    } else {
        None
    }
}

/// A unit line whose `ExecStart=` command names `/tmp/` or a hidden
/// directory.
pub open spec fn suspicious_exec_line(line: Seq<char>) -> bool {
    match exec_start_value(line) {
        Some(v) => seq_contains(v, "/tmp/"@) || seq_contains(v, "/."@),
        None => false,
    }
}

/// A unit text with a suspicious `ExecStart=` line.
pub open spec fn unit_suspicious(text: Seq<char>) -> bool {
    exists|i: int| 0 <= i < lines(text).len() && suspicious_exec_line(#[trigger] lines(text)[i])
}

/// Whether a unit text has an `ExecStart=` line whose command names `/tmp/`
/// or a hidden directory.
pub fn unit_has_suspicious_exec(text: &[char]) -> (res: bool)
    ensures
        res == unit_suspicious(text@),
{
    let ls = lines_of(text);
    let ghost xs = lines(text@);
    let prefix = chars_of("ExecStart=");
    proof {
        reveal_strlit("ExecStart=");
    }
    let mut i: usize = 0;
    while i < ls.len()
        invariant
            i <= ls@.len(),
            char_vecs(ls@) == xs,
            prefix@ == "ExecStart="@,
            prefix@.len() == 10,
            xs == lines(text@),
            forall|j: int| 0 <= j < i ==> !suspicious_exec_line(#[trigger] xs[j]),
        decreases ls@.len() - i,
    {
        assert(ls@[i as int]@ == xs[i as int]);
        let t = trim_chars(ls[i].as_slice());
        if starts_with(t.as_slice(), prefix.as_slice()) {
            let v = tail_from(t.as_slice(), 10);
            if contains_str(v.as_slice(), "/tmp/") || contains_str(v.as_slice(), "/.") {
                assert(suspicious_exec_line(lines(text@)[i as int]));
                return true;
            }
        }
        assert(!suspicious_exec_line(xs[i as int]));
        i = i + 1;
    }
    assert forall|j: int| 0 <= j < lines(text@).len() implies !suspicious_exec_line(
        #[trigger] lines(text@)[j],
    ) by {
        assert(xs[j] == lines(text@)[j]);
    }
    false
}

/// What the persistence rule makes of one unit file (its path, its text):
/// a unit with an `ExecStart=` command that names `/tmp/` or a hidden
/// directory.
pub open spec fn unit_finding(u: (Seq<char>, Seq<char>)) -> Seq<ThreatView> {
    if unit_suspicious(u.1) {
        seq![
            threat(
                "persistence"@,
                Severity::High,
                "systemd unit with suspicious ExecStart: "@ + u.0,
                None,
                Some(u.0),
                false,
            ),
        ]
    } else {
        Seq::empty()
    }
}

/// f10: suspicious systemd units, given each readable unit file as its
/// displayed path and its text.
pub fn f10_persistence(units: &[(String, String)]) -> (res: Vec<Threat>)
    ensures
        threat_views(res@) == concat_map(text_pairs(units@), |u| unit_finding(u)),
{
    let ghost xs = text_pairs(units@);
    let mut out: Vec<Threat> = Vec::new();
    let mut i: usize = 0;
    while i < units.len()
        invariant
            i <= units@.len(),
            xs == text_pairs(units@),
            threat_views(out@) == concat_map(xs.subrange(0, i as int), |u| unit_finding(u)),
        decreases units@.len() - i,
    {
        proof {
            lemma_concat_map_step(xs, |u| unit_finding(u), i as int);
        }
        let content = chars_of(units[i].1.as_str());
        if unit_has_suspicious_exec(content.as_slice()) {
            let mut d = chars_of("systemd unit with suspicious ExecStart: ");
            push_str(&mut d, units[i].0.as_str());
            out.push(
                Threat {
                    module: "persistence",
                    severity: Severity::High,
                    description: string_of(d.as_slice()),
                    pid: None,
                    path: Some(units[i].0.clone()),
                    auto_kill: false,
                },
            );
        }
        assert(threat_views(out@) =~= concat_map(xs.subrange(0, i as int), |u| unit_finding(u))
            + unit_finding(xs[i as int]));
        i = i + 1;
    }
    assert(xs.subrange(0, units@.len() as int) =~= xs);
    out
}


/// What the cron rule makes of one cron file (its path, its text): a job
/// that names `/tmp/`, `curl ` or `wget `.
pub open spec fn cron_finding(u: (Seq<char>, Seq<char>)) -> Seq<ThreatView> {
    if seq_contains(u.1, "/tmp/"@) || seq_contains(u.1, "curl "@) || seq_contains(u.1, "wget "@) {
        seq![
            threat(
                "cron"@,
                Severity::High,
                "cron job with suspicious command: "@ + u.0,
                None,
                Some(u.0),
                false,
            ),
        ]
    } else {
        Seq::empty()
    }
}

/// f70: suspicious cron jobs, given each readable cron file as its displayed
/// path and its text.
pub fn f70_cron(files: &[(String, String)]) -> (res: Vec<Threat>)
    ensures
        threat_views(res@) == concat_map(text_pairs(files@), |u| cron_finding(u)),
{
    let ghost xs = text_pairs(files@);
    let mut out: Vec<Threat> = Vec::new();
    let mut i: usize = 0;
    while i < files.len()
        invariant
            i <= files@.len(),
            xs == text_pairs(files@),
            threat_views(out@) == concat_map(xs.subrange(0, i as int), |u| cron_finding(u)),
        decreases files@.len() - i,
    {
        proof {
            lemma_concat_map_step(xs, |u| cron_finding(u), i as int);
        }
        let content = chars_of(files[i].1.as_str());
        if contains_str(content.as_slice(), "/tmp/") || contains_str(content.as_slice(), "curl ")
            || contains_str(content.as_slice(), "wget ") {
            let mut d = chars_of("cron job with suspicious command: ");
            push_str(&mut d, files[i].0.as_str());
            out.push(
                Threat {
                    module: "cron",
                    severity: Severity::High,
                    description: string_of(d.as_slice()),
                    pid: None,
                    path: Some(files[i].0.clone()),
                    auto_kill: false,
                },
            );
        }
        assert(threat_views(out@) =~= concat_map(xs.subrange(0, i as int), |u| cron_finding(u))
            + cron_finding(xs[i as int]));
        i = i + 1;
    }
    assert(xs.subrange(0, files@.len() as int) =~= xs);
    out
}

/// The characters of each log path with its size.
pub open spec fn log_views(v: Seq<(String, u64)>) -> Seq<(Seq<char>, u64)> {
    v.map_values(|p: (String, u64)| (p.0@, p.1))
}

/// What the log rule makes of one log file (its path, its size): an empty
/// log, which may have been wiped.
pub open spec fn log_finding(l: (Seq<char>, u64)) -> Seq<ThreatView> {
    if l.1 == 0 {
        seq![
            threat(
                "logs"@,
                Severity::High,
                "log file is empty (possible wipe): "@ + l.0,
                None,
                Some(l.0),
                false,
            ),
        ]
    } else {
        Seq::empty()
    }
}

/// f60: log tampering, given each log file whose size could be read.
pub fn f60_logs(logs: &[(String, u64)]) -> (res: Vec<Threat>)
    ensures
        threat_views(res@) == concat_map(log_views(logs@), |l| log_finding(l)),
{
    let ghost xs = log_views(logs@);
    let mut out: Vec<Threat> = Vec::new();
    let mut i: usize = 0;
    while i < logs.len()
        invariant
            i <= logs@.len(),
            xs == log_views(logs@),
            threat_views(out@) == concat_map(xs.subrange(0, i as int), |l| log_finding(l)),
        decreases logs@.len() - i,
    {
        proof {
            lemma_concat_map_step(xs, |l| log_finding(l), i as int);
        }
        if logs[i].1 == 0 {
            let mut d = chars_of("log file is empty (possible wipe): ");
            push_str(&mut d, logs[i].0.as_str());
            out.push(
                Threat {
                    module: "logs",
                    severity: Severity::High,
                    description: string_of(d.as_slice()),
                    pid: None,
                    path: Some(logs[i].0.clone()),
                    auto_kill: false,
                },
            );
        }
        assert(threat_views(out@) =~= concat_map(xs.subrange(0, i as int), |l| log_finding(l))
            + log_finding(xs[i as int]));
        i = i + 1;
    }
    assert(xs.subrange(0, logs@.len() as int) =~= xs);
    out
}

/// An entry of a temporary directory, as the files rule reads it.
pub struct TempEntry {
    /// The directory the entry is in.
    pub dir: String,
    /// The entry's file name.
    pub name: String,
    /// The entry's displayed path.
    pub path: String,
    pub is_file: bool,
    /// The size in bytes.
    pub len: u64,
    /// The permission bits.
    pub mode: u32,
}

/// The abstract value of a temporary directory entry.
pub ghost struct TempEntryView {
    pub dir: Seq<char>,
    pub name: Seq<char>,
    pub path: Seq<char>,
    pub is_file: bool,
    pub len: u64,
    pub mode: u32,
}

impl View for TempEntry {
    type V = TempEntryView;

    open spec fn view(&self) -> TempEntryView {
        TempEntryView {
            dir: self.dir@,
            name: self.name@,
            path: self.path@,
            is_file: self.is_file,
            len: self.len,
            mode: self.mode,
        }
    }
}

/// The views of a sequence of temporary directory entries.
pub open spec fn entry_views(v: Seq<TempEntry>) -> Seq<TempEntryView> {
    v.map_values(|e: TempEntry| e@)
}

/// What the files rule makes of one entry: a hidden regular file of more
/// than 10000 bytes with an execute bit set.
pub open spec fn file_finding(e: TempEntryView) -> Seq<ThreatView> {
    if e.name.len() > 0 && e.name[0] == '.' && e.is_file && e.len > 10000 && e.mode & 0o111u32
        != 0 {
        seq![
            threat(
                "files"@,
                Severity::Critical,
                "hidden executable in "@ + e.dir + ": "@ + e.name,
                None,
                Some(e.path),
                false,
            ),
        ]
    } else {
        Seq::empty()
    }
}

/// f80: hidden executables in temporary directories, given each entry whose
/// metadata could be read.
pub fn f80_files(entries: &[TempEntry]) -> (res: Vec<Threat>)
    ensures
        threat_views(res@) == concat_map(entry_views(entries@), |e| file_finding(e)),
{
    let ghost xs = entry_views(entries@);
    let mut out: Vec<Threat> = Vec::new();
    let mut i: usize = 0;
    while i < entries.len()
        invariant
            i <= entries@.len(),
            xs == entry_views(entries@),
            threat_views(out@) == concat_map(xs.subrange(0, i as int), |e| file_finding(e)),
        decreases entries@.len() - i,
    {
        proof {
            lemma_concat_map_step(xs, |e| file_finding(e), i as int);
        }
        let e = &entries[i];
        let name = chars_of(e.name.as_str());
        if name.len() > 0 && name[0] == '.' && e.is_file && e.len > 10000 && e.mode & 0o111u32
            != 0 {
            let mut d = chars_of("hidden executable in ");
            push_str(&mut d, e.dir.as_str());
            push_str(&mut d, ": ");
            push_all(&mut d, name.as_slice());
            out.push(
                Threat {
                    module: "files",
                    severity: Severity::Critical,
                    description: string_of(d.as_slice()),
                    pid: None,
                    path: Some(e.path.clone()),
                    auto_kill: false,
                },
            );
        }
        assert(threat_views(out@) =~= concat_map(xs.subrange(0, i as int), |e| file_finding(e))
            + file_finding(xs[i as int]));
        i = i + 1;
    }
    assert(xs.subrange(0, entries@.len() as int) =~= xs);
    out
}


/// Append the threats of `more` to `out`.
fn append_threats(out: &mut Vec<Threat>, more: Vec<Threat>)
    ensures
        threat_views(final(out)@) == threat_views(old(out)@) + threat_views(more@),
{
    let mut more = more;
    let ghost m = more@;
    out.append(&mut more);
    assert(threat_views(out@) =~= threat_views(old(out)@) + threat_views(m));
}

/// The first word of a line, or nothing.
pub open spec fn first_word(line: Seq<char>) -> Seq<char> {
    let ws = words(line);
    if ws.len() > 0 {
        ws[0]
    } else {
        Seq::empty()
    }
}

/// The kernel module names the rootkit rule looks for.
pub open spec fn rootkit_signatures() -> Seq<Seq<char>> {
    seq!["hide"@, "stealth"@, "rootkit"@, "backdoor"@, "keylog"@]
}

/// The finding of one signature on a kernel module name, given the name in
/// lowercase.
pub open spec fn module_sig_finding(name: Seq<char>, lowered: Seq<char>, sig: Seq<char>) -> Seq<
    ThreatView,
> {
    if seq_contains(lowered, sig) {
        seq![
            threat(
                "rootkit"@,
                Severity::Critical,
                "suspicious kernel module: "@ + name,
                None,
                None,
                false,
            ),
        ]
    } else {
        Seq::empty()
    }
}

/// The findings on a kernel module name, given the name in lowercase: one
/// for each signature that the lowercase name holds.
pub open spec fn module_name_findings(name: Seq<char>, lowered: Seq<char>) -> Seq<ThreatView> {
    concat_map(rootkit_signatures(), |sig: Seq<char>| module_sig_finding(name, lowered, sig))
}

/// What the rootkit rule makes of one line of the module list: the findings
/// on its first word, lowercased.
pub open spec fn module_line_findings(line: Seq<char>) -> Seq<ThreatView> {
    module_name_findings(first_word(line), lowercase(first_word(line)))
}

/// The lowercase characters of `s`.
fn lowercase_chars(s: &[char]) -> (res: Vec<char>)
    ensures
        res@ == lowercase(s@),
{
    let text = string_of(s);
    let lower = to_lowercase(text.as_str());
    chars_of(lower.as_str())
}

/// The rootkit findings on a kernel module name, given the name in
/// lowercase.
pub fn rootkit_name_findings(name: &str, lowered: &str) -> (res: Vec<Threat>)
    ensures
        threat_views(res@) == module_name_findings(name@, lowered@),
{
    let lname = chars_of(lowered);
    let sigs: [&str; 5] = ["hide", "stealth", "rootkit", "backdoor", "keylog"];
    let ghost f = |sig: Seq<char>| module_sig_finding(name@, lowered@, sig);
    let ghost xs = rootkit_signatures();
    assert(sigs@.map_values(|s: &str| s@) =~= xs);
    let mut out: Vec<Threat> = Vec::new();
    let mut k: usize = 0;
    while k < 5
        invariant
            k <= 5,
            sigs@.map_values(|s: &str| s@) == xs,
            lname@ == lowered@,
            f == (|sig: Seq<char>| module_sig_finding(name@, lowered@, sig)),
            threat_views(out@) == concat_map(xs.subrange(0, k as int), f),
        decreases 5 - k,
    {
        proof {
            lemma_concat_map_step(xs, f, k as int);
            assert(sigs@[k as int]@ == xs[k as int]);
        }
        if contains_str(lname.as_slice(), sigs[k]) {
            let mut d = chars_of("suspicious kernel module: ");
            push_str(&mut d, name);
            out.push(
                Threat {
                    module: "rootkit",
                    severity: Severity::Critical,
                    description: string_of(d.as_slice()),
                    pid: None,
                    path: None,
                    auto_kill: false,
                },
            );
        }
        assert(threat_views(out@) =~= concat_map(xs.subrange(0, k as int), f) + f(xs[k as int]));
        k = k + 1;
    }
    assert(xs.subrange(0, 5) =~= xs);
    out
}

fn module_line_findings_exec(line: &[char]) -> (res: Vec<Threat>)
    ensures
        threat_views(res@) == module_line_findings(line@),
{
    let ws = words_of(line);
    let name: Vec<char> = if ws.len() > 0 {
        let mut n: Vec<char> = Vec::new();
        push_all(&mut n, ws[0].as_slice());
        n
    } else {
        Vec::new()
    };
    assert(name@ == first_word(line@));
    let lname = lowercase_chars(name.as_slice());
    let name_text = string_of(name.as_slice());
    let lowered_text = string_of(lname.as_slice());
    rootkit_name_findings(name_text.as_str(), lowered_text.as_str())
}

/// f30: kernel modules whose name holds a rootkit signature, given the text
/// of the module list.
pub fn f30_rootkit(modules: &str) -> (res: Vec<Threat>)
    ensures
        threat_views(res@) == concat_map(lines(modules@), |l| module_line_findings(l)),
{
    let text = chars_of(modules);
    let ls = lines_of(text.as_slice());
    let ghost xs = lines(modules@);
    let mut out: Vec<Threat> = Vec::new();
    let mut i: usize = 0;
    while i < ls.len()
        invariant
            i <= ls@.len(),
            char_vecs(ls@) == xs,
            threat_views(out@) == concat_map(xs.subrange(0, i as int), |l| module_line_findings(l)),
        decreases ls@.len() - i,
    {
        proof {
            lemma_concat_map_step(xs, |l| module_line_findings(l), i as int);
            assert(ls@[i as int]@ == xs[i as int]);
        }
        let found = module_line_findings_exec(ls[i].as_slice());
        append_threats(&mut out, found);
        i = i + 1;
    }
    assert(xs.subrange(0, ls@.len() as int) =~= xs);
    out
}

/// The command lines the process rule looks for.
pub open spec fn process_signatures() -> Seq<Seq<char>> {
    seq!["cryptominer"@, "xmrig"@, "stratum"@, "reverse_shell"@, "nc -e"@, "bash -i"@]
}

/// The process list as pid and command line text.
pub open spec fn process_views(v: Seq<(u32, String)>) -> Seq<(u32, Seq<char>)> {
    v.map_values(|p: (u32, String)| (p.0, p.1@))
}

/// The description of a suspicious process: its command line with NUL
/// separators as spaces, trimmed.
pub open spec fn process_description(cmdline: Seq<char>) -> Seq<char> {
    "suspicious process: "@ + trim(nul_to_space(cmdline))
}

/// The finding of one signature on a process, given its command line in
/// lowercase.
pub open spec fn process_sig_finding(
    pid: u32,
    cmdline: Seq<char>,
    lowered: Seq<char>,
    sig: Seq<char>,
) -> Seq<ThreatView> {
    if seq_contains(lowered, sig) {
        seq![
            threat(
                "processes"@,
                Severity::Critical,
                process_description(cmdline),
                Some(pid),
                None,
                true,
            ),
        ]
    } else {
        Seq::empty()
    }
}

/// The findings on a process, given its command line in lowercase: one
/// auto-killable finding for each signature that the lowercase command line
/// holds.
pub open spec fn process_cmdline_findings_spec(pid: u32, cmdline: Seq<char>, lowered: Seq<char>) -> Seq<
    ThreatView,
> {
    concat_map(process_signatures(), |sig: Seq<char>| process_sig_finding(pid, cmdline, lowered, sig))
}

/// What the process rule makes of one process: the findings on its command
/// line with the NUL separators of its arguments read as spaces, lowercased.
pub open spec fn process_findings(p: (u32, Seq<char>)) -> Seq<ThreatView> {
    process_cmdline_findings_spec(p.0, p.1, lowercase(nul_to_space(p.1)))
}

/// The process findings on a command line, given the command line with its
/// NUL separators read as spaces, in lowercase.
pub fn process_cmdline_findings(pid: u32, cmdline: &str, lowered: &str) -> (res: Vec<Threat>)
    ensures
        threat_views(res@) == process_cmdline_findings_spec(pid, cmdline@, lowered@),
{
    let raw = chars_of(cmdline);
    let lc = chars_of(lowered);
    let spaced = replace_nul(raw.as_slice());
    let trimmed = trim_chars(spaced.as_slice());
    let mut d = chars_of("suspicious process: ");
    push_all(&mut d, trimmed.as_slice());
    assert(d@ == process_description(cmdline@));
    let sigs: [&str; 6] = ["cryptominer", "xmrig", "stratum", "reverse_shell", "nc -e", "bash -i"];
    let ghost f = |sig: Seq<char>| process_sig_finding(pid, cmdline@, lowered@, sig);
    let ghost xs = process_signatures();
    assert(sigs@.map_values(|s: &str| s@) =~= xs);
    let mut out: Vec<Threat> = Vec::new();
    let mut k: usize = 0;
    while k < 6
        invariant
            k <= 6,
            sigs@.map_values(|s: &str| s@) == xs,
            lc@ == lowered@,
            d@ == process_description(cmdline@),
            f == (|sig: Seq<char>| process_sig_finding(pid, cmdline@, lowered@, sig)),
            threat_views(out@) == concat_map(xs.subrange(0, k as int), f),
        decreases 6 - k,
    {
        proof {
            lemma_concat_map_step(xs, f, k as int);
            assert(sigs@[k as int]@ == xs[k as int]);
        }
        if contains_str(lc.as_slice(), sigs[k]) {
            out.push(
                Threat {
                    module: "processes",
                    severity: Severity::Critical,
                    description: string_of(d.as_slice()),
                    pid: Some(pid),
                    path: None,
                    auto_kill: true,
                },
            );
        }
        assert(threat_views(out@) =~= concat_map(xs.subrange(0, k as int), f) + f(xs[k as int]));
        k = k + 1;
    }
    assert(xs.subrange(0, 6) =~= xs);
    out
}

fn process_findings_exec(pid: u32, cmdline: &str) -> (res: Vec<Threat>)
    ensures
        threat_views(res@) == process_findings((pid, cmdline@)),
{
    let raw = chars_of(cmdline);
    let spaced = string_of(replace_nul(raw.as_slice()).as_slice());
    let lower = to_lowercase(spaced.as_str());
    process_cmdline_findings(pid, cmdline, lower.as_str())
}

/// f50: suspicious processes, given each process whose command line could
/// be read, as its pid and its raw command line.
pub fn f50_processes(procs: &[(u32, String)]) -> (res: Vec<Threat>)
    ensures
        threat_views(res@) == concat_map(process_views(procs@), |p| process_findings(p)),
{
    let ghost xs = process_views(procs@);
    let mut out: Vec<Threat> = Vec::new();
    let mut i: usize = 0;
    while i < procs.len()
        invariant
            i <= procs@.len(),
            xs == process_views(procs@),
            threat_views(out@) == concat_map(xs.subrange(0, i as int), |p| process_findings(p)),
        decreases procs@.len() - i,
    {
        proof {
            lemma_concat_map_step(xs, |p| process_findings(p), i as int);
        }
        let found = process_findings_exec(procs[i].0, procs[i].1.as_str());
        append_threats(&mut out, found);
        i = i + 1;
    }
    assert(xs.subrange(0, procs@.len() as int) =~= xs);
    out
}


/// The listening ports that the network rule takes as known services.
pub open spec fn known_port(p: u16) -> bool {
    p == 22 || p == 80 || p == 443 || p == 8080 || p == 8081 || p == 3000 || p == 3001 || p == 8000
}

/// What the network rule makes of one row of the TCP table: a socket in
/// state `0A` (listening) on address `00000000` (all interfaces) whose port,
/// read as hexadecimal, is not a known service.
pub open spec fn tcp_line_finding(line: Seq<char>) -> Seq<ThreatView> {
    let parts = words(line);
    if parts.len() > 3 && parts[3] == "0A"@ && seq_starts_with(parts[1], "00000000:"@) {
        match parse_hex_u16(parts[1].subrange(9, parts[1].len() as int)) {
            Some(port) => if !known_port(port) {
                seq![
                    threat(
                        "network"@,
                        Severity::Medium,
                        "unknown service listening on 0.0.0.0:"@ + decimal(port as nat),
                        None,
                        None,
                        false,
                    ),
                ]
            } else {
                Seq::empty()
            },
            None => Seq::empty(),
        }
    } else {
        Seq::empty()
    }
}

/// The rows of a table after its header line.
pub open spec fn table_rows(ls: Seq<Seq<char>>) -> Seq<Seq<char>> {
    if ls.len() == 0 {
        ls
    } else {
        ls.drop_first()
    }
}

fn is_known_port(p: u16) -> (res: bool)
    ensures
        res == known_port(p),
{
    p == 22 || p == 80 || p == 443 || p == 8080 || p == 8081 || p == 3000 || p == 3001 || p == 8000
}

fn tcp_line_finding_exec(line: &[char]) -> (res: Vec<Threat>)
    ensures
        threat_views(res@) == tcp_line_finding(line@),
{
    let parts = words_of(line);
    let mut out: Vec<Threat> = Vec::new();
    proof {
        reveal_strlit("00000000:");
    }
    if parts.len() > 3 {
        assert(parts@[3]@ == words(line@)[3]);
        assert(parts@[1]@ == words(line@)[1]);
        let prefix = chars_of("00000000:");
        if eq_str(parts[3].as_slice(), "0A") && starts_with(parts[1].as_slice(), prefix.as_slice()) {
            let port_hex = tail_from(parts[1].as_slice(), 9);
            match parse_hex(port_hex.as_slice()) {
                Some(port) => {
                    if !is_known_port(port) {
                        let mut d = chars_of("unknown service listening on 0.0.0.0:");
                        let digits = decimal_chars(port as u64);
                        push_all(&mut d, digits.as_slice());
                        out.push(
                            Threat {
                                module: "network",
                                severity: Severity::Medium,
                                description: string_of(d.as_slice()),
                                pid: None,
                                path: None,
                                auto_kill: false,
                            },
                        );
                    }
                },
                None => {},
            }
        }
    }
    assert(threat_views(out@) =~= tcp_line_finding(line@));
    out
}

/// f20: unknown services listening on all interfaces, given the text of the
/// IPv4 TCP table (its first line is the header).
pub fn f20_network(tcp: &str) -> (res: Vec<Threat>)
    ensures
        threat_views(res@) == concat_map(table_rows(lines(tcp@)), |l| tcp_line_finding(l)),
{
    let text = chars_of(tcp);
    let ls = lines_of(text.as_slice());
    let ghost xs = table_rows(lines(tcp@));
    let mut out: Vec<Threat> = Vec::new();
    if ls.len() == 0 {
        return out;
    }
    let mut i: usize = 1;
    while i < ls.len()
        invariant
            1 <= i <= ls@.len(),
            char_vecs(ls@).drop_first() == xs,
            threat_views(out@) == concat_map(xs.subrange(0, i - 1), |l| tcp_line_finding(l)),
        decreases ls@.len() - i,
    {
        proof {
            lemma_concat_map_step(xs, |l| tcp_line_finding(l), i - 1);
            assert(ls@[i as int]@ == xs[i - 1]);
        }
        let found = tcp_line_finding_exec(ls[i].as_slice());
        append_threats(&mut out, found);
        i = i + 1;
    }
    assert(xs.subrange(0, ls@.len() - 1) =~= xs);
    out
}

/// A line of an authorized keys file that holds a key: not blank and not a
/// comment.
pub open spec fn is_key_line(l: Seq<char>) -> bool {
    trim(l).len() > 0 && !(l.len() > 0 && l[0] == '#')
}

/// The number of key lines.
pub open spec fn count_key_lines(ls: Seq<Seq<char>>) -> nat
    decreases ls.len(),
{
    if ls.len() == 0 {
        0
    } else {
        count_key_lines(ls.drop_last()) + if is_key_line(ls.last()) {
            1nat
        } else {
            0nat
        }
    }
}

/// What the SSH rule makes of an authorized keys file (its path, its text):
/// more than five keys.
pub open spec fn ssh_findings(path: Seq<char>, keys: Seq<char>) -> Seq<ThreatView> {
    let n = count_key_lines(lines(keys));
    if n > 5 {
        seq![
            threat(
                "ssh"@,
                Severity::Medium,
                decimal(n) + " SSH authorized keys — verify all are expected"@,
                None,
                Some(path),
                false,
            ),
        ]
    } else {
        Seq::empty()
    }
}

/// The authorized keys file of a home directory.
pub fn authorized_keys_path(home: &str) -> (res: String)
    ensures
        res@ == home@ + "/.ssh/authorized_keys"@,
{
    let mut v = chars_of(home);
    push_str(&mut v, "/.ssh/authorized_keys");
    string_of(v.as_slice())
}

/// f40: too many SSH authorized keys, given the file's path and text.
pub fn f40_ssh(path: &str, keys: &str) -> (res: Vec<Threat>)
    ensures
        threat_views(res@) == ssh_findings(path@, keys@),
{
    let text = chars_of(keys);
    let ls = lines_of(text.as_slice());
    let ghost xs = lines(keys@);
    let mut count: usize = 0;
    let mut i: usize = 0;
    while i < ls.len()
        invariant
            i <= ls@.len(),
            char_vecs(ls@) == xs,
            count == count_key_lines(xs.subrange(0, i as int)),
            count <= i,
        decreases ls@.len() - i,
    {
        proof {
            assert(xs.subrange(0, i + 1).drop_last() =~= xs.subrange(0, i as int));
            assert(ls@[i as int]@ == xs[i as int]);
        }
        let line = &ls[i];
        let t = trim_chars(line.as_slice());
        if t.len() > 0 && !(line.len() > 0 && line[0] == '#') {
            count = count + 1;
        }
        i = i + 1;
    }
    assert(xs.subrange(0, ls@.len() as int) =~= xs);
    let mut out: Vec<Threat> = Vec::new();
    if count > 5 {
        let mut d = decimal_chars(count as u64);
        push_str(&mut d, " SSH authorized keys — verify all are expected");
        out.push(
            Threat {
                module: "ssh",
                severity: Severity::Medium,
                description: string_of(d.as_slice()),
                pid: None,
                path: Some(string_of(chars_of(path).as_slice())),
                auto_kill: false,
            },
        );
    }
    assert(threat_views(out@) =~= ssh_findings(path@, keys@));
    out
}


/// What the daemon read from the machine in one pass, for the detection
/// rules.
pub struct SystemSnapshot {
    /// Each readable systemd unit file: displayed path and text.
    pub unit_files: Vec<(String, String)>,
    /// The IPv4 TCP table, where it could be read.
    pub tcp_table: Option<String>,
    /// The kernel module list, where it could be read.
    pub kernel_modules: Option<String>,
    /// The authorized keys file (path and text), where it could be read.
    pub authorized_keys: Option<(String, String)>,
    /// Each process whose command line could be read: pid and command line.
    pub processes: Vec<(u32, String)>,
    /// Each log file whose size could be read: path and size.
    pub log_files: Vec<(String, u64)>,
    /// Each readable cron file: displayed path and text.
    pub cron_files: Vec<(String, String)>,
    /// Each temporary directory entry whose metadata could be read.
    pub temp_entries: Vec<TempEntry>,
}

/// All findings of one pass, module by module in the order persistence,
/// network, rootkit, SSH, processes, logs, cron, files.
pub open spec fn snapshot_findings(s: SystemSnapshot) -> Seq<ThreatView> {
    concat_map(text_pairs(s.unit_files@), |u| unit_finding(u)) + match s.tcp_table {
        Some(t) => concat_map(table_rows(lines(t@)), |l| tcp_line_finding(l)),
        None => Seq::empty(),
    } + match s.kernel_modules {
        Some(m) => concat_map(lines(m@), |l| module_line_findings(l)),
        None => Seq::empty(),
    } + match s.authorized_keys {
        Some(k) => ssh_findings(k.0@, k.1@),
        None => Seq::empty(),
    } + concat_map(process_views(s.processes@), |p| process_findings(p)) + concat_map(
        log_views(s.log_files@),
        |l| log_finding(l),
    ) + concat_map(text_pairs(s.cron_files@), |u| cron_finding(u)) + concat_map(
        entry_views(s.temp_entries@),
        |e| file_finding(e),
    )
}

/// Run all detection rules on what was read.
pub fn scan_all(snapshot: &SystemSnapshot) -> (res: Vec<Threat>)
    ensures
        threat_views(res@) == snapshot_findings(*snapshot),
{
    let mut threats = f10_persistence(snapshot.unit_files.as_slice());
    let ghost a = threat_views(threats@);
    match &snapshot.tcp_table {
        Some(t) => append_threats(&mut threats, f20_network(t.as_str())),
        None => {},
    }
    let ghost b = threat_views(threats@);
    match &snapshot.kernel_modules {
        Some(m) => append_threats(&mut threats, f30_rootkit(m.as_str())),
        None => {},
    }
    let ghost c = threat_views(threats@);
    match &snapshot.authorized_keys {
        Some(k) => append_threats(&mut threats, f40_ssh(k.0.as_str(), k.1.as_str())),
        None => {},
    }
    append_threats(&mut threats, f50_processes(snapshot.processes.as_slice()));
    append_threats(&mut threats, f60_logs(snapshot.log_files.as_slice()));
    append_threats(&mut threats, f70_cron(snapshot.cron_files.as_slice()));
    append_threats(&mut threats, f80_files(snapshot.temp_entries.as_slice()));
    assert(threat_views(threats@) =~= snapshot_findings(*snapshot));
    threats
}

/// A finding marked for killing comes from the process rule, is critical,
/// and names a process.
pub open spec fn kill_mark_ok(t: ThreatView) -> bool {
    t.auto_kill ==> t.module == "processes"@ && t.severity == Severity::Critical && t.pid is Some
}

/// Every finding of a sequence passes `kill_mark_ok`.
pub open spec fn all_kill_marks_ok(ts: Seq<ThreatView>) -> bool {
    forall|i: int| 0 <= i < ts.len() ==> kill_mark_ok(#[trigger] ts[i])
}

proof fn lemma_concat_kill_marks<A>(xs: Seq<A>, f: spec_fn(A) -> Seq<ThreatView>)
    requires
        forall|i: int| 0 <= i < xs.len() ==> all_kill_marks_ok(#[trigger] f(xs[i])),
    ensures
        all_kill_marks_ok(concat_map(xs, f)),
    decreases xs.len(),
{
    if xs.len() > 0 {
        let init = xs.drop_last();
        assert forall|i: int| 0 <= i < init.len() implies all_kill_marks_ok(#[trigger] f(init[i])) by {
            assert(init[i] == xs[i]);
        }
        lemma_concat_kill_marks(init, f);
        assert(all_kill_marks_ok(f(xs[xs.len() - 1])));
        let a = concat_map(init, f);
        let b = f(xs.last());
        assert forall|i: int| 0 <= i < (a + b).len() implies kill_mark_ok(#[trigger] (a + b)[i]) by {
            if i < a.len() {
                assert((a + b)[i] == a[i]);
            } else {
                assert((a + b)[i] == b[i - a.len()]);
            }
        }
    }
}

proof fn lemma_append_kill_marks(a: Seq<ThreatView>, b: Seq<ThreatView>)
    requires
        all_kill_marks_ok(a),
        all_kill_marks_ok(b),
    ensures
        all_kill_marks_ok(a + b),
{
    assert forall|i: int| 0 <= i < (a + b).len() implies kill_mark_ok(#[trigger] (a + b)[i]) by {
        if i < a.len() {
            assert((a + b)[i] == a[i]);
        } else {
            assert((a + b)[i] == b[i - a.len()]);
        }
    }
}

/// Only the process rule marks findings for killing: every finding of a pass
/// that is marked auto-killable is a critical finding of the process rule
/// that names its process.
pub proof fn law_only_processes_are_killable(s: SystemSnapshot)
    ensures
        forall|i: int|
            0 <= i < snapshot_findings(s).len() ==> kill_mark_ok(#[trigger] snapshot_findings(s)[i]),
{
    reveal_strlit("processes");
    let units = text_pairs(s.unit_files@);
    assert forall|i: int| 0 <= i < units.len() implies all_kill_marks_ok(
        #[trigger] unit_finding(units[i]),
    ) by {}
    lemma_concat_kill_marks(units, |u| unit_finding(u));
    let a = concat_map(units, |u| unit_finding(u));
    let b = match s.tcp_table {
        Some(t) => concat_map(table_rows(lines(t@)), |l| tcp_line_finding(l)),
        None => Seq::empty(),
    };
    if let Some(t) = s.tcp_table {
        let rows = table_rows(lines(t@));
        assert forall|i: int| 0 <= i < rows.len() implies all_kill_marks_ok(
            #[trigger] tcp_line_finding(rows[i]),
        ) by {}
        lemma_concat_kill_marks(rows, |l| tcp_line_finding(l));
    }
    let c = match s.kernel_modules {
        Some(m) => concat_map(lines(m@), |l| module_line_findings(l)),
        None => Seq::empty(),
    };
    if let Some(m) = s.kernel_modules {
        let ls = lines(m@);
        assert forall|i: int| 0 <= i < ls.len() implies all_kill_marks_ok(
            #[trigger] module_line_findings(ls[i]),
        ) by {
            let name = first_word(ls[i]);
            let low = lowercase(name);
            let sigs = rootkit_signatures();
            assert forall|k: int| 0 <= k < sigs.len() implies all_kill_marks_ok(
                #[trigger] module_sig_finding(name, low, sigs[k]),
            ) by {}
            lemma_concat_kill_marks(sigs, |sig: Seq<char>| module_sig_finding(name, low, sig));
        }
        lemma_concat_kill_marks(ls, |l| module_line_findings(l));
    }
    let d = match s.authorized_keys {
        Some(k) => ssh_findings(k.0@, k.1@),
        None => Seq::empty(),
    };
    let procs = process_views(s.processes@);
    assert forall|i: int| 0 <= i < procs.len() implies all_kill_marks_ok(
        #[trigger] process_findings(procs[i]),
    ) by {
        let p = procs[i];
        let low = lowercase(nul_to_space(p.1));
        let sigs = process_signatures();
        assert forall|k: int| 0 <= k < sigs.len() implies all_kill_marks_ok(
            #[trigger] process_sig_finding(p.0, p.1, low, sigs[k]),
        ) by {}
        lemma_concat_kill_marks(sigs, |sig: Seq<char>| process_sig_finding(p.0, p.1, low, sig));
    }
    lemma_concat_kill_marks(procs, |p| process_findings(p));
    let e = concat_map(procs, |p| process_findings(p));
    let logs = log_views(s.log_files@);
    assert forall|i: int| 0 <= i < logs.len() implies all_kill_marks_ok(
        #[trigger] log_finding(logs[i]),
    ) by {}
    lemma_concat_kill_marks(logs, |l| log_finding(l));
    let f = concat_map(logs, |l| log_finding(l));
    let crons = text_pairs(s.cron_files@);
    assert forall|i: int| 0 <= i < crons.len() implies all_kill_marks_ok(
        #[trigger] cron_finding(crons[i]),
    ) by {}
    lemma_concat_kill_marks(crons, |u| cron_finding(u));
    let g = concat_map(crons, |u| cron_finding(u));
    let es = entry_views(s.temp_entries@);
    assert forall|i: int| 0 <= i < es.len() implies all_kill_marks_ok(
        #[trigger] file_finding(es[i]),
    ) by {}
    lemma_concat_kill_marks(es, |x| file_finding(x));
    let h = concat_map(es, |x| file_finding(x));
    lemma_append_kill_marks(a, b);
    lemma_append_kill_marks(a + b, c);
    lemma_append_kill_marks(a + b + c, d);
    lemma_append_kill_marks(a + b + c + d, e);
    lemma_append_kill_marks(a + b + c + d + e, f);
    lemma_append_kill_marks(a + b + c + d + e + f, g);
    lemma_append_kill_marks(a + b + c + d + e + f + g, h);
    assert(snapshot_findings(s) == a + b + c + d + e + f + g + h);
}

/// A socket listening on all interfaces is a finding exactly when its port
/// is none of the known services 22, 80, 443, 8080, 8081, 3000, 3001 and
/// 8000; the finding is a medium network threat naming the port.
pub proof fn law_known_ports_are_skipped(line: Seq<char>, p: u16)
    requires
        words(line).len() > 3,
        words(line)[3] == "0A"@,
        seq_starts_with(words(line)[1], "00000000:"@),
        parse_hex_u16(words(line)[1].subrange(9, words(line)[1].len() as int)) == Some(p),
    ensures
        (p == 22 || p == 80 || p == 443 || p == 8080 || p == 8081 || p == 3000 || p == 3001 || p
            == 8000) ==> tcp_line_finding(line) == Seq::<ThreatView>::empty(),
        !(p == 22 || p == 80 || p == 443 || p == 8080 || p == 8081 || p == 3000 || p == 3001 || p
            == 8000) ==> tcp_line_finding(line) == seq![
            ThreatView {
                module: "network"@,
                severity: Severity::Medium,
                description: "unknown service listening on 0.0.0.0:"@ + decimal(p as nat),
                pid: None,
                path: None,
                auto_kill: false,
            },
        ],
{
}

/// The number (0 or 1) of a signature held by a text.
pub open spec fn holds(text: Seq<char>, sig: Seq<char>) -> int {
    if seq_contains(text, sig) {
        1
    } else {
        0
    }
}

proof fn lemma_concat_map_five<A>(xs: Seq<A>, f: spec_fn(A) -> Seq<ThreatView>)
    requires
        xs.len() == 5,
    ensures
        concat_map(xs, f) == f(xs[0]) + f(xs[1]) + f(xs[2]) + f(xs[3]) + f(xs[4]),
{
    reveal_with_fuel(concat_map, 6);
    assert(xs.drop_last().drop_last().drop_last().drop_last().drop_last() =~= Seq::<A>::empty());
    assert(concat_map(xs.subrange(0, 0), f) =~= Seq::<ThreatView>::empty());
    assert(xs.subrange(0, 1).drop_last() =~= xs.subrange(0, 0));
    assert(xs.subrange(0, 2).drop_last() =~= xs.subrange(0, 1));
    assert(xs.subrange(0, 3).drop_last() =~= xs.subrange(0, 2));
    assert(xs.subrange(0, 4).drop_last() =~= xs.subrange(0, 3));
    assert(xs.drop_last() =~= xs.subrange(0, 4));
    assert(concat_map(xs.subrange(0, 1), f) =~= f(xs[0]));
}

proof fn lemma_concat_map_six<A>(xs: Seq<A>, f: spec_fn(A) -> Seq<ThreatView>)
    requires
        xs.len() == 6,
    ensures
        concat_map(xs, f) == f(xs[0]) + f(xs[1]) + f(xs[2]) + f(xs[3]) + f(xs[4]) + f(xs[5]),
{
    lemma_concat_map_five(xs.drop_last(), f);
    assert(xs.drop_last()[0] == xs[0]);
    assert(xs.drop_last()[1] == xs[1]);
    assert(xs.drop_last()[2] == xs[2]);
    assert(xs.drop_last()[3] == xs[3]);
    assert(xs.drop_last()[4] == xs[4]);
}

/// Every finding in `ts` is `t`.
pub open spec fn all_are(ts: Seq<ThreatView>, t: ThreatView) -> bool {
    forall|i: int| 0 <= i < ts.len() ==> ts[i] == t
}

proof fn lemma_all_are_append(a: Seq<ThreatView>, b: Seq<ThreatView>, t: ThreatView)
    requires
        all_are(a, t),
        all_are(b, t),
    ensures
        all_are(a + b, t),
{
    assert forall|i: int| 0 <= i < (a + b).len() implies (a + b)[i] == t by {
        if i < a.len() {
            assert((a + b)[i] == a[i]);
        } else {
            assert((a + b)[i] == b[i - a.len()]);
        }
    }
}

/// A kernel module line gives one critical rootkit finding naming the
/// module for each of the signatures hide, stealth, rootkit, backdoor and
/// keylog that its lowercased name holds, and nothing else.
pub proof fn law_rootkit_signatures(line: Seq<char>)
    ensures
        module_line_findings(line).len() == holds(lowercase(first_word(line)), "hide"@) + holds(
            lowercase(first_word(line)),
            "stealth"@,
        ) + holds(lowercase(first_word(line)), "rootkit"@) + holds(
            lowercase(first_word(line)),
            "backdoor"@,
        ) + holds(lowercase(first_word(line)), "keylog"@),
        forall|i: int|
            0 <= i < module_line_findings(line).len() ==> #[trigger] module_line_findings(line)[i]
                == (ThreatView {
                module: "rootkit"@,
                severity: Severity::Critical,
                description: "suspicious kernel module: "@ + first_word(line),
                pid: None,
                path: None,
                auto_kill: false,
            }),
{
    let name = first_word(line);
    let low = lowercase(name);
    let f = |sig: Seq<char>| module_sig_finding(name, low, sig);
    let t = ThreatView {
        module: "rootkit"@,
        severity: Severity::Critical,
        description: "suspicious kernel module: "@ + name,
        pid: None,
        path: None,
        auto_kill: false,
    };
    let xs = rootkit_signatures();
    lemma_concat_map_five(xs, f);
    let parts = seq![f(xs[0]), f(xs[1]), f(xs[2]), f(xs[3]), f(xs[4])];
    assert forall|k: int| 0 <= k < 5 implies all_are(#[trigger] parts[k], t) by {}
    lemma_all_are_append(f(xs[0]), f(xs[1]), t);
    lemma_all_are_append(f(xs[0]) + f(xs[1]), f(xs[2]), t);
    lemma_all_are_append(f(xs[0]) + f(xs[1]) + f(xs[2]), f(xs[3]), t);
    lemma_all_are_append(f(xs[0]) + f(xs[1]) + f(xs[2]) + f(xs[3]), f(xs[4]), t);
    assert(module_line_findings(line) == f(xs[0]) + f(xs[1]) + f(xs[2]) + f(xs[3]) + f(xs[4]));
}

/// A process gives one critical, auto-killable process finding with its pid
/// for each of the signatures cryptominer, xmrig, stratum, reverse_shell,
/// `nc -e` and `bash -i` that its lowercased command line (NULs read as
/// spaces) holds, and nothing else; the finding quotes the command line with
/// NULs as spaces, trimmed.
pub proof fn law_process_signatures(pid: u32, cmdline: Seq<char>)
    ensures
        process_findings((pid, cmdline)).len() == holds(
            lowercase(nul_to_space(cmdline)),
            "cryptominer"@,
        ) + holds(lowercase(nul_to_space(cmdline)), "xmrig"@) + holds(
            lowercase(nul_to_space(cmdline)),
            "stratum"@,
        ) + holds(lowercase(nul_to_space(cmdline)), "reverse_shell"@) + holds(
            lowercase(nul_to_space(cmdline)),
            "nc -e"@,
        ) + holds(lowercase(nul_to_space(cmdline)), "bash -i"@),
        forall|i: int|
            0 <= i < process_findings((pid, cmdline)).len() ==> #[trigger] process_findings(
                (pid, cmdline),
            )[i] == (ThreatView {
                module: "processes"@,
                severity: Severity::Critical,
                description: "suspicious process: "@ + trim(nul_to_space(cmdline)),
                pid: Some(pid),
                path: None,
                auto_kill: true,
            }),
{
    let low = lowercase(nul_to_space(cmdline));
    let f = |sig: Seq<char>| process_sig_finding(pid, cmdline, low, sig);
    let t = ThreatView {
        module: "processes"@,
        severity: Severity::Critical,
        description: "suspicious process: "@ + trim(nul_to_space(cmdline)),
        pid: Some(pid),
        path: None,
        auto_kill: true,
    };
    let xs = process_signatures();
    lemma_concat_map_six(xs, f);
    let parts = seq![f(xs[0]), f(xs[1]), f(xs[2]), f(xs[3]), f(xs[4]), f(xs[5])];
    assert forall|k: int| 0 <= k < 6 implies all_are(#[trigger] parts[k], t) by {}
    lemma_all_are_append(f(xs[0]), f(xs[1]), t);
    lemma_all_are_append(f(xs[0]) + f(xs[1]), f(xs[2]), t);
    lemma_all_are_append(f(xs[0]) + f(xs[1]) + f(xs[2]), f(xs[3]), t);
    lemma_all_are_append(f(xs[0]) + f(xs[1]) + f(xs[2]) + f(xs[3]), f(xs[4]), t);
    lemma_all_are_append(f(xs[0]) + f(xs[1]) + f(xs[2]) + f(xs[3]) + f(xs[4]), f(xs[5]), t);
    assert(process_findings((pid, cmdline)) == f(xs[0]) + f(xs[1]) + f(xs[2]) + f(xs[3]) + f(
        xs[4],
    ) + f(xs[5]));
}

} // verus!
