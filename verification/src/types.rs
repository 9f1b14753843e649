//! Shared types of the daemon and the review interface.

use vstd::prelude::*;

use crate::text::str_eq;

verus! {

/// Detection module identifier.
#[derive(Debug, Clone, Copy, PartialEq, Eq, Structural)]
pub enum Module {
    Persistence,
    Network,
    Rootkit,
    Ssh,
    Process,
    Logs,
    Cron,
    Files,
}

/// The label of each module, as the daemon names it.
pub open spec fn module_label(m: Module) -> Seq<char> {
    match m {
        Module::Persistence => "persistence"@,
        Module::Network => "network"@,
        Module::Rootkit => "rootkit"@,
        Module::Ssh => "ssh"@,
        Module::Process => "processes"@,
        Module::Logs => "logs"@,
        Module::Cron => "cron"@,
        Module::Files => "files"@,
    }
}

impl Module {
    pub fn label(&self) -> (res: &'static str)
        ensures
            res@ == module_label(*self),
    {
        match self {
            Module::Persistence => "persistence",
            Module::Network => "network",
            Module::Rootkit => "rootkit",
            Module::Ssh => "ssh",
            Module::Process => "processes",
            Module::Logs => "logs",
            Module::Cron => "cron",
            Module::Files => "files",
        }
    }
}


/// Four-level severity matching the review colour scheme.
#[derive(Debug, Clone, Copy, PartialEq, Eq, PartialOrd, Ord, Structural)]
pub enum Severity {
    Green,
    Yellow,
    Orange,
    Red,
}

/// Card status in the threat lifecycle.
#[derive(Debug, Clone, Copy, PartialEq, Eq, Structural)]
pub enum CardStatus {
    Pending,
    Baselined,
    Killed,
    Quarantined,
    AutoKilled,
}

/// What dimension a baseline pattern matches on.
#[derive(Debug, Clone, Copy, PartialEq, Eq, Structural)]
pub enum PatternType {
    ProcessName,
    ListenPort,
    FilePath,
    CronPattern,
    SshKey,
}

/// The characters an optional string holds.
pub open spec fn opt_chars(o: Option<String>) -> Option<Seq<char>> {
    match o {
        Some(s) => Some(s@),
        None => None,
    }
}

/// A copy of an optional string.
pub fn copy_opt_string(o: &Option<String>) -> (res: Option<String>)
    ensures
        opt_chars(res) == opt_chars(*o),
{
    match o {
        Some(s) => Some(s.clone()),
        None => None,
    }
}

/// A threat card written by the daemon and read by the review interface.
#[derive(Debug, Clone)]
pub struct ThreatCard {
    pub id: u64,
    pub timestamp: u64,
    pub module: Module,
    pub severity: Severity,
    pub title: String,
    pub description: String,
    pub process_name: Option<String>,
    pub pid: Option<u32>,
    pub file_path: Option<String>,
    pub command: Option<String>,
    pub status: CardStatus,
    pub auto_kill: bool,
}

/// The abstract value of a threat card: its fields, strings taken by their
/// characters.
pub ghost struct ThreatCardView {
    pub id: u64,
    pub timestamp: u64,
    pub module: Module,
    pub severity: Severity,
    pub title: Seq<char>,
    pub description: Seq<char>,
    pub process_name: Option<Seq<char>>,
    pub pid: Option<u32>,
    pub file_path: Option<Seq<char>>,
    pub command: Option<Seq<char>>,
    pub status: CardStatus,
    pub auto_kill: bool,
}

impl View for ThreatCard {
    type V = ThreatCardView;

    open spec fn view(&self) -> ThreatCardView {
        ThreatCardView {
            id: self.id,
            timestamp: self.timestamp,
            module: self.module,
            severity: self.severity,
            title: self.title@,
            description: self.description@,
            process_name: opt_chars(self.process_name),
            pid: self.pid,
            file_path: opt_chars(self.file_path),
            command: opt_chars(self.command),
            status: self.status,
            auto_kill: self.auto_kill,
        }
    }
}

impl ThreatCard {
    /// A field-by-field copy of the card.
    pub fn copy(&self) -> (res: ThreatCard)
        ensures
            res@ == self@,
    {
        ThreatCard {
            id: self.id,
            timestamp: self.timestamp,
            module: self.module,
            severity: self.severity,
            title: self.title.clone(),
            description: self.description.clone(),
            process_name: copy_opt_string(&self.process_name),
            pid: self.pid,
            file_path: copy_opt_string(&self.file_path),
            command: copy_opt_string(&self.command),
            status: self.status,
            auto_kill: self.auto_kill,
        }
    }
}

/// A learned baseline pattern from right-swipes.
#[derive(Debug, Clone)]
pub struct BaselinePattern {
    pub module: Module,
    pub pattern_type: PatternType,
    pub value: String,
    pub learned_at: u64,
    pub swipe_count: u32,
}

/// The abstract value of a baseline pattern.
pub ghost struct BaselinePatternView {
    pub module: Module,
    pub pattern_type: PatternType,
    pub value: Seq<char>,
    pub learned_at: u64,
    pub swipe_count: u32,
}

impl View for BaselinePattern {
    type V = BaselinePatternView;

    open spec fn view(&self) -> BaselinePatternView {
        BaselinePatternView {
            module: self.module,
            pattern_type: self.pattern_type,
            value: self.value@,
            learned_at: self.learned_at,
            swipe_count: self.swipe_count,
        }
    }
}

/// Aggregated counts for the statistics screen.
#[derive(Debug, Clone)]
pub struct Stats {
    pub total_threats: usize,
    pub pending: usize,
    pub baselined: usize,
    pub killed: usize,
    pub quarantined: usize,
    pub auto_killed: usize,
}

impl Default for Stats {
    fn default() -> (s: Stats)
        ensures
            s.total_threats == 0,
            s.pending == 0,
            s.baselined == 0,
            s.killed == 0,
            s.quarantined == 0,
            s.auto_killed == 0,
    {
        Stats { total_threats: 0, pending: 0, baselined: 0, killed: 0, quarantined: 0, auto_killed: 0 }
    }
}

/// The module a label names; any other text stands for the process module.
pub open spec fn module_of_label(s: Seq<char>) -> Module {
    if s == "persistence"@ {
        Module::Persistence
    } else if s == "network"@ {
        Module::Network
    } else if s == "rootkit"@ {
        Module::Rootkit
    } else if s == "ssh"@ {
        Module::Ssh
    } else if s == "processes"@ {
        Module::Process
    } else if s == "logs"@ {
        Module::Logs
    } else if s == "cron"@ {
        Module::Cron
    } else if s == "files"@ {
        Module::Files
    } else {
        Module::Process
    }
}

/// Map a module label back to its module (case sensitive; unknown text gives
/// the process module).
pub fn module_from_str(s: &str) -> (res: Module)
    ensures
        res == module_of_label(s@),
{
    if str_eq(s, "persistence") {
        Module::Persistence
    } else if str_eq(s, "network") {
        Module::Network
    } else if str_eq(s, "rootkit") {
        Module::Rootkit
    } else if str_eq(s, "ssh") {
        Module::Ssh
    } else if str_eq(s, "processes") {
        Module::Process
    } else if str_eq(s, "logs") {
        Module::Logs
    } else if str_eq(s, "cron") {
        Module::Cron
    } else if str_eq(s, "files") {
        Module::Files
    } else {
        Module::Process
    }
}

/// Every module's label maps back to that module.
pub proof fn law_label_roundtrip(m: Module)
    ensures
        module_of_label(module_label(m)) == m,
{
    reveal_strlit("persistence");
    reveal_strlit("network");
    reveal_strlit("rootkit");
    reveal_strlit("ssh");
    reveal_strlit("processes");
    reveal_strlit("logs");
    reveal_strlit("cron");
    reveal_strlit("files");
    let l = module_label(m);
    assert(l.len() != "persistence"@.len() || l[0] != "persistence"@[0] || l == "persistence"@);
    assert(l.len() != "network"@.len() || l[0] != "network"@[0] || l == "network"@);
    assert(l.len() != "rootkit"@.len() || l[0] != "rootkit"@[0] || l == "rootkit"@);
    assert(l.len() != "ssh"@.len() || l[0] != "ssh"@[0] || l == "ssh"@);
    assert(l.len() != "processes"@.len() || l[0] != "processes"@[0] || l == "processes"@);
    assert(l.len() != "logs"@.len() || l[0] != "logs"@[0] || l == "logs"@);
    assert(l.len() != "cron"@.len() || l[0] != "cron"@[0] || l == "cron"@);
}

} // verus!
