//! The rules behind the swipe review of threat cards: what each swipe
//! resolves a card to, what a right swipe teaches the baseline, and how the
//! cards are shown.

use vstd::prelude::*;

use crate::daemon::unix_time_secs;
use crate::db::{all_trees_unchanged, db_tree, next_generated_id, other_trees_unchanged};
use crate::error::StoreError;
use crate::codec::Record;
use crate::store::{
    add_baseline, baseline_key_spec, baseline_tree, card_views, decoded_values, f96_get, full_scan,
    holds_at, pending_of, pending_threats, resolve_outcome, resolve_threat, threats_tree, utf8,
    TREE_BASELINE,
};
use crate::text::{chars_of, decimal, decimal_chars, push_all, push_str, string_of};
use crate::types::{
    module_label, BaselinePattern, BaselinePatternView, CardStatus, Module, PatternType, Severity,
    ThreatCard, ThreatCardView,
};

verus! {

/// What a swipe does to the card on top.
#[derive(Debug, Clone, Copy, PartialEq, Eq, Structural)]
pub enum SwipeAction {
    /// Swipe right: learn the pattern and stop alerting.
    Baseline,
    /// Swipe left: kill the process.
    Kill,
    /// Swipe up: stop the process.
    Quarantine,
}

/// The status a swipe resolves a card to.
pub open spec fn swipe_status_spec(a: SwipeAction) -> CardStatus {
    match a {
        SwipeAction::Baseline => CardStatus::Baselined,
        SwipeAction::Kill => CardStatus::Killed,
        SwipeAction::Quarantine => CardStatus::Quarantined,
    }
}

/// The status a swipe resolves a card to.
pub fn swipe_status(a: SwipeAction) -> (res: CardStatus)
    ensures
        res == swipe_status_spec(a),
{
    match a {
        SwipeAction::Baseline => CardStatus::Baselined,
        SwipeAction::Kill => CardStatus::Killed,
        SwipeAction::Quarantine => CardStatus::Quarantined,
    }
}

/// The process that a kill or quarantine swipe signals: the card's process,
/// unless it is init or the kernel's thread daemon (pid 2 or below).
pub fn signal_target(card: &ThreatCard) -> (res: Option<u32>)
    ensures
        res == (match card.pid {
            Some(p) => if p > 2 {
                Some(p)
            } else {
                None
            },
            None => None,
        }),
{
    match card.pid {
        Some(p) => if p > 2 {
            Some(p)
        } else {
            None
        },
        None => None,
    }
}

/// The characters of an optional text, or nothing.
pub open spec fn or_empty(o: Option<Seq<char>>) -> Seq<char> {
    match o {
        Some(s) => s,
        None => Seq::empty(),
    }
}

/// The pattern a right swipe learns from a card: by module, the process
/// name, the listening port (the title), the file path, the cron file, the
/// key line (the description), or else the title; seen once, at `now`.
pub open spec fn baseline_for(c: ThreatCardView, now: u64) -> BaselinePatternView {
    let (pattern_type, value) = match c.module {
        Module::Process => (PatternType::ProcessName, or_empty(c.process_name)),
        Module::Network => (PatternType::ListenPort, c.title),
        Module::Files => (PatternType::FilePath, or_empty(c.file_path)),
        Module::Cron => (PatternType::CronPattern, or_empty(c.file_path)),
        Module::Ssh => (PatternType::SshKey, c.description),
        _ => (PatternType::ProcessName, c.title),
    };
    BaselinePatternView { module: c.module, pattern_type, value, learned_at: now, swipe_count: 1 }
}

fn string_or_empty(o: &Option<String>) -> (res: String)
    ensures
        res@ == or_empty(crate::types::opt_chars(*o)),
{
    match o {
        Some(s) => s.clone(),
        None => String::new(),
    }
}

/// The pattern a right swipe learns from a card at time `now`.
pub fn baseline_pattern_for(card: &ThreatCard, now: u64) -> (res: BaselinePattern)
    ensures
        res@ == baseline_for(card@, now),
{
    let (pattern_type, value) = match card.module {
        Module::Process => (PatternType::ProcessName, string_or_empty(&card.process_name)),
        Module::Network => (PatternType::ListenPort, card.title.clone()),
        Module::Files => (PatternType::FilePath, string_or_empty(&card.file_path)),
        Module::Cron => (PatternType::CronPattern, string_or_empty(&card.file_path)),
        Module::Ssh => (PatternType::SshKey, card.description.clone()),
        _ => (PatternType::ProcessName, card.title.clone()),
    };
    BaselinePattern { module: card.module, pattern_type, value, learned_at: now, swipe_count: 1 }
}

/// The key under which the pattern of card `c` is stored (the time it was
/// learned plays no part in it).
pub open spec fn baseline_key(c: ThreatCardView) -> Seq<u8> {
    utf8(baseline_key_spec(baseline_for(c, 0)))
}

/// What tree `t` holds under key `k`, decoded, if it holds the key and the
/// value decodes.
pub open spec fn stored_at<V: Record>(t: Map<Seq<u8>, Seq<u8>>, k: Seq<u8>) -> Option<V::V> {
    if t.contains_key(k) {
        V::stored_as(t[k])
    } else {
        None
    }
}

/// The swipe count after one more baseline swipe: one more than the stored
/// pattern's (staying at the largest `u32`), or one for a new pattern.
pub open spec fn count_after(prev: Option<BaselinePatternView>) -> u32 {
    match prev {
        Some(p) => if p.swipe_count == u32::MAX {
            u32::MAX
        } else {
            (p.swipe_count + 1) as u32
        },
        None => 1,
    }
}

/// The pattern a right swipe on card `c` stores at time `now`, given the
/// pattern stored before under the same key.
pub open spec fn learned_for(
    c: ThreatCardView,
    now: u64,
    prev: Option<BaselinePatternView>,
) -> BaselinePatternView {
    BaselinePatternView { swipe_count: count_after(prev), ..baseline_for(c, now) }
}

/// What a call of `f93_baseline_learn` on card `c` with result `res` makes of
/// the database: only the baseline tree changes; on success it holds, under
/// the card's pattern key, the card's pattern learned at some time, with the
/// stored pattern's swipe count plus one (one for a new pattern, or where
/// the stored value does not decode, which is then overwritten); a pattern
/// too large to encode fails and changes nothing.
pub open spec fn learn_outcome(
    before: sled::Db,
    after: sled::Db,
    c: ThreatCardView,
    res: Result<(), StoreError>,
) -> bool {
    let t0 = db_tree(before, baseline_tree());
    let k = baseline_key(c);
    &&& other_trees_unchanged(before, after, baseline_tree())
    &&& next_generated_id(after) == next_generated_id(before)
    &&& res is Ok ==> exists|now: u64|
        holds_at::<BaselinePattern>(
            t0,
            db_tree(after, baseline_tree()),
            k,
            #[trigger] learned_for(c, now, stored_at::<BaselinePattern>(t0, k)),
        )
    &&& res matches Err(e) ==> e is Db || (e is Encode && all_trees_unchanged(before, after)
        && exists|now: u64|
        !<BaselinePattern as Record>::fits(
            #[trigger] learned_for(c, now, stored_at::<BaselinePattern>(t0, k)),
        ))
}

/// f93: learn the baseline pattern of a card, at the current time, counting
/// one more swipe on a pattern already stored.
pub fn f93_baseline_learn(db: &mut sled::Db, card: &ThreatCard) -> (res: Result<(), StoreError>)
    ensures
        learn_outcome(*old(db), *final(db), card@, res),
{
    let now = unix_time_secs();
    let mut pattern = baseline_pattern_for(card, now);
    let mut v = chars_of(pattern.module.label());
    v.push(':');
    push_str(&mut v, pattern.value.as_str());
    let key = string_of(v.as_slice());
    assert(key@ =~= baseline_key_spec(pattern@));
    let ghost t0 = db_tree(*old(db), baseline_tree());
    let ghost k = baseline_key(card@);
    assert(utf8(key@) == k);
    let prev = f96_get::<BaselinePattern>(db, TREE_BASELINE, key.as_str());
    let ghost prev_view = stored_at::<BaselinePattern>(t0, k);
    match prev {
        Err(StoreError::Db(e)) => return Err(StoreError::Db(e)),
        Err(_) => {},
        Ok(Some(p)) => {
            pattern.swipe_count = if p.swipe_count == u32::MAX {
                u32::MAX
            } else {
                p.swipe_count + 1
            };
        },
        Ok(None) => {},
    }
    assert(pattern@ == learned_for(card@, now, prev_view));
    let r = add_baseline(db, &pattern);
    assert(r is Ok ==> holds_at::<BaselinePattern>(
        t0,
        db_tree(*final(db), baseline_tree()),
        k,
        learned_for(card@, now, prev_view),
    ));
    r
}

/// The cards of `cs` other than those with identifier `id`, in order.
pub open spec fn without_id(cs: Seq<ThreatCardView>, id: u64) -> Seq<ThreatCardView>
    decreases cs.len(),
{
    if cs.len() == 0 {
        Seq::empty()
    } else {
        let rest = without_id(cs.drop_last(), id);
        if cs.last().id != id {
            rest.push(cs.last())
        } else {
            rest
        }
    }
}

/// Drop the cards with identifier `id` from the review list, keeping the
/// order of the others.
pub fn remove_card(cards: &mut Vec<ThreatCard>, id: u64)
    ensures
        card_views(final(cards)@) == without_id(card_views(old(cards)@), id),
{
    let ghost all = card_views(cards@);
    let mut kept: Vec<ThreatCard> = Vec::new();
    let mut rest: Vec<ThreatCard> = Vec::new();
    std::mem::swap(&mut rest, cards);
    let ghost src = rest@;
    let mut i: usize = 0;
    let n = rest.len();
    while i < n
        invariant
            n == src.len(),
            i <= n,
            card_views(src) == all,
            rest@ == src,
            card_views(kept@) == without_id(all.subrange(0, i as int), id),
        decreases n - i,
    {
        proof {
            assert(all.subrange(0, i + 1).drop_last() =~= all.subrange(0, i as int));
            assert(all[i as int] == rest@[i as int]@);
        }
        if rest[i].id != id {
            let c = rest[i].copy();
            kept.push(c);
            assert(card_views(kept@) =~= without_id(all.subrange(0, i as int), id).push(
                all[i as int],
            ));
        }
        i = i + 1;
    }
    assert(all.subrange(0, n as int) =~= all);
    *cards = kept;
}

/// The card shown after a swipe: back to the first once the index has run
/// past the remaining cards, unless none remain.
pub fn index_after_swipe(current: usize, len: usize) -> (res: usize)
    ensures
        res == (if current >= len && len != 0 {
            0
        } else {
            current
        }),
{
    if current >= len && len != 0 {
        0
    } else {
        current
    }
}

/// f92 once the gesture is read: resolve the card on top with the swipe's
/// status, learn its pattern after a right swipe, drop it from the review
/// list, and go back to the first card once the index has run past the
/// remaining ones. Returns what resolving and, after a right swipe, learning
/// gave.
pub fn apply_swipe(
    db: &mut sled::Db,
    cards: &mut Vec<ThreatCard>,
    current: &mut usize,
    card: &ThreatCard,
    action: SwipeAction,
) -> ((resolve_res, learn_res): (Result<(), StoreError>, Option<Result<(), StoreError>>))
    ensures
        action != SwipeAction::Baseline ==> learn_res is None && resolve_outcome(
            *old(db),
            *final(db),
            card.id,
            swipe_status_spec(action),
            resolve_res,
        ),
        action == SwipeAction::Baseline ==> exists|mid: sled::Db|
            #[trigger] resolve_outcome(*old(db), mid, card.id, CardStatus::Baselined, resolve_res)
                && (learn_res matches Some(r) && learn_outcome(mid, *final(db), card@, r)),
        card_views(final(cards)@) == without_id(card_views(old(cards)@), card.id),
        *final(current) == (if *old(current) >= final(cards)@.len() && final(cards)@.len() != 0 {
            0
        } else {
            *old(current)
        }),
{
    let status = swipe_status(action);
    let r0 = resolve_threat(db, card.id, status);
    let r1 = match action {
        SwipeAction::Baseline => Some(f93_baseline_learn(db, card)),
        _ => None,
    };
    remove_card(cards, card.id);
    *current = index_after_swipe(*current, cards.len());
    (r0, r1)
}

/// The signal a swipe sends to a card's process.
#[derive(Debug, Clone, Copy, PartialEq, Eq, Structural)]
pub enum ProcessSignal {
    /// `SIGKILL`, after a left swipe.
    Kill,
    /// `SIGSTOP`, after an up swipe.
    Stop,
}

/// The process a swipe signals and how: a left swipe kills and an up swipe
/// stops the card's process, unless it is pid 2 or below; a right swipe
/// signals nothing.
pub fn swipe_signal(action: SwipeAction, card: &ThreatCard) -> (res: Option<(u32, ProcessSignal)>)
    ensures
        res == (match (action, card.pid) {
            (SwipeAction::Kill, Some(p)) => if p > 2 {
                Some((p, ProcessSignal::Kill))
            } else {
                None
            },
            (SwipeAction::Quarantine, Some(p)) => if p > 2 {
                Some((p, ProcessSignal::Stop))
            } else {
                None
            },
            _ => None,
        }),
{
    match action {
        SwipeAction::Baseline => None,
        SwipeAction::Kill => match signal_target(card) {
            Some(p) => Some((p, ProcessSignal::Kill)),
            None => None,
        },
        SwipeAction::Quarantine => match signal_target(card) {
            Some(p) => Some((p, ProcessSignal::Stop)),
            None => None,
        },
    }
}

/// The cards of a read, or none where the read failed.
pub fn cards_or_none(r: Result<Vec<ThreatCard>, StoreError>) -> (res: Vec<ThreatCard>)
    ensures
        res@ == (match r {
            Ok(v) => v@,
            Err(_) => Seq::<ThreatCard>::empty(),
        }),
{
    match r {
        Ok(cards) => cards,
        Err(_) => Vec::new(),
    }
}

/// The pending cards to review, or none where the store cannot be read.
pub fn load_pending(db: &sled::Db) -> (res: Vec<ThreatCard>)
    ensures
        res@.len() == 0 || exists|es: Seq<(Seq<u8>, Seq<u8>)>|
            #[trigger] full_scan::<ThreatCard>(*db, threats_tree(), es) && card_views(res@)
                == pending_of(decoded_values::<ThreatCard>(es)),
{
    cards_or_none(pending_threats(db))
}

/// f95 once it is time to read again: reload the pending cards and go back
/// to the first card once the index has run past them, so that the index
/// names a card whenever there is one.
pub fn refresh_cards(db: &sled::Db, cards: &mut Vec<ThreatCard>, current: &mut usize)
    ensures
        final(cards)@.len() == 0 || exists|es: Seq<(Seq<u8>, Seq<u8>)>|
            #[trigger] full_scan::<ThreatCard>(*db, threats_tree(), es) && card_views(
                final(cards)@,
            ) == pending_of(decoded_values::<ThreatCard>(es)),
        *final(current) == (if *old(current) >= final(cards)@.len() {
            0
        } else {
            *old(current)
        }),
        final(cards)@.len() == 0 || *final(current) < final(cards)@.len(),
{
    *cards = load_pending(db);
    *current = index_after_refresh(*current, cards.len());
}

/// The card shown after the review list is read again: back to the first
/// once the index has run past the list.
pub fn index_after_refresh(current: usize, len: usize) -> (res: usize)
    ensures
        res == (if current >= len {
            0
        } else {
            current
        }),
{
    if current >= len {
        0
    } else {
        current
    }
}

/// The border and fill colours of a severity, as RGB.
pub open spec fn severity_colors_spec(s: Severity) -> ((u8, u8, u8), (u8, u8, u8)) {
    match s {
        Severity::Green => ((0x50, 0xb4, 0x32), (0x2d, 0x5a, 0x2d)),
        Severity::Yellow => ((0xd4, 0xd4, 0x32), (0x5a, 0x5a, 0x2d)),
        Severity::Orange => ((0xff, 0x78, 0x14), (0x5a, 0x3a, 0x1a)),
        Severity::Red => ((0xc8, 0x32, 0x32), (0x5a, 0x1a, 0x1a)),
    }
}

/// The border and fill colours of a severity, as RGB.
pub fn severity_colors(s: &Severity) -> (res: ((u8, u8, u8), (u8, u8, u8)))
    ensures
        res == severity_colors_spec(*s),
{
    match s {
        Severity::Green => ((0x50, 0xb4, 0x32), (0x2d, 0x5a, 0x2d)),
        Severity::Yellow => ((0xd4, 0xd4, 0x32), (0x5a, 0x5a, 0x2d)),
        Severity::Orange => ((0xff, 0x78, 0x14), (0x5a, 0x3a, 0x1a)),
        Severity::Red => ((0xc8, 0x32, 0x32), (0x5a, 0x1a, 0x1a)),
    }
}

/// The name a card shows for a severity, in capitals.
pub open spec fn severity_label_spec(s: Severity) -> Seq<char> {
    match s {
        Severity::Green => "GREEN"@,
        Severity::Yellow => "YELLOW"@,
        Severity::Orange => "ORANGE"@,
        Severity::Red => "RED"@,
    }
}

fn severity_label(s: &Severity) -> (res: &'static str)
    ensures
        res@ == severity_label_spec(*s),
{
    match s {
        Severity::Green => "GREEN",
        Severity::Yellow => "YELLOW",
        Severity::Orange => "ORANGE",
        Severity::Red => "RED",
    }
}

/// The badge line of a card: `TAG SEVERITY — module`.
pub open spec fn card_badge_spec(c: ThreatCardView) -> Seq<char> {
    module_icon_spec(c.module) + " "@ + severity_label_spec(c.severity) + " — "@ + module_label(
        c.module,
    )
}

/// The badge line of a card.
pub fn card_badge(card: &ThreatCard) -> (res: String)
    ensures
        res@ == card_badge_spec(card@),
{
    let mut v = chars_of(module_icon(&card.module));
    push_str(&mut v, " ");
    push_str(&mut v, severity_label(&card.severity));
    push_str(&mut v, " — ");
    push_str(&mut v, card.module.label());
    string_of(v.as_slice())
}

/// The detail lines of a card, each where the card has the detail:
/// `PID: pid`, `Path: path`, `Cmd: command`.
pub open spec fn card_details_spec(c: ThreatCardView) -> Seq<Seq<char>> {
    (match c.pid {
        Some(p) => seq!["PID: "@ + decimal(p as nat)],
        None => Seq::empty(),
    }) + (match c.file_path {
        Some(p) => seq!["Path: "@ + p],
        None => Seq::empty(),
    }) + (match c.command {
        Some(m) => seq!["Cmd: "@ + m],
        None => Seq::empty(),
    })
}

/// The detail lines of a card.
pub fn card_details(card: &ThreatCard) -> (res: Vec<String>)
    ensures
        res@.map_values(|l: String| l@) == card_details_spec(card@),
{
    let mut out: Vec<String> = Vec::new();
    match card.pid {
        Some(p) => {
            let mut v = chars_of("PID: ");
            let d = decimal_chars(p as u64);
            push_all(&mut v, d.as_slice());
            out.push(string_of(v.as_slice()));
        },
        None => {},
    }
    let ghost a = out@.map_values(|l: String| l@);
    match &card.file_path {
        Some(p) => {
            let mut v = chars_of("Path: ");
            push_str(&mut v, p.as_str());
            out.push(string_of(v.as_slice()));
        },
        None => {},
    }
    let ghost b = out@.map_values(|l: String| l@);
    match &card.command {
        Some(m) => {
            let mut v = chars_of("Cmd: ");
            push_str(&mut v, m.as_str());
            out.push(string_of(v.as_slice()));
        },
        None => {},
    }
    assert(out@.map_values(|l: String| l@) =~= card_details_spec(card@));
    out
}

/// The short tag a card shows for its module.
pub open spec fn module_icon_spec(m: Module) -> Seq<char> {
    match m {
        Module::Network => "net"@,
        Module::Process => "proc"@,
        Module::Cron => "cron"@,
        Module::Ssh => "ssh"@,
        Module::Files => "file"@,
        Module::Persistence => "persist"@,
        Module::Rootkit => "rkit"@,
        Module::Logs => "log"@,
    }
}

/// The short tag a card shows for its module.
pub fn module_icon(m: &Module) -> (res: &'static str)
    ensures
        res@ == module_icon_spec(*m),
{
    match m {
        Module::Network => "net",
        Module::Process => "proc",
        Module::Cron => "cron",
        Module::Ssh => "ssh",
        Module::Files => "file",
        Module::Persistence => "persist",
        Module::Rootkit => "rkit",
        Module::Logs => "log",
    }
}

} // verus!
