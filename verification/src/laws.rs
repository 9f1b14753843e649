//! Laws of the threat store that relate its operations.

use vstd::prelude::*;
use vstd::arithmetic::div_mod::{lemma_add_mod_noop, lemma_fundamental_div_mod, lemma_small_mod};

use crate::codec::Record;
use crate::db::{
    db_tree, id_step, is_prefix, is_prefix_scan, lemma_bytes_lt_asymmetric, lemma_bytes_lt_irreflexive,
};
use crate::error::StoreError;
use crate::store::{
    card_key, count_status, decodes_all, decoded_values, duplicate_scan, full_scan, get_result,
    history_tree, holds_at, lemma_card_key_order, pending_of, resolved, threats_tree,
};
use crate::types::{CardStatus, ThreatCard, ThreatCardView};

verus! {

/// A read of a key gives back the value last put there (or fails in the
/// database).
pub proof fn law_read_after_write<V: Record>(
    before: Map<Seq<u8>, Seq<u8>>,
    after: Map<Seq<u8>, Seq<u8>>,
    key: Seq<u8>,
    v: V::V,
    res: Result<Option<V>, StoreError>,
)
    requires
        holds_at::<V>(before, after, key, v),
        get_result(after, key, res),
    ensures
        (res matches Ok(Some(x)) && x@ == v) || res matches Err(StoreError::Db(_)),
{
}

/// A second put under the same key replaces the first: the tree then holds
/// the second value, and the same number of keys as after the first.
pub proof fn law_put_overwrites<V: Record>(
    t0: Map<Seq<u8>, Seq<u8>>,
    t1: Map<Seq<u8>, Seq<u8>>,
    t2: Map<Seq<u8>, Seq<u8>>,
    key: Seq<u8>,
    v1: V::V,
    v2: V::V,
)
    requires
        t0.dom().finite(),
        holds_at::<V>(t0, t1, key, v1),
        holds_at::<V>(t1, t2, key, v2),
    ensures
        V::stored_as(t2[key]) == Some(v2),
        t2.dom().len() == t1.dom().len(),
        t1.dom().len() == if t0.contains_key(key) {
            t0.dom().len()
        } else {
            t0.dom().len() + 1
        },
{
    lemma_holds_at_dom::<V>(t0, t1, key, v1);
    lemma_holds_at_dom::<V>(t1, t2, key, v2);
}

proof fn lemma_holds_at_dom<V: Record>(
    before: Map<Seq<u8>, Seq<u8>>,
    after: Map<Seq<u8>, Seq<u8>>,
    key: Seq<u8>,
    v: V::V,
)
    requires
        before.dom().finite(),
        holds_at::<V>(before, after, key, v),
    ensures
        after.dom() == before.dom().insert(key),
        after.dom().finite(),
        after.dom().len() == if before.contains_key(key) {
            before.dom().len()
        } else {
            before.dom().len() + 1
        },
{
    assert(after.dom() =~= before.dom().insert(key)) by {
        assert forall|k: Seq<u8>| after.dom().contains(k) <==> before.dom().insert(key).contains(k) by {
            if k != key {
                assert(after.remove(key).dom().contains(k) == after.dom().contains(k));
                assert(before.remove(key).dom().contains(k) == before.dom().contains(k));
            }
        }
    }
}

/// Resolving a card that the threats tree holds moves it: the threats tree
/// loses the key, the history tree then gives back the card with the new
/// status and every other field unchanged, and the counts move by one.
pub proof fn law_resolve_moves_card(
    before: sled::Db,
    after: sled::Db,
    id: u64,
    status: CardStatus,
    c: ThreatCardView,
)
    requires
        db_tree(before, threats_tree()).dom().finite(),
        db_tree(before, history_tree()).dom().finite(),
        db_tree(before, threats_tree()).contains_key(card_key(id)),
        <ThreatCard as Record>::stored_as(db_tree(before, threats_tree())[card_key(id)]) == Some(c),
        resolved(before, after, id, status),
    ensures
        !db_tree(after, threats_tree()).contains_key(card_key(id)),
        <ThreatCard as Record>::stored_as(db_tree(after, history_tree())[card_key(id)]) == Some(
            ThreatCardView { status: status, ..c },
        ),
        db_tree(after, threats_tree()).dom().len() + 1 == db_tree(before, threats_tree()).dom().len(),
        db_tree(after, history_tree()).dom().len() == if db_tree(
            before,
            history_tree(),
        ).contains_key(card_key(id)) {
            db_tree(before, history_tree()).dom().len()
        } else {
            db_tree(before, history_tree()).dom().len() + 1
        },
{
    let k = card_key(id);
    lemma_holds_at_dom::<ThreatCard>(
        db_tree(before, history_tree()),
        db_tree(after, history_tree()),
        k,
        ThreatCardView { status: status, ..c },
    );
    assert(db_tree(after, threats_tree()).dom() =~= db_tree(before, threats_tree()).dom().remove(k));
}

/// Resolving an identifier that the threats tree does not hold changes
/// nothing.
pub proof fn law_resolve_absent_is_noop(before: sled::Db, after: sled::Db, id: u64, status: CardStatus)
    requires
        !db_tree(before, threats_tree()).contains_key(card_key(id)),
        resolved(before, after, id, status),
    ensures
        forall|n: Seq<u8>| #[trigger] db_tree(after, n) == db_tree(before, n),
{
}

/// Every card that `pending_of` keeps is pending, in the order given, and a
/// sequence of pending cards is kept whole.
pub proof fn law_pending_only(cs: Seq<ThreatCardView>)
    ensures
        forall|i: int|
            0 <= i < pending_of(cs).len() ==> (#[trigger] pending_of(cs)[i]).status
                == CardStatus::Pending,
        pending_of(cs).len() <= cs.len(),
        (forall|i: int| 0 <= i < cs.len() ==> (#[trigger] cs[i]).status == CardStatus::Pending)
            ==> pending_of(cs) == cs,
    decreases cs.len(),
{
    if cs.len() > 0 {
        law_pending_only(cs.drop_last());
        if forall|i: int| 0 <= i < cs.len() ==> (#[trigger] cs[i]).status == CardStatus::Pending {
            assert forall|i: int| 0 <= i < cs.drop_last().len() implies (
            #[trigger] cs.drop_last()[i]).status == CardStatus::Pending by {
                assert(cs.drop_last()[i] == cs[i]);
            }
            assert(cs.drop_last().push(cs.last()) =~= cs);
        }
    }
}

/// The resolution counts never exceed the number of history cards.
pub proof fn law_resolution_counts_bounded(h: Seq<ThreatCardView>)
    ensures
        count_status(h, CardStatus::Baselined) + count_status(h, CardStatus::Killed)
            + count_status(h, CardStatus::Quarantined) + count_status(h, CardStatus::AutoKilled)
            <= h.len(),
    decreases h.len(),
{
    if h.len() > 0 {
        law_resolution_counts_bounded(h.drop_last());
    }
}

/// Once a pending card is in the threats tree, `is_duplicate` finds it by
/// its module and description, provided every stored card decodes.
pub proof fn law_written_card_is_duplicate(
    es: Seq<(Seq<u8>, Seq<u8>)>,
    t: Map<Seq<u8>, Seq<u8>>,
    key: Seq<u8>,
    c: ThreatCardView,
)
    requires
        is_prefix_scan(es, t, Seq::empty()),
        decodes_all::<ThreatCard>(es),
        t.contains_key(key),
        <ThreatCard as Record>::stored_as(t[key]) == Some(c),
        c.status == CardStatus::Pending,
    ensures
        duplicate_scan(es, c.module, c.description) == Some(true),
{
    assert(is_prefix_scan(es, t, Seq::empty()));
    assert(key.subrange(0, 0) =~= Seq::<u8>::empty());
    assert(is_prefix(Seq::empty(), key));
    assert(exists|i: int| 0 <= i < es.len() && #[trigger] es[i].0 == key);
    let i = choose|i: int| 0 <= i < es.len() && #[trigger] es[i].0 == key;
    lemma_duplicate_found(es, c, i);
}

proof fn lemma_duplicate_found(es: Seq<(Seq<u8>, Seq<u8>)>, c: ThreatCardView, i: int)
    requires
        0 <= i < es.len(),
        decodes_all::<ThreatCard>(es),
        <ThreatCard as Record>::stored_as(es[i].1) == Some(c),
        c.status == CardStatus::Pending,
    ensures
        duplicate_scan(es, c.module, c.description) == Some(true),
    decreases i,
{
    assert(<ThreatCard as Record>::stored_as(es[0].1) is Some);
    if i > 0 {
        let rest = es.drop_first();
        assert(rest[i - 1] == es[i]);
        assert forall|j: int| 0 <= j < rest.len() implies (#[trigger] <ThreatCard as Record>::stored_as(
            rest[j].1,
        )) is Some by {
            assert(rest[j] == es[j + 1]);
        }
        lemma_duplicate_found(rest, c, i - 1);
    }
}

/// Every card that a tree holds is stored under its own key, and its
/// identifier is below 10^16, the keys' width.
pub open spec fn keyed_by_id(t: Map<Seq<u8>, Seq<u8>>) -> bool {
    forall|k: Seq<u8>|
        #[trigger] t.contains_key(k) ==> match <ThreatCard as Record>::stored_as(t[k]) {
            Some(c) => k == card_key(c.id) && c.id < 10_000_000_000_000_000u64,
            None => true,
        }
}

/// Writing a card under its own key keeps every card of the tree under its
/// own key.
pub proof fn law_write_keeps_keyed_by_id(
    before: Map<Seq<u8>, Seq<u8>>,
    after: Map<Seq<u8>, Seq<u8>>,
    c: ThreatCardView,
)
    requires
        keyed_by_id(before),
        c.id < 10_000_000_000_000_000u64,
        holds_at::<ThreatCard>(before, after, card_key(c.id), c),
    ensures
        keyed_by_id(after),
{
    let key = card_key(c.id);
    assert forall|k: Seq<u8>| #[trigger] after.contains_key(k) implies match <ThreatCard as Record>::stored_as(after[k]) {
        Some(d) => k == card_key(d.id) && d.id < 10_000_000_000_000_000u64,
        None => true,
    } by {
        if k != key {
            assert(after.remove(key).contains_key(k));
            assert(before.remove(key).contains_key(k));
            assert(after[k] == after.remove(key)[k]);
            assert(before[k] == before.remove(key)[k]);
        }
    }
}

/// The cards of a full scan come in increasing identifier order when every
/// card is stored under its own key.
proof fn lemma_scan_ids_increase(db: sled::Db, es: Seq<(Seq<u8>, Seq<u8>)>)
    requires
        full_scan::<ThreatCard>(db, threats_tree(), es),
        keyed_by_id(db_tree(db, threats_tree())),
    ensures
        forall|i: int, j: int|
            0 <= i < j < es.len() ==> (#[trigger] decoded_values::<ThreatCard>(es)[i]).id
                < (#[trigger] decoded_values::<ThreatCard>(es)[j]).id,
{
    let t = db_tree(db, threats_tree());
    let dv = decoded_values::<ThreatCard>(es);
    assert forall|i: int, j: int| 0 <= i < j < es.len() implies (#[trigger] dv[i]).id < (
    #[trigger] dv[j]).id by {
        assert(t.contains_key(es[i].0));
        assert(t.contains_key(es[j].0));
        assert(<ThreatCard as Record>::stored_as(es[i].1) is Some);
        assert(<ThreatCard as Record>::stored_as(es[j].1) is Some);
        let ci = dv[i];
        let cj = dv[j];
        assert(es[i].0 == card_key(ci.id));
        assert(es[j].0 == card_key(cj.id));
        if ci.id == cj.id {
            lemma_bytes_lt_irreflexive(es[i].0);
        } else if cj.id < ci.id {
            lemma_card_key_order(cj.id, ci.id);
            lemma_bytes_lt_asymmetric(es[j].0, es[i].0);
        }
    }
}

proof fn lemma_pending_of_increasing(cs: Seq<ThreatCardView>)
    requires
        forall|i: int, j: int| 0 <= i < j < cs.len() ==> (#[trigger] cs[i]).id < (#[trigger] cs[j]).id,
    ensures
        forall|i: int, j: int|
            0 <= i < j < pending_of(cs).len() ==> (#[trigger] pending_of(cs)[i]).id < (
            #[trigger] pending_of(cs)[j]).id,
        forall|k: int|
            0 <= k < pending_of(cs).len() ==> exists|m: int|
                0 <= m < cs.len() && #[trigger] pending_of(cs)[k] == cs[m],
    decreases cs.len(),
{
    if cs.len() > 0 {
        let init = cs.drop_last();
        assert forall|i: int, j: int| 0 <= i < j < init.len() implies (#[trigger] init[i]).id < (
        #[trigger] init[j]).id by {
            assert(init[i] == cs[i] && init[j] == cs[j]);
        }
        lemma_pending_of_increasing(init);
        let p = pending_of(init);
        assert forall|k: int| 0 <= k < p.len() implies (#[trigger] p[k]).id < cs.last().id by {
            let m = choose|m: int| 0 <= m < init.len() && #[trigger] p[k] == init[m];
            assert(init[m] == cs[m]);
        }
        assert forall|k: int| 0 <= k < p.len() implies exists|m: int|
            0 <= m < cs.len() && #[trigger] p[k] == cs[m] by {
            let m = choose|m: int| 0 <= m < init.len() && #[trigger] p[k] == init[m];
            assert(init[m] == cs[m]);
        }
        if cs.last().status == CardStatus::Pending {
            let q = p.push(cs.last());
            assert(q[p.len() as int] == cs[cs.len() - 1]);
            assert forall|k: int| 0 <= k < p.len() implies q[k] == p[k] by {}
        }
    }
}

/// The pending cards come out in increasing identifier order, that is in
/// the order they were found, when every card of the threats tree is stored
/// under its own key (as `write_threat` stores it) and identifiers stay below
/// 10^16.
pub proof fn law_pending_in_id_order(db: sled::Db, es: Seq<(Seq<u8>, Seq<u8>)>)
    requires
        full_scan::<ThreatCard>(db, threats_tree(), es),
        keyed_by_id(db_tree(db, threats_tree())),
    ensures
        forall|i: int, j: int|
            0 <= i < j < pending_of(decoded_values::<ThreatCard>(es)).len() ==> (
            #[trigger] pending_of(decoded_values::<ThreatCard>(es))[i]).id < (
            #[trigger] pending_of(decoded_values::<ThreatCard>(es))[j]).id,
{
    lemma_scan_ids_increase(db, es);
    lemma_pending_of_increasing(decoded_values::<ThreatCard>(es));
}

/// The generator's value after `k` identifiers were taken from value `g`.
pub open spec fn id_after(g: u64, k: nat) -> u64
    decreases k,
{
    if k == 0 {
        g
    } else {
        id_step(id_after(g, (k - 1) as nat))
    }
}

proof fn lemma_id_after_mod(g: u64, k: nat)
    ensures
        id_after(g, k) as int == (g + k) % 0x1_0000_0000_0000_0000,
    decreases k,
{
    let m: int = 0x1_0000_0000_0000_0000;
    if k == 0 {
        lemma_small_mod(g as nat, m as nat);
    } else {
        lemma_id_after_mod(g, (k - 1) as nat);
        let p = id_after(g, (k - 1) as nat);
        lemma_add_mod_noop(g + k - 1, 1, m);
        lemma_small_mod(1, m as nat);
        if p == u64::MAX {
            assert((p + 1) % m == 0) by {
                lemma_fundamental_div_mod(p + 1, m);
                vstd::arithmetic::div_mod::lemma_mod_self_0(m);
            }
        } else {
            lemma_small_mod((p + 1) as nat, m as nat);
        }
    }
}

/// Identifiers taken one after another from the generator never repeat
/// within 2^64 takes: the `i`-th and the `j`-th differ.
pub proof fn law_ids_never_repeat(g: u64, i: nat, j: nat)
    requires
        i < j < 0x1_0000_0000_0000_0000,
    ensures
        id_after(g, i) != id_after(g, j),
{
    let m: int = 0x1_0000_0000_0000_0000;
    lemma_id_after_mod(g, i);
    lemma_id_after_mod(g, j);
    lemma_fundamental_div_mod(g + i, m);
    lemma_fundamental_div_mod(g + j, m);
    let qi = (g + i) / m;
    let qj = (g + j) / m;
    if id_after(g, i) == id_after(g, j) {
        assert(j - i == m * (qj - qi)) by (nonlinear_arith)
            requires
                g + i == m * qi + (g + i) % m,
                g + j == m * qj + (g + j) % m,
                (g + i) % m == (g + j) % m,
        ;
        assert(false) by (nonlinear_arith)
            requires
                j - i == m * (qj - qi),
                0 < j - i < m,
                m > 0,
        ;
    }
}

} // verus!
