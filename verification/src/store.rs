//! The threat store: three sled trees holding threat cards and baseline
//! patterns, each value stored compressed.
//!
//! `threats` holds the cards awaiting review, keyed by the card identifier
//! written as sixteen zero-padded decimal digits; `history` holds the
//! resolved cards under the same keys; `baseline` holds learned patterns
//! keyed by `module-label:value`.

use vstd::prelude::*;

use crate::codec::Record;
use crate::db::{
    all_trees_unchanged, bytes_lt, db_generate_id, db_get, db_insert, db_remove, lemma_full_scan_len,
    db_scan_prefix, db_tree, entries_view, id_step, is_prefix_scan, next_generated_id,
    other_trees_unchanged,
};
use crate::error::StoreError;
use crate::text::{
    chars_lt, chars_of, digits_value, is_digit, lemma_chars_lt_asymmetric,
    lemma_chars_lt_irreflexive, lemma_fixed_digits_value, decimal, fixed_digits, lemma_fixed_digits_ascii, lemma_fixed_digits_order,
    lemma_zero_pad_fixed, pow10, push_str, str_eq, string_of, zero_pad, zero_padded_decimal,
};
use crate::types::{
    module_label, BaselinePattern, BaselinePatternView, CardStatus, Module, Stats, ThreatCard,
    ThreatCardView,
};

verus! {

/// The tree of cards awaiting review.
pub const TREE_THREATS: &'static str = "threats";

/// The tree of learned baseline patterns.
pub const TREE_BASELINE: &'static str = "baseline";

/// The tree of resolved cards.
pub const TREE_HISTORY: &'static str = "history";

/// The bytes of a key or tree name given as text.
pub open spec fn utf8(s: Seq<char>) -> Seq<u8> {
    vstd::utf8::encode_utf8(s)
}

/// The key of a card: its identifier in decimal, zero-padded to sixteen
/// digits.
pub open spec fn threat_key_spec(id: u64) -> Seq<char> {
    zero_pad(decimal(id as nat), 16)
}

/// The key of the card with identifier `id`.
pub fn threat_key(id: u64) -> (res: String)
    ensures
        res@ == threat_key_spec(id),
{
    let v = zero_padded_decimal(id, 16);
    string_of(v.as_slice())
}

/// Card keys order as their identifiers do, for identifiers below 10^16
/// (from there on the keys outgrow the padding).
pub proof fn law_threat_key_order(a: u64, b: u64)
    requires
        a < b < 10_000_000_000_000_000u64,
    ensures
        chars_lt(threat_key_spec(a), threat_key_spec(b)),
{
    reveal_with_fuel(pow10, 17);
    assert(pow10(16) == 10_000_000_000_000_000);
    lemma_zero_pad_fixed(a as nat, 16);
    lemma_zero_pad_fixed(b as nat, 16);
    lemma_fixed_digits_order(a as nat, b as nat, 16);
}

/// Below 10^16 a card key is sixteen decimal digits that write the card's
/// identifier, and keys order exactly as identifiers do: one key orders
/// before another if and only if its identifier is smaller.
pub proof fn law_threat_key_format(a: u64, b: u64)
    requires
        a < 10_000_000_000_000_000u64,
        b < 10_000_000_000_000_000u64,
    ensures
        threat_key_spec(a).len() == 16,
        forall|i: int| 0 <= i < 16 ==> is_digit(#[trigger] threat_key_spec(a)[i]),
        digits_value(threat_key_spec(a)) == a,
        chars_lt(threat_key_spec(a), threat_key_spec(b)) <==> a < b,
{
    reveal_with_fuel(pow10, 17);
    assert(pow10(16) == 10_000_000_000_000_000);
    lemma_zero_pad_fixed(a as nat, 16);
    lemma_fixed_digits_value(a as nat, 16);
    assert((a as nat) % pow10(16) == a);
    if a < b {
        law_threat_key_order(a, b);
    } else if a == b {
        lemma_chars_lt_irreflexive(threat_key_spec(a));
    } else {
        law_threat_key_order(b, a);
        lemma_chars_lt_asymmetric(threat_key_spec(b), threat_key_spec(a));
    }
}

/// The stored keys of cards order as their identifiers do, for identifiers
/// below 10^16.
pub proof fn lemma_card_key_order(a: u64, b: u64)
    requires
        a < b < 10_000_000_000_000_000u64,
    ensures
        bytes_lt(card_key(a), card_key(b)),
{
    law_threat_key_order(a, b);
    reveal_with_fuel(pow10, 17);
    assert(pow10(16) == 10_000_000_000_000_000);
    lemma_zero_pad_fixed(a as nat, 16);
    lemma_zero_pad_fixed(b as nat, 16);
    let ka = threat_key_spec(a);
    let kb = threat_key_spec(b);
    lemma_fixed_digits_ascii(a as nat, 16);
    lemma_fixed_digits_ascii(b as nat, 16);
    vstd::utf8::is_ascii_chars_encode_utf8(ka);
    vstd::utf8::is_ascii_chars_encode_utf8(kb);
    let ba = card_key(a);
    let bb = card_key(b);
    let i = choose|i: int|
        0 <= i <= ka.len() && i <= kb.len() && #[trigger] ka.subrange(0, i) == kb.subrange(0, i) && (
        (i < ka.len() && i < kb.len() && (ka[i] as u32) < (kb[i] as u32)) || (i == ka.len() && i
            < kb.len()));
    assert(ba.subrange(0, i) =~= bb.subrange(0, i)) by {
        assert forall|j: int| 0 <= j < i implies ba.subrange(0, i)[j] == bb.subrange(0, i)[j] by {
            assert(ka.subrange(0, i)[j] == kb.subrange(0, i)[j]);
            assert(ka[j] as u8 == ba[j]);
            assert(kb[j] as u8 == bb[j]);
        }
    }
    if i < ka.len() && i < kb.len() {
        assert(ka[i] as u8 == ba[i]);
        assert(kb[i] as u8 == bb[i]);
        assert((ka[i] as nat) < 128);
        assert((kb[i] as nat) < 128);
        assert(ba[i] < bb[i]);
    }
    assert(bytes_lt(ba, bb));
}

/// `after` maps `key` to bytes that decode to `v`, and agrees with `before`
/// on every other key.
pub open spec fn holds_at<V: Record>(
    before: Map<Seq<u8>, Seq<u8>>,
    after: Map<Seq<u8>, Seq<u8>>,
    key: Seq<u8>,
    v: V::V,
) -> bool {
    &&& after.contains_key(key)
    &&& V::stored_as(after[key]) == Some(v)
    &&& after.remove(key) == before.remove(key)
}

/// Put `value` into tree `tree_name` under `key`.
pub fn f97_put<V: Record>(db: &mut sled::Db, tree_name: &str, key: &str, value: &V) -> (res:
    Result<(), StoreError>)
    ensures
        other_trees_unchanged(*old(db), *final(db), utf8(tree_name@)),
        next_generated_id(*final(db)) == next_generated_id(*old(db)),
        res is Ok ==> holds_at::<V>(
            db_tree(*old(db), utf8(tree_name@)),
            db_tree(*final(db), utf8(tree_name@)),
            utf8(key@),
            value@,
        ),
        res matches Err(e) ==> e is Db || (e is Encode && !V::fits(value@) && !V::bounded(value@) && all_trees_unchanged(
            *old(db),
            *final(db),
        )),
        !V::fits(value@) ==> (res matches Err(e) && e is Encode),
{
    let encoded = match value.encode() {
        Ok(b) => b,
        Err(e) => return Err(e),
    };
    let ghost bytes = encoded@;
    match db_insert(db, tree_name.as_bytes(), key.as_bytes(), encoded) {
        Ok(()) => {
            assert(db_tree(*final(db), utf8(tree_name@)).remove(utf8(key@)) =~= db_tree(
                *old(db),
                utf8(tree_name@),
            ).remove(utf8(key@)));
            Ok(())
        },
        Err(e) => Err(StoreError::Db(e)),
    }
}


/// The text that a key's bytes read as: the decoded text where the bytes
/// are UTF-8, with replacement characters otherwise.
pub uninterp spec fn utf8_lossy(bytes: Seq<u8>) -> Seq<char>;

/// The text of a key.
///
/// Calls `String::from_utf8_lossy`. The contract claims that the result is a
/// function of the bytes, and that valid UTF-8 reads as the text it encodes.
#[verifier::external_body]
fn lossy_string(bytes: &[u8]) -> (res: String)
    ensures
        res@ == utf8_lossy(bytes@),
        vstd::utf8::valid_utf8(bytes@) ==> res@ == vstd::utf8::decode_utf8(bytes@),
{
    String::from_utf8_lossy(bytes).into_owned()
}

/// `res` is what reading `key` of tree `t` can give: nothing where the key
/// is absent, the decoded value where it decodes, a decoding error where it
/// does not; or a database error.
pub open spec fn get_result<V: Record>(
    t: Map<Seq<u8>, Seq<u8>>,
    k: Seq<u8>,
    res: Result<Option<V>, StoreError>,
) -> bool {
    match res {
        Ok(None) => !t.contains_key(k),
        Ok(Some(v)) => t.contains_key(k) && V::stored_as(t[k]) == Some(v@),
        Err(e) => e is Db || (t.contains_key(k) && V::stored_as(t[k]) is None && (e is Decompress
            || e is Decode)),
    }
}

/// Get the value stored in tree `tree_name` under `key`.
pub fn f96_get<V: Record>(db: &sled::Db, tree_name: &str, key: &str) -> (res: Result<
    Option<V>,
    StoreError,
>)
    ensures
        get_result(db_tree(*db, utf8(tree_name@)), utf8(key@), res),
{
    match db_get(db, tree_name.as_bytes(), key.as_bytes()) {
        Ok(Some(bytes)) => match V::decode(bytes.as_slice()) {
            Ok(v) => Ok(Some(v)),
            Err(e) => Err(e),
        },
        Ok(None) => Ok(None),
        Err(e) => Err(StoreError::Db(e)),
    }
}

/// Every stored value of a scan decodes.
pub open spec fn decodes_all<V: Record>(es: Seq<(Seq<u8>, Seq<u8>)>) -> bool {
    forall|i: int| 0 <= i < es.len() ==> (#[trigger] V::stored_as(es[i].1)) is Some
}

/// The decoded values of a scan, in order.
pub open spec fn decoded_values<V: Record>(es: Seq<(Seq<u8>, Seq<u8>)>) -> Seq<V::V> {
    es.map_values(|e: (Seq<u8>, Seq<u8>)| V::stored_as(e.1).unwrap())
}

/// `items` lists the entries of `es`, keys read as text and values decoded.
pub open spec fn lists_decoded<V: Record>(
    items: Seq<(String, V)>,
    es: Seq<(Seq<u8>, Seq<u8>)>,
) -> bool {
    &&& items.len() == es.len()
    &&& forall|i: int|
        0 <= i < es.len() ==> {
            &&& (#[trigger] items[i]).0@ == utf8_lossy(es[i].0)
            &&& V::stored_as(es[i].1) == Some(items[i].1@)
        }
}

/// Scan all entries of tree `tree_name` whose key starts with `prefix`, in
/// key order, decoding each value.
pub fn scan_prefix<V: Record>(db: &sled::Db, tree_name: &str, prefix: &str) -> (res: Result<
    Vec<(String, V)>,
    StoreError,
>)
    ensures
        res matches Ok(items) ==> exists|es: Seq<(Seq<u8>, Seq<u8>)>|
            is_prefix_scan(es, db_tree(*db, utf8(tree_name@)), utf8(prefix@))
                && decodes_all::<V>(es) && lists_decoded(items@, es),
        res matches Err(e) ==> e is Db || ((e is Decompress || e is Decode) && exists|
            es: Seq<(Seq<u8>, Seq<u8>)>,
        |
            is_prefix_scan(es, db_tree(*db, utf8(tree_name@)), utf8(prefix@))
                && !decodes_all::<V>(es)),
{
    let raw = match db_scan_prefix(db, tree_name.as_bytes(), prefix.as_bytes()) {
        Ok(r) => r,
        Err(e) => return Err(StoreError::Db(e)),
    };
    let ghost es = entries_view(raw@);
    let mut results: Vec<(String, V)> = Vec::new();
    let mut i: usize = 0;
    while i < raw.len()
        invariant
            i <= raw@.len(),
            es == entries_view(raw@),
            is_prefix_scan(es, db_tree(*db, utf8(tree_name@)), utf8(prefix@)),
            results@.len() == i,
            forall|j: int|
                0 <= j < i ==> {
                    &&& (#[trigger] results@[j]).0@ == utf8_lossy(es[j].0)
                    &&& V::stored_as(es[j].1) == Some(results@[j].1@)
                },
        decreases raw@.len() - i,
    {
        let key = lossy_string(raw[i].0.as_slice());
        match V::decode(raw[i].1.as_slice()) {
            Ok(v) => {
                results.push((key, v));
            },
            Err(e) => {
                assert(!decodes_all::<V>(es)) by {
                    assert(V::stored_as(es[i as int].1) is None);
                }
                assert(is_prefix_scan(es, db_tree(*db, utf8(tree_name@)), utf8(prefix@)));
                return Err(e);
            },
        }
        i = i + 1;
    }
    assert forall|j: int| 0 <= j < es.len() implies (#[trigger] V::stored_as(es[j].1)) is Some by {
        assert(V::stored_as(es[j].1) == Some(results@[j].1@));
    }
    assert(decodes_all::<V>(es));
    assert(lists_decoded(results@, es));
    assert(is_prefix_scan(es, db_tree(*db, utf8(tree_name@)), utf8(prefix@)));
    Ok(results)
}

/// Count the entries of tree `tree_name`.
pub fn count(db: &sled::Db, tree_name: &str) -> (res: Result<usize, StoreError>)
    ensures
        res matches Ok(n) ==> db_tree(*db, utf8(tree_name@)).dom().finite() && n == db_tree(
            *db,
            utf8(tree_name@),
        ).dom().len(),
        res matches Err(e) ==> e is Db,
{
    let empty: [u8; 0] = [];
    match db_scan_prefix(db, tree_name.as_bytes(), empty.as_slice()) {
        Ok(es) => {
            proof {
                assert(empty@ =~= Seq::<u8>::empty());
                lemma_full_scan_len(entries_view(es@), db_tree(*db, utf8(tree_name@)));
            }
            Ok(es.len())
        },
        Err(e) => Err(StoreError::Db(e)),
    }
}

/// The next identifier of the database's generator: it returns the
/// generator's next value and moves it on by one.
pub fn next_threat_id(db: &mut sled::Db) -> (res: Result<u64, StoreError>)
    ensures
        all_trees_unchanged(*old(db), *final(db)),
        next_generated_id(*final(db)) == id_step(next_generated_id(*old(db))),
        res matches Ok(id) ==> id == next_generated_id(*old(db)),
        res matches Err(e) ==> e is Db,
{
    match db_generate_id(db) {
        Ok(id) => Ok(id),
        Err(e) => Err(StoreError::Db(e)),
    }
}

/// The bytes of the threats tree's name.
pub open spec fn threats_tree() -> Seq<u8> {
    utf8(TREE_THREATS@)
}

/// The bytes of the history tree's name.
pub open spec fn history_tree() -> Seq<u8> {
    utf8(TREE_HISTORY@)
}

/// The bytes of the baseline tree's name.
pub open spec fn baseline_tree() -> Seq<u8> {
    utf8(TREE_BASELINE@)
}

/// The bytes of the key of card `id`.
pub open spec fn card_key(id: u64) -> Seq<u8> {
    utf8(threat_key_spec(id))
}

/// Write a card into the threats tree under its key.
pub fn write_threat(db: &mut sled::Db, card: &ThreatCard) -> (res: Result<(), StoreError>)
    ensures
        other_trees_unchanged(*old(db), *final(db), threats_tree()),
        next_generated_id(*final(db)) == next_generated_id(*old(db)),
        res is Ok ==> holds_at::<ThreatCard>(
            db_tree(*old(db), threats_tree()),
            db_tree(*final(db), threats_tree()),
            card_key(card.id),
            card@,
        ),
        res matches Err(e) ==> e is Db || (e is Encode && !<ThreatCard as Record>::fits(card@)
            && !<ThreatCard as Record>::bounded(card@) && all_trees_unchanged(*old(db), *final(db))),
        !<ThreatCard as Record>::fits(card@) ==> (res matches Err(e) && e is Encode),
{
    let key = threat_key(card.id);
    f97_put(db, TREE_THREATS, key.as_str(), card)
}


/// The views of a sequence of cards.
pub open spec fn card_views(cs: Seq<ThreatCard>) -> Seq<ThreatCardView> {
    cs.map_values(|c: ThreatCard| c@)
}

/// The views of a sequence of baseline patterns.
pub open spec fn pattern_views(ps: Seq<BaselinePattern>) -> Seq<BaselinePatternView> {
    ps.map_values(|p: BaselinePattern| p@)
}

/// The cards of `cs` whose status is pending, in order.
pub open spec fn pending_of(cs: Seq<ThreatCardView>) -> Seq<ThreatCardView>
    decreases cs.len(),
{
    if cs.len() == 0 {
        Seq::empty()
    } else {
        let rest = pending_of(cs.drop_last());
        if cs.last().status == CardStatus::Pending {
            rest.push(cs.last())
        } else {
            rest
        }
    }
}

/// `es` is the full scan of tree `name` of `db`, and every value in it
/// decodes.
pub open spec fn full_scan<V: Record>(db: sled::Db, name: Seq<u8>, es: Seq<(Seq<u8>, Seq<u8>)>) -> bool {
    is_prefix_scan(es, db_tree(db, name), Seq::empty()) && decodes_all::<V>(es)
}

/// Some value of the full scan of tree `name` of `db` does not decode.
pub open spec fn scan_fails<V: Record>(db: sled::Db, name: Seq<u8>) -> bool {
    exists|es: Seq<(Seq<u8>, Seq<u8>)>|
        is_prefix_scan(es, db_tree(db, name), Seq::empty()) && !decodes_all::<V>(es)
}

proof fn lemma_empty_prefix()
    ensures
        utf8(""@) == Seq::<u8>::empty(),
{
    reveal_strlit("");
    assert(utf8(""@) =~= Seq::<u8>::empty());
}

/// Every entry of tree `name`, decoded, in key order.
fn scan_all_values<V: Record>(db: &sled::Db, tree_name: &str) -> (res: Result<Vec<V>, StoreError>)
    ensures
        res matches Ok(vs) ==> exists|es: Seq<(Seq<u8>, Seq<u8>)>|
            full_scan::<V>(*db, utf8(tree_name@), es) && vs@.map_values(|v: V| v@)
                == decoded_values::<V>(es),
        res matches Err(e) ==> e is Db || ((e is Decompress || e is Decode) && scan_fails::<V>(
            *db,
            utf8(tree_name@),
        )),
{
    proof {
        lemma_empty_prefix();
    }
    let items = match scan_prefix::<V>(db, tree_name, "") {
        Ok(items) => items,
        Err(e) => return Err(e),
    };
    let ghost es = choose|es: Seq<(Seq<u8>, Seq<u8>)>|
        is_prefix_scan(es, db_tree(*db, utf8(tree_name@)), utf8(""@)) && decodes_all::<V>(es)
            && lists_decoded(items@, es);
    let mut out: Vec<V> = Vec::new();
    let mut items = items;
    let ghost all = items@;
    let mut i: usize = 0;
    let n = items.len();
    while items.len() > 0
        invariant
            lists_decoded(all, es),
            n == all.len(),
            i + items@.len() == n,
            items@ == all.subrange(i as int, n as int),
            out@.len() == i,
            forall|j: int| 0 <= j < i ==> (#[trigger] out@[j])@ == all[j].1@,
        decreases items@.len(),
    {
        let (_, v) = items.remove(0);
        out.push(v);
        i = i + 1;
    }
    assert(out@.map_values(|v: V| v@) =~= decoded_values::<V>(es)) by {
        assert forall|j: int| 0 <= j < es.len() implies out@.map_values(|v: V| v@)[j]
            == decoded_values::<V>(es)[j] by {
            assert(V::stored_as(es[j].1) == Some(all[j].1@));
        }
    }
    Ok(out)
}


/// Read all pending cards of the threats tree, in key order.
pub fn pending_threats(db: &sled::Db) -> (res: Result<Vec<ThreatCard>, StoreError>)
    ensures
        res matches Ok(cards) ==> exists|es: Seq<(Seq<u8>, Seq<u8>)>|
            full_scan::<ThreatCard>(*db, threats_tree(), es) && card_views(cards@) == pending_of(
                decoded_values::<ThreatCard>(es),
            ),
        res matches Err(e) ==> e is Db || ((e is Decompress || e is Decode) && scan_fails::<
            ThreatCard,
        >(*db, threats_tree())),
{
    let all = match scan_all_values::<ThreatCard>(db, TREE_THREATS) {
        Ok(v) => v,
        Err(e) => return Err(e),
    };
    let ghost es = choose|es: Seq<(Seq<u8>, Seq<u8>)>|
        full_scan::<ThreatCard>(*db, threats_tree(), es) && all@.map_values(|v: ThreatCard| v@)
            == decoded_values::<ThreatCard>(es);
    let ghost dv = decoded_values::<ThreatCard>(es);
    let mut out: Vec<ThreatCard> = Vec::new();
    let mut i: usize = 0;
    while i < all.len()
        invariant
            i <= all@.len(),
            all@.map_values(|v: ThreatCard| v@) == dv,
            card_views(out@) == pending_of(dv.subrange(0, i as int)),
        decreases all@.len() - i,
    {
        proof {
            assert(dv.subrange(0, i + 1).drop_last() =~= dv.subrange(0, i as int));
            assert(dv[i as int] == all@[i as int]@);
        }
        if all[i].status == CardStatus::Pending {
            let c = all[i].copy();
            out.push(c);
            assert(card_views(out@) =~= pending_of(dv.subrange(0, i as int)).push(dv[i as int]));
        }
        i = i + 1;
    }
    assert(dv.subrange(0, all@.len() as int) =~= dv);
    Ok(out)
}

/// Read all cards of the history tree, in key order.
pub fn history_cards(db: &sled::Db) -> (res: Result<Vec<ThreatCard>, StoreError>)
    ensures
        res matches Ok(cards) ==> exists|es: Seq<(Seq<u8>, Seq<u8>)>|
            full_scan::<ThreatCard>(*db, history_tree(), es) && card_views(cards@)
                == decoded_values::<ThreatCard>(es),
        res matches Err(e) ==> e is Db || ((e is Decompress || e is Decode) && scan_fails::<
            ThreatCard,
        >(*db, history_tree())),
{
    scan_all_values::<ThreatCard>(db, TREE_HISTORY)
}

/// Read all baseline patterns, in key order.
pub fn all_baselines(db: &sled::Db) -> (res: Result<Vec<BaselinePattern>, StoreError>)
    ensures
        res matches Ok(ps) ==> exists|es: Seq<(Seq<u8>, Seq<u8>)>|
            full_scan::<BaselinePattern>(*db, baseline_tree(), es) && pattern_views(ps@)
                == decoded_values::<BaselinePattern>(es),
        res matches Err(e) ==> e is Db || ((e is Decompress || e is Decode) && scan_fails::<
            BaselinePattern,
        >(*db, baseline_tree())),
{
    scan_all_values::<BaselinePattern>(db, TREE_BASELINE)
}


/// What `is_duplicate` finds walking the entries `es` in order: `true` at the
/// first pending card of module `m` with description `d`, `false` when none
/// is left, `None` when a value before any match does not decode.
pub open spec fn duplicate_scan(es: Seq<(Seq<u8>, Seq<u8>)>, m: Module, d: Seq<char>) -> Option<
    bool,
>
    decreases es.len(),
{
    if es.len() == 0 {
        Some(false)
    } else {
        match <ThreatCard as Record>::stored_as(es[0].1) {
            None => None,
            Some(c) => if c.status == CardStatus::Pending && c.module == m && c.description == d {
                Some(true)
            } else {
                duplicate_scan(es.drop_first(), m, d)
            },
        }
    }
}

/// Whether a pending card of the same module and description is already in
/// the threats tree.
pub fn is_duplicate(db: &sled::Db, module: &Module, description: &str) -> (res: Result<
    bool,
    StoreError,
>)
    ensures
        res matches Ok(b) ==> exists|es: Seq<(Seq<u8>, Seq<u8>)>|
            is_prefix_scan(es, db_tree(*db, threats_tree()), Seq::empty()) && duplicate_scan(
                es,
                *module,
                description@,
            ) == Some(b),
        res matches Err(e) ==> e is Db || ((e is Decompress || e is Decode) && exists|
            es: Seq<(Seq<u8>, Seq<u8>)>,
        |
            is_prefix_scan(es, db_tree(*db, threats_tree()), Seq::empty()) && duplicate_scan(
                es,
                *module,
                description@,
            ) is None),
{
    proof {
        lemma_empty_prefix();
    }
    let raw = match db_scan_prefix(db, TREE_THREATS.as_bytes(), "".as_bytes()) {
        Ok(r) => r,
        Err(e) => return Err(StoreError::Db(e)),
    };
    let ghost es = entries_view(raw@);
    assert(es.skip(0) =~= es);
    let mut i: usize = 0;
    while i < raw.len()
        invariant
            i <= raw@.len(),
            es == entries_view(raw@),
            is_prefix_scan(es, db_tree(*db, threats_tree()), Seq::empty()),
            duplicate_scan(es, *module, description@) == duplicate_scan(
                es.skip(i as int),
                *module,
                description@,
            ),
        decreases raw@.len() - i,
    {
        assert(es.skip(i as int)[0] == es[i as int]);
        assert(es.skip(i as int).drop_first() =~= es.skip(i + 1));
        match ThreatCard::decode(raw[i].1.as_slice()) {
            Ok(card) => {
                if card.status == CardStatus::Pending && card.module == *module && str_eq(
                    card.description.as_str(),
                    description,
                ) {
                    return Ok(true);
                }
            },
            Err(e) => {
                return Err(e);
            },
        }
        i = i + 1;
    }
    assert(es.skip(raw@.len() as int) =~= Seq::<(Seq<u8>, Seq<u8>)>::empty());
    Ok(false)
}

/// The tree names differ from each other.
pub proof fn lemma_tree_names_distinct()
    ensures
        threats_tree() != history_tree(),
        threats_tree() != baseline_tree(),
        history_tree() != baseline_tree(),
{
    reveal_strlit("threats");
    reveal_strlit("history");
    reveal_strlit("baseline");
    vstd::utf8::encode_utf8_decode_utf8(TREE_THREATS@);
    vstd::utf8::encode_utf8_decode_utf8(TREE_HISTORY@);
    vstd::utf8::encode_utf8_decode_utf8(TREE_BASELINE@);
    assert(TREE_THREATS@[0] != TREE_HISTORY@[0]);
    assert(TREE_THREATS@[0] != TREE_BASELINE@[0]);
    assert(TREE_HISTORY@[0] != TREE_BASELINE@[0]);
}

/// `after` differs from `before` at most in trees `a` and `b`.
pub open spec fn others_unchanged2(before: sled::Db, after: sled::Db, a: Seq<u8>, b: Seq<u8>) -> bool {
    forall|n: Seq<u8>| n != a && n != b ==> #[trigger] db_tree(after, n) == db_tree(before, n)
}

/// What resolving card `id` with `status` makes of the database: where the
/// threats tree holds the card, it leaves that tree and enters the history
/// tree under the same key with the new status, every other field kept;
/// where it does not, nothing changes.
pub open spec fn resolved(before: sled::Db, after: sled::Db, id: u64, status: CardStatus) -> bool {
    let k = card_key(id);
    let t0 = db_tree(before, threats_tree());
    if !t0.contains_key(k) {
        all_trees_unchanged(before, after)
    } else {
        match <ThreatCard as Record>::stored_as(t0[k]) {
            Some(c) => {
                &&& db_tree(after, threats_tree()) == t0.remove(k)
                &&& holds_at::<ThreatCard>(
                    db_tree(before, history_tree()),
                    db_tree(after, history_tree()),
                    k,
                    ThreatCardView { status: status, ..c },
                )
                &&& others_unchanged2(before, after, threats_tree(), history_tree())
            },
            None => false,
        }
    }
}

/// What a call of `resolve_threat` with result `res` makes of the database:
/// on success the card is resolved; a failure is a database failure, a
/// stored card whose resolved form is too large to encode, or a stored card
/// that does not decode, the last two changing nothing.
pub open spec fn resolve_outcome(
    before: sled::Db,
    after: sled::Db,
    id: u64,
    status: CardStatus,
    res: Result<(), StoreError>,
) -> bool {
    &&& next_generated_id(after) == next_generated_id(before)
    &&& res is Ok ==> resolved(before, after, id, status)
    &&& res matches Err(e) ==> e is Db || (e is Encode && db_tree(
        before,
        threats_tree(),
    ).contains_key(card_key(id)) && match <ThreatCard as Record>::stored_as(
        db_tree(before, threats_tree())[card_key(id)],
    ) {
        Some(c) => !<ThreatCard as Record>::fits(ThreatCardView { status: status, ..c }),
        None => false,
    } && all_trees_unchanged(before, after)) || ((e is Decompress || e is Decode)
        && db_tree(before, threats_tree()).contains_key(card_key(id))
        && <ThreatCard as Record>::stored_as(db_tree(before, threats_tree())[card_key(id)])
        is None && all_trees_unchanged(before, after))
}

/// Move a card from the threats tree to the history tree with a new status.
pub fn resolve_threat(db: &mut sled::Db, id: u64, status: CardStatus) -> (res: Result<
    (),
    StoreError,
>)
    ensures
        resolve_outcome(*old(db), *final(db), id, status, res),
{
    proof {
        lemma_tree_names_distinct();
    }
    let key = threat_key(id);
    let found = f96_get::<ThreatCard>(db, TREE_THREATS, key.as_str());
    match found {
        Err(e) => Err(e),
        Ok(None) => Ok(()),
        Ok(Some(card)) => {
            let mut card = card;
            card.status = status;
            let ghost mid0 = *db;
            match f97_put(db, TREE_HISTORY, key.as_str(), &card) {
                Ok(()) => {},
                Err(e) => return Err(e),
            }
            let ghost mid = *db;
            match db_remove(db, TREE_THREATS.as_bytes(), key.as_str().as_bytes()) {
                Ok(()) => {},
                Err(e) => return Err(StoreError::Db(e)),
            }
            assert(db_tree(mid, threats_tree()) == db_tree(mid0, threats_tree()));
            assert(db_tree(*db, history_tree()) == db_tree(mid, history_tree()));
            Ok(())
        },
    }
}

/// The key of a baseline pattern: its module's label, a colon, its value.
pub open spec fn baseline_key_spec(p: BaselinePatternView) -> Seq<char> {
    module_label(p.module) + seq![':'] + p.value
}

/// Add a baseline pattern under its key, replacing any pattern with the same
/// module and value.
pub fn add_baseline(db: &mut sled::Db, pattern: &BaselinePattern) -> (res: Result<(), StoreError>)
    ensures
        other_trees_unchanged(*old(db), *final(db), baseline_tree()),
        next_generated_id(*final(db)) == next_generated_id(*old(db)),
        res is Ok ==> holds_at::<BaselinePattern>(
            db_tree(*old(db), baseline_tree()),
            db_tree(*final(db), baseline_tree()),
            utf8(baseline_key_spec(pattern@)),
            pattern@,
        ),
        res matches Err(e) ==> e is Db || (e is Encode && !<BaselinePattern as Record>::fits(
            pattern@,
        ) && !<BaselinePattern as Record>::bounded(pattern@) && all_trees_unchanged(*old(db), *final(db))),
        !<BaselinePattern as Record>::fits(pattern@) ==> (res matches Err(e) && e is Encode),
{
    let mut v = chars_of(pattern.module.label());
    v.push(':');
    push_str(&mut v, pattern.value.as_str());
    let key = string_of(v.as_slice());
    assert(key@ =~= baseline_key_spec(pattern@));
    f97_put(db, TREE_BASELINE, key.as_str(), pattern)
}

/// The number of cards of `cs` with status `s`.
pub open spec fn count_status(cs: Seq<ThreatCardView>, s: CardStatus) -> nat
    decreases cs.len(),
{
    if cs.len() == 0 {
        0
    } else {
        count_status(cs.drop_last(), s) + if cs.last().status == s {
            1nat
        } else {
            0nat
        }
    }
}

proof fn lemma_count_status_bound(cs: Seq<ThreatCardView>, s: CardStatus)
    ensures
        count_status(cs, s) <= cs.len(),
    decreases cs.len(),
{
    if cs.len() > 0 {
        lemma_count_status_bound(cs.drop_last(), s);
    }
}

/// The statistics of two full scans: the threats tree `t` and the history
/// tree `h`.
pub open spec fn stats_of(s: Stats, t: Seq<ThreatCardView>, h: Seq<ThreatCardView>) -> bool {
    &&& s.pending == t.len()
    &&& s.total_threats == if t.len() + h.len() > usize::MAX {
        usize::MAX as int
    } else {
        (t.len() + h.len()) as int
    }
    &&& s.baselined == count_status(h, CardStatus::Baselined)
    &&& s.killed == count_status(h, CardStatus::Killed)
    &&& s.quarantined == count_status(h, CardStatus::Quarantined)
    &&& s.auto_killed == count_status(h, CardStatus::AutoKilled)
}

/// Statistics over both card trees: pending counts the threats tree, the
/// total counts both trees, and each resolution status counts the history
/// cards that carry it.
pub fn stats(db: &sled::Db) -> (res: Result<Stats, StoreError>)
    ensures
        res matches Ok(s) ==> exists|et: Seq<(Seq<u8>, Seq<u8>)>, eh: Seq<(Seq<u8>, Seq<u8>)>|
            #![trigger full_scan::<ThreatCard>(*db, threats_tree(), et), full_scan::<ThreatCard>(*db, history_tree(), eh)]
            full_scan::<ThreatCard>(*db, threats_tree(), et) && full_scan::<ThreatCard>(
                *db,
                history_tree(),
                eh,
            ) && stats_of(
                s,
                decoded_values::<ThreatCard>(et),
                decoded_values::<ThreatCard>(eh),
            ),
        res matches Err(e) ==> e is Db || ((e is Decompress || e is Decode) && (scan_fails::<
            ThreatCard,
        >(*db, threats_tree()) || scan_fails::<ThreatCard>(*db, history_tree()))),
{
    let pending = match scan_all_values::<ThreatCard>(db, TREE_THREATS) {
        Ok(v) => v,
        Err(e) => return Err(e),
    };
    let history = match scan_all_values::<ThreatCard>(db, TREE_HISTORY) {
        Ok(v) => v,
        Err(e) => return Err(e),
    };
    let ghost et = choose|es: Seq<(Seq<u8>, Seq<u8>)>|
        full_scan::<ThreatCard>(*db, threats_tree(), es) && pending@.map_values(
            |v: ThreatCard| v@,
        ) == decoded_values::<ThreatCard>(es);
    let ghost eh = choose|es: Seq<(Seq<u8>, Seq<u8>)>|
        full_scan::<ThreatCard>(*db, history_tree(), es) && history@.map_values(
            |v: ThreatCard| v@,
        ) == decoded_values::<ThreatCard>(es);
    let ghost hv = decoded_values::<ThreatCard>(eh);
    assert(full_scan::<ThreatCard>(*db, threats_tree(), et));
    assert(full_scan::<ThreatCard>(*db, history_tree(), eh));
    let mut s = Stats::default();
    let mut i: usize = 0;
    while i < history.len()
        invariant
            i <= history@.len(),
            history@.map_values(|v: ThreatCard| v@) == hv,
            full_scan::<ThreatCard>(*db, threats_tree(), et),
            full_scan::<ThreatCard>(*db, history_tree(), eh),
            pending@.map_values(|v: ThreatCard| v@) == decoded_values::<ThreatCard>(et),
            s.baselined == count_status(hv.subrange(0, i as int), CardStatus::Baselined),
            s.killed == count_status(hv.subrange(0, i as int), CardStatus::Killed),
            s.quarantined == count_status(hv.subrange(0, i as int), CardStatus::Quarantined),
            s.auto_killed == count_status(hv.subrange(0, i as int), CardStatus::AutoKilled),
        decreases history@.len() - i,
    {
        proof {
            assert(hv.subrange(0, i + 1).drop_last() =~= hv.subrange(0, i as int));
            assert(hv[i as int] == history@[i as int]@);
            lemma_count_status_bound(hv.subrange(0, i as int), CardStatus::Baselined);
            lemma_count_status_bound(hv.subrange(0, i as int), CardStatus::Killed);
            lemma_count_status_bound(hv.subrange(0, i as int), CardStatus::Quarantined);
            lemma_count_status_bound(hv.subrange(0, i as int), CardStatus::AutoKilled);
        }
        match history[i].status {
            CardStatus::Baselined => s.baselined = s.baselined + 1,
            CardStatus::Killed => s.killed = s.killed + 1,
            CardStatus::Quarantined => s.quarantined = s.quarantined + 1,
            CardStatus::AutoKilled => s.auto_killed = s.auto_killed + 1,
            CardStatus::Pending => {},
        }
        i = i + 1;
    }
    assert(hv.subrange(0, history@.len() as int) =~= hv);
    s.pending = pending.len();
    s.total_threats = pending.len().saturating_add(history.len());
    assert(decoded_values::<ThreatCard>(et).len() == pending@.len());
    assert(stats_of(s, decoded_values::<ThreatCard>(et), hv));
    Ok(s)
}

} // verus!
