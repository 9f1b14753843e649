//! The sled database as a verified collection: a map from tree names to
//! trees, each a map from key bytes to value bytes.
//!
//! Every operation goes through the database handle taken by `&mut` where it
//! writes, so that the model below follows each change; the trees are opened
//! inside the wrappers and never handed out. The model holds as long as this
//! handle is the only one writing to the database.

use vstd::prelude::*;

verus! {

/// The sled database handle.
#[verifier::external_type_specification]
#[verifier::external_body]
pub struct ExDb(sled::Db);

/// The error type of sled operations.
#[verifier::external_type_specification]
#[verifier::external_body]
pub struct ExSledError(sled::Error);

/// What a database holds: for each tree name, that tree's entries. A name
/// that is absent stands for a tree that has not been written yet, which
/// reads as empty.
pub uninterp spec fn db_trees(db: sled::Db) -> Map<Seq<u8>, Map<Seq<u8>, Seq<u8>>>;

/// The identifier that the database's identifier generator hands out next.
pub uninterp spec fn next_generated_id(db: sled::Db) -> u64;

/// The generator's value after one identifier is taken: one more, wrapping
/// to zero past the largest `u64`.
pub open spec fn id_step(id: u64) -> u64 {
    if id == u64::MAX {
        0
    } else {
        (id + 1) as u64
    }
}

/// The entries of tree `name` in a map of trees; empty when absent.
pub open spec fn tree_in(trees: Map<Seq<u8>, Map<Seq<u8>, Seq<u8>>>, name: Seq<u8>) -> Map<
    Seq<u8>,
    Seq<u8>,
> {
    if trees.contains_key(name) {
        trees[name]
    } else {
        Map::empty()
    }
}

/// The entries of tree `name` of a database.
pub open spec fn db_tree(db: sled::Db, name: Seq<u8>) -> Map<Seq<u8>, Seq<u8>> {
    tree_in(db_trees(db), name)
}

/// All trees but `name` hold the same entries in both databases.
pub open spec fn other_trees_unchanged(before: sled::Db, after: sled::Db, name: Seq<u8>) -> bool {
    forall|n: Seq<u8>| n != name ==> #[trigger] db_tree(after, n) == db_tree(before, n)
}

/// All trees hold the same entries in both databases.
pub open spec fn all_trees_unchanged(before: sled::Db, after: sled::Db) -> bool {
    forall|n: Seq<u8>| #[trigger] db_tree(after, n) == db_tree(before, n)
}

/// `p` is a prefix of `k`.
pub open spec fn is_prefix(p: Seq<u8>, k: Seq<u8>) -> bool {
    p.len() <= k.len() && k.subrange(0, p.len() as int) == p
}

/// Lexicographic order of byte strings, the order sled keeps its keys in.
pub open spec fn bytes_lt(a: Seq<u8>, b: Seq<u8>) -> bool {
    exists|i: int|
        0 <= i <= a.len() && i <= b.len() && #[trigger] a.subrange(0, i) == b.subrange(0, i) && (
        (i < a.len() && i < b.len() && a[i] < b[i]) || (i == a.len() && i < b.len()))
}

/// No key orders before itself.
pub proof fn lemma_bytes_lt_irreflexive(a: Seq<u8>)
    ensures
        !bytes_lt(a, a),
{
}

/// Two keys never order before each other.
pub proof fn lemma_bytes_lt_asymmetric(a: Seq<u8>, b: Seq<u8>)
    requires
        bytes_lt(a, b),
    ensures
        !bytes_lt(b, a),
{
    let i = choose|i: int|
        0 <= i <= a.len() && i <= b.len() && #[trigger] a.subrange(0, i) == b.subrange(0, i) && (
        (i < a.len() && i < b.len() && a[i] < b[i]) || (i == a.len() && i < b.len()));
    if bytes_lt(b, a) {
        let j = choose|j: int|
            0 <= j <= b.len() && j <= a.len() && #[trigger] b.subrange(0, j) == a.subrange(0, j)
                && ((j < b.len() && j < a.len() && b[j] < a[j]) || (j == b.len() && j < a.len()));
        if i < j {
            assert(a.subrange(0, j)[i] == b.subrange(0, j)[i]);
        } else if j < i {
            assert(a.subrange(0, i)[j] == b.subrange(0, i)[j]);
        }
    }
}

/// A full scan of a tree lists each of its keys once: the tree is finite and
/// has as many keys as the scan has entries.
pub proof fn lemma_full_scan_len(es: Seq<(Seq<u8>, Seq<u8>)>, tree: Map<Seq<u8>, Seq<u8>>)
    requires
        is_prefix_scan(es, tree, Seq::empty()),
    ensures
        tree.dom().finite(),
        tree.dom().len() == es.len(),
{
    let keys = es.map_values(|e: (Seq<u8>, Seq<u8>)| e.0);
    assert forall|i: int, j: int| 0 <= i < keys.len() && 0 <= j < keys.len() && i != j implies keys[i]
        != keys[j] by {
        if i < j {
            assert(bytes_lt(es[i].0, es[j].0));
            lemma_bytes_lt_irreflexive(es[i].0);
        } else {
            assert(bytes_lt(es[j].0, es[i].0));
            lemma_bytes_lt_irreflexive(es[j].0);
        }
    }
    assert(keys.no_duplicates());
    keys.unique_seq_to_set();
    vstd::seq_lib::seq_to_set_is_finite(keys);
    assert forall|k: Seq<u8>| tree.dom().contains(k) <==> keys.to_set().contains(k) by {
        if tree.dom().contains(k) {
            assert(k.subrange(0, 0) =~= Seq::<u8>::empty());
            assert(is_prefix(Seq::empty(), k));
            let i = choose|i: int| 0 <= i < es.len() && #[trigger] es[i].0 == k;
            assert(keys[i] == k);
        }
        if keys.to_set().contains(k) {
            let i = choose|i: int| 0 <= i < keys.len() && keys[i] == k;
            assert(keys[i] == es[i].0);
        }
    }
    assert(tree.dom() =~= keys.to_set());
}

/// The entries of a scan, each taken by its bytes.
pub open spec fn entries_view(es: Seq<(Vec<u8>, Vec<u8>)>) -> Seq<(Seq<u8>, Seq<u8>)> {
    es.map_values(|e: (Vec<u8>, Vec<u8>)| (e.0@, e.1@))
}

/// `es` lists exactly the entries of `tree` whose key starts with `prefix`,
/// in increasing key order.
pub open spec fn is_prefix_scan(
    es: Seq<(Seq<u8>, Seq<u8>)>,
    tree: Map<Seq<u8>, Seq<u8>>,
    prefix: Seq<u8>,
) -> bool {
    &&& forall|i: int|
        0 <= i < es.len() ==> {
            &&& tree.contains_key(#[trigger] es[i].0)
            &&& tree[es[i].0] == es[i].1
            &&& is_prefix(prefix, es[i].0)
        }
    &&& forall|k: Seq<u8>|
        tree.contains_key(k) && is_prefix(prefix, k) ==> exists|i: int|
            0 <= i < es.len() && #[trigger] es[i].0 == k
    &&& forall|i: int, j: int| 0 <= i < j < es.len() ==> bytes_lt(es[i].0, es[j].0)
}

/// The bytes an optional value holds.
pub open spec fn opt_bytes(o: Option<Vec<u8>>) -> Option<Seq<u8>> {
    match o {
        Some(v) => Some(v@),
        None => None,
    }
}

/// Insert `value` under `key` in tree `tree`.
///
/// Calls `sled::Db::open_tree` and `sled::Tree::insert`. The contract claims
/// that on success the tree maps `key` to `value` and is otherwise unchanged;
/// whatever the outcome, the other trees and the identifier generator are
/// left alone. Of a failed insert it states nothing about tree `tree`.
#[verifier::external_body]
pub(crate) fn db_insert(db: &mut sled::Db, tree: &[u8], key: &[u8], value: Vec<u8>) -> (res:
    Result<(), sled::Error>)
    ensures
        other_trees_unchanged(*old(db), *final(db), tree@),
        next_generated_id(*final(db)) == next_generated_id(*old(db)),
        res is Ok ==> db_tree(*final(db), tree@) == db_tree(*old(db), tree@).insert(key@, value@),
{
    db.open_tree(tree)?.insert(key, value)?;
    Ok(())
}

/// Remove `key` from tree `tree`.
///
/// Calls `sled::Db::open_tree` and `sled::Tree::remove`. The contract claims
/// that on success the tree no longer holds `key` and is otherwise unchanged;
/// whatever the outcome, the other trees and the identifier generator are
/// left alone.
#[verifier::external_body]
pub(crate) fn db_remove(db: &mut sled::Db, tree: &[u8], key: &[u8]) -> (res: Result<
    (),
    sled::Error,
>)
    ensures
        other_trees_unchanged(*old(db), *final(db), tree@),
        next_generated_id(*final(db)) == next_generated_id(*old(db)),
        res is Ok ==> db_tree(*final(db), tree@) == db_tree(*old(db), tree@).remove(key@),
{
    db.open_tree(tree)?.remove(key)?;
    Ok(())
}

/// The value stored under `key` in tree `tree`.
///
/// Calls `sled::Db::open_tree` and `sled::Tree::get`, and copies the value
/// out. The contract claims that a successful read returns what the tree maps
/// `key` to, or `None` where it holds no such key.
#[verifier::external_body]
pub(crate) fn db_get(db: &sled::Db, tree: &[u8], key: &[u8]) -> (res: Result<
    Option<Vec<u8>>,
    sled::Error,
>)
    ensures
        res matches Ok(v) ==> opt_bytes(v) == tree_in(db_trees(*db), tree@).get(key@),
{
    Ok(db.open_tree(tree)?.get(key)?.map(|v| v.to_vec()))
}

/// The entries of tree `tree` whose key starts with `prefix`.
///
/// Calls `sled::Db::open_tree` and `sled::Tree::scan_prefix`, and collects
/// the iterator, failing on the first failed item. The contract claims that a
/// successful scan lists exactly the matching entries, in increasing key
/// order, as sled keeps them.
#[verifier::external_body]
pub(crate) fn db_scan_prefix(db: &sled::Db, tree: &[u8], prefix: &[u8]) -> (res: Result<
    Vec<(Vec<u8>, Vec<u8>)>,
    sled::Error,
>)
    ensures
        res matches Ok(es) ==> is_prefix_scan(entries_view(es@), db_tree(*db, tree@), prefix@),
{
    db.open_tree(tree)?.scan_prefix(prefix).map(|item| item.map(|(k, v)| (k.to_vec(), v.to_vec())))
        .collect()
}

/// A fresh identifier from the database's generator.
///
/// Calls `sled::Db::generate_id`, which takes the next value of an atomic
/// counter by `fetch_add(1)` before it persists the counter. The contract
/// claims that the counter moves on by one (wrapping) whatever the outcome,
/// that a success returns its former value, and that no tree changes.
#[verifier::external_body]
pub(crate) fn db_generate_id(db: &mut sled::Db) -> (res: Result<u64, sled::Error>)
    ensures
        all_trees_unchanged(*old(db), *final(db)),
        next_generated_id(*final(db)) == id_step(next_generated_id(*old(db))),
        res matches Ok(id) ==> id == next_generated_id(*old(db)),
{
    db.generate_id()
}

} // verus!
