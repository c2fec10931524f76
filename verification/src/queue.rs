//! The ordered queue of alarm keys, kept in a red-black tree.

use rbtree::RBTree;
use vstd::multiset::Multiset;
use vstd::prelude::*;

verus! {

broadcast use vstd::multiset::group_multiset_axioms;

/// The red-black tree of the `rbtree` crate: opaque to the verifier.
#[verifier::external_type_specification]
#[verifier::external_body]
#[verifier::reject_recursive_types(K)]
#[verifier::reject_recursive_types(V)]
pub struct ExRBTree<K: Ord, V>(RBTree<K, V>);

/// The queue of the engine: a tree of keys with nothing attached to them.
pub type KeyTree = RBTree<(u64, u64), ()>;

/// The keys that a tree holds, each as often as it was inserted.
pub uninterp spec fn queue_keys(tree: RBTree<(u64, u64), ()>) -> Multiset<(u64, u64)>;

/// The order of the keys: that of pairs of integers, first component first.
pub open spec fn key_le(a: (u64, u64), b: (u64, u64)) -> bool {
    a.0 < b.0 || (a.0 == b.0 && a.1 <= b.1)
}

/// The key under which the alarm `id` that is due at `due` waits. The second
/// component falls as the id grows, so that among alarms due at the same
/// instant the one with the largest id comes first.
pub open spec fn key_of(due: u64, id: u64) -> (u64, u64) {
    (due, (u64::MAX - id) as u64)
}

/// The id of the alarm that waits under `key`.
pub open spec fn id_of(key: (u64, u64)) -> u64 {
    (u64::MAX - key.1) as u64
}

/// `key` is in `keys` and no key of `keys` comes before it.
pub open spec fn is_first(keys: Multiset<(u64, u64)>, key: (u64, u64)) -> bool {
    &&& keys.contains(key)
    &&& forall|other: (u64, u64)| #[trigger] keys.contains(other) ==> key_le(key, other)
}

/// Computes the key of an alarm.
pub fn make_key(due: u64, id: u64) -> (key: (u64, u64))
    ensures
        key == key_of(due, id),
        id_of(key) == id,
{
    (due, u64::MAX - id)
}

/// Reads the id back from a key.
pub fn key_id(key: (u64, u64)) -> (id: u64)
    ensures
        id == id_of(key),
        key_of(key.0, id) == key,
{
    u64::MAX - key.1
}

/// `RBTree::new`: the new tree holds no key.
#[verifier::external_body]
pub(crate) fn tree_new() -> (tree: KeyTree)
    ensures
        queue_keys(tree) == Multiset::<(u64, u64)>::empty(),
{
    RBTree::new()
}

/// `RBTree::len`: the number of nodes, which is the number of keys held.
#[verifier::external_body]
pub(crate) fn tree_len(tree: &KeyTree) -> (n: usize)
    ensures
        n == queue_keys(*tree).len(),
{
    tree.len()
}

/// `RBTree::insert`: adds one node for the key, also where an equal key is
/// already there.
#[verifier::external_body]
pub(crate) fn tree_insert(tree: &mut KeyTree, key: (u64, u64))
    ensures
        queue_keys(*final(tree)) == queue_keys(*old(tree)).insert(key),
{
    tree.insert(key, ())
}

/// `RBTree::get_first`: the key of the leftmost node, which no key of the
/// tree precedes; nothing for an empty tree.
#[verifier::external_body]
pub(crate) fn tree_first(tree: &KeyTree) -> (first: Option<(u64, u64)>)
    ensures
        match first {
            Some(key) => is_first(queue_keys(*tree), key),
            None => queue_keys(*tree).len() == 0,
        },
{
    tree.get_first().map(|(key, _)| *key)
}

/// `RBTree::pop_first`: takes the leftmost node out and hands its key back;
/// an empty tree stays as it is.
#[verifier::external_body]
pub(crate) fn tree_pop_first(tree: &mut KeyTree) -> (first: Option<(u64, u64)>)
    ensures
        match first {
            Some(key) => is_first(queue_keys(*old(tree)), key) && queue_keys(*final(tree))
                == queue_keys(*old(tree)).remove(key),
            None => queue_keys(*old(tree)).len() == 0 && queue_keys(*final(tree)) == queue_keys(
                *old(tree),
            ),
        },
{
    tree.pop_first().map(|(key, _)| key)
}

/// `RBTree::remove`: takes one node with an equal key out, if there is one,
/// and says whether it did.
#[verifier::external_body]
pub(crate) fn tree_remove(tree: &mut KeyTree, key: &(u64, u64)) -> (found: bool)
    ensures
        found == queue_keys(*old(tree)).contains(*key),
        queue_keys(*final(tree)) == queue_keys(*old(tree)).remove(*key),
{
    tree.remove(key).is_some()
}

/// Keys are ordered by due time first.
pub proof fn key_order_by_due_time(a: (u64, u64), b: (u64, u64))
    requires
        key_le(a, b),
    ensures
        a.0 <= b.0,
{
}

/// Among keys of one due time, the larger id comes first.
pub proof fn key_order_tie_break(due: u64, a: u64, b: u64)
    ensures
        key_le(key_of(due, a), key_of(due, b)) <==> a >= b,
{
}

/// Two alarms have the same key only if they have the same due time and id.
pub proof fn key_of_injective(due_a: u64, id_a: u64, due_b: u64, id_b: u64)
    requires
        key_of(due_a, id_a) == key_of(due_b, id_b),
    ensures
        due_a == due_b,
        id_a == id_b,
{
}

/// Firing order: the key that leaves a queue first precedes the key that
/// leaves what is left of it first. For a queue without repeated keys the
/// second key is strictly later: due later, or due at the same instant with a
/// smaller id.
pub proof fn firing_order(keys: Multiset<(u64, u64)>, first: (u64, u64), second: (u64, u64))
    requires
        is_first(keys, first),
        is_first(keys.remove(first), second),
    ensures
        key_le(first, second),
        first.0 <= second.0,
        keys.count(first) <= 1 ==> first != second,
        keys.count(first) <= 1 && first.0 == second.0 ==> id_of(first) > id_of(second),
{
    assert(keys.remove(first).contains(second));
    assert(keys.contains(second));
}

} // verus!
