//! Path-addressed edits of the TOML document model, and their executable
//! counterparts on `toml_edit` tables.

use vstd::prelude::*;

use toml_edit::{Item, Table};

use crate::document::{
    item_as_table, item_node, like_get, present, present_keys, table_entries, table_get as table_lookup,
    table_contains_key, table_insert, table_item, table_is_empty, table_new, table_remove,
    table_swap_child, Node,
};

verus! {

/// The character views of a list of key pieces.
pub open spec fn key_seq(parts: Seq<&str>) -> Seq<Seq<char>> {
    parts.map_values(|p: &str| p@)
}

/// What `Table::get` returns under `k` in a table with entries `m`.
pub open spec fn table_get(m: Map<Seq<char>, Node>, k: Seq<char>) -> Option<Node> {
    like_get(Node::Table(m), k)
}

/// Follows `keys` from the item `n` through standard and inline tables.
pub open spec fn walk(n: Node, keys: Seq<Seq<char>>) -> Option<Node>
    decreases keys.len(),
{
    if keys.len() == 0 {
        Some(n)
    } else {
        match like_get(n, keys[0]) {
            Some(c) => walk(c, keys.drop_first()),
            None => None,
        }
    }
}

/// The item stored at the key path `keys` below the root entries `m`.
pub open spec fn lookup(m: Map<Seq<char>, Node>, keys: Seq<Seq<char>>) -> Option<Node> {
    if keys.len() == 0 {
        None
    } else {
        walk(Node::Table(m), keys)
    }
}

/// Stores `v` at `keys`, creating missing standard tables on the way; `None`
/// when an existing item on the way is not a standard table.
pub open spec fn set_in(m: Map<Seq<char>, Node>, keys: Seq<Seq<char>>, v: Node) -> Option<
    Map<Seq<char>, Node>,
>
    decreases keys.len(),
{
    if keys.len() == 0 {
        None
    } else if keys.len() == 1 {
        Some(m.insert(keys[0], v))
    } else {
        let child = if present(m, keys[0]) {
            m[keys[0]]
        } else {
            Node::Table(Map::empty())
        };
        match child {
            Node::Table(c) => match set_in(c, keys.drop_first(), v) {
                Some(c2) => Some(m.insert(keys[0], Node::Table(c2))),
                None => None,
            },
            _ => None,
        }
    }
}

/// Removes the raw entry at `keys`, reached through standard tables only;
/// hands back the removed item.
pub open spec fn remove_in(m: Map<Seq<char>, Node>, keys: Seq<Seq<char>>) -> (Map<
    Seq<char>,
    Node,
>, Option<Node>)
    decreases keys.len(),
{
    if keys.len() == 0 {
        (m, None)
    } else if keys.len() == 1 {
        (
            m.remove(keys[0]),
            if m.contains_key(keys[0]) {
                Some(m[keys[0]])
            } else {
                None
            },
        )
    } else {
        match table_get(m, keys[0]) {
            Some(Node::Table(c)) => {
                let (c2, r) = remove_in(c, keys.drop_first());
                (m.insert(keys[0], Node::Table(c2)), r)
            },
            _ => (m, None),
        }
    }
}

/// The entries of the standard table reached from `m` through standard
/// tables along `keys` (`m` itself for no keys).
pub open spec fn tables_at(m: Map<Seq<char>, Node>, keys: Seq<Seq<char>>) -> Option<
    Map<Seq<char>, Node>,
>
    decreases keys.len(),
{
    if keys.len() == 0 {
        Some(m)
    } else {
        match table_get(m, keys[0]) {
            Some(Node::Table(c)) => tables_at(c, keys.drop_first()),
            _ => None,
        }
    }
}

/// Removes the empty standard tables among the first `depth` proper ancestors
/// of `keys`, deepest first, stopping at the first one that is missing or not
/// empty. Reports whether anything was removed.
pub open spec fn prune_from(m: Map<Seq<char>, Node>, keys: Seq<Seq<char>>, depth: nat) -> (Map<
    Seq<char>,
    Node,
>, bool)
    decreases depth,
{
    if depth == 0 {
        (m, false)
    } else {
        match tables_at(m, keys.take(depth as int)) {
            None => (m, false),
            Some(t) => if !present_keys(t).is_empty() {
                (m, false)
            } else {
                let (m2, r) = remove_in(m, keys.take(depth as int));
                let (m3, more) = prune_from(m2, keys, (depth - 1) as nat);
                (m3, r is Some || more)
            },
        }
    }
}

pub proof fn lemma_set_in_empty(keys: Seq<Seq<char>>, v: Node)
    requires
        keys.len() >= 1,
    ensures
        set_in(Map::empty(), keys, v) is Some,
    decreases keys.len(),
{
    if keys.len() > 1 {
        lemma_set_in_empty(keys.drop_first(), v);
    }
}

/// `p` is a prefix of `q` (equal paths included).
pub open spec fn is_prefix(p: Seq<Seq<char>>, q: Seq<Seq<char>>) -> bool {
    p.len() <= q.len() && q.take(p.len() as int) == p
}

pub proof fn lemma_prefix_rest(p: Seq<Seq<char>>, q: Seq<Seq<char>>)
    requires
        p.len() >= 1,
        q.len() >= 1,
        p[0] == q[0],
    ensures
        is_prefix(p, q) == is_prefix(p.drop_first(), q.drop_first()),
{
    if is_prefix(p, q) {
        assert(q.drop_first().take(p.drop_first().len() as int) =~= p.drop_first());
    }
    if is_prefix(p.drop_first(), q.drop_first()) {
        assert forall|i: int| 0 <= i < p.len() implies q.take(p.len() as int)[i] == p[i] by {
            if i > 0 {
                assert(q.drop_first().take(p.drop_first().len() as int)[i - 1] == p.drop_first()[i
                    - 1]);
            }
        }
        assert(q.take(p.len() as int) =~= p);
    }
}

/// Removing nothing changes nothing.
pub proof fn lemma_remove_none_unchanged(m: Map<Seq<char>, Node>, keys: Seq<Seq<char>>)
    requires
        remove_in(m, keys).1 is None,
    ensures
        remove_in(m, keys).0 == m,
    decreases keys.len(),
{
    if keys.len() == 1 {
        assert(m.remove(keys[0]) =~= m);
    } else if keys.len() > 1 {
        if let Some(Node::Table(c)) = table_get(m, keys[0]) {
            lemma_remove_none_unchanged(c, keys.drop_first());
            assert(m.insert(keys[0], Node::Table(c)) =~= m);
        }
    }
}

/// A removal at `p` leaves settable exactly the paths that were, unless `p`
/// lies on the way.
pub proof fn lemma_remove_keeps_settable(m: Map<Seq<char>, Node>, p: Seq<Seq<char>>, q: Seq<Seq<char>>)
    requires
        p.len() >= 1,
        q.len() >= 1,
        !is_prefix(p, q),
    ensures
        settable(remove_in(m, p).0, q) == settable(m, q),
    decreases p.len(),
{
    let m1 = remove_in(m, p).0;
    if q.len() > 1 {
        if p[0] != q[0] {
            assert(m1.contains_key(q[0]) == m.contains_key(q[0]));
            if m.contains_key(q[0]) {
                assert(m1[q[0]] == m[q[0]]);
            }
        } else if p.len() == 1 {
            assert(q.take(1) =~= p);
        } else if let Some(Node::Table(c)) = table_get(m, p[0]) {
            lemma_prefix_rest(p, q);
            lemma_remove_keeps_settable(c, p.drop_first(), q.drop_first());
        }
    }
}

/// Once the item at `p` is removed, any path through `p` can be written.
pub proof fn lemma_removed_prefix_settable(m: Map<Seq<char>, Node>, p: Seq<Seq<char>>, q: Seq<Seq<char>>)
    requires
        p.len() >= 1,
        is_prefix(p, q),
        remove_in(m, p).1 is Some,
    ensures
        settable(remove_in(m, p).0, q),
    decreases p.len(),
{
    let m1 = remove_in(m, p).0;
    assert(q[0] == q.take(p.len() as int)[0]);
    if q.len() > 1 {
        if p.len() == 1 {
            assert(!m1.contains_key(q[0]));
        } else if let Some(Node::Table(c)) = table_get(m, p[0]) {
            lemma_prefix_rest(p, q);
            lemma_removed_prefix_settable(c, p.drop_first(), q.drop_first());
        }
    }
}

/// A path strictly below an item that is no table cannot be written.
pub proof fn lemma_below_value_not_settable(m: Map<Seq<char>, Node>, p: Seq<Seq<char>>, q: Seq<Seq<char>>, v: Seq<char>)
    requires
        p.len() >= 1,
        p.len() < q.len(),
        is_prefix(p, q),
        lookup(m, p) == Some(Node::Str(v)),
    ensures
        !settable(m, q),
    decreases p.len(),
{
    assert(q[0] == q.take(p.len() as int)[0]);
    reveal_with_fuel(walk, 2);
    if p.len() == 1 {
        assert(p.drop_first().len() == 0);
    } else {
        if let Some(Node::Table(c)) = table_get(m, p[0]) {
            assert(walk(Node::Table(m), p) == walk(Node::Table(c), p.drop_first()));
            lemma_prefix_rest(p, q);
            lemma_below_value_not_settable(c, p.drop_first(), q.drop_first(), v);
        }
    }
}

/// Whether an item can be stored at `keys`: every existing item on the way
/// is a standard table.
pub open spec fn settable(m: Map<Seq<char>, Node>, keys: Seq<Seq<char>>) -> bool
    decreases keys.len(),
{
    if keys.len() == 0 {
        false
    } else if keys.len() == 1 {
        true
    } else if present(m, keys[0]) {
        match m[keys[0]] {
            Node::Table(c) => settable(c, keys.drop_first()),
            _ => false,
        }
    } else {
        true
    }
}

/// Storing succeeds exactly where the path is settable, whatever the item.
pub proof fn lemma_set_in_settable(m: Map<Seq<char>, Node>, keys: Seq<Seq<char>>, v: Node)
    ensures
        (set_in(m, keys, v) is Some) == settable(m, keys),
    decreases keys.len(),
{
    if keys.len() > 1 {
        if present(m, keys[0]) {
            if let Node::Table(c) = m[keys[0]] {
                lemma_set_in_settable(c, keys.drop_first(), v);
            }
        } else {
            lemma_set_in_empty(keys.drop_first(), v);
        }
    }
}

/// Whether an item can be stored at `keys[idx..]` below `t`.
pub fn can_set_table(t: &Table, keys: &Vec<&str>, idx: usize) -> (r: bool)
    requires
        idx < keys@.len(),
    ensures
        r == settable(table_entries(*t), key_seq(keys@).skip(idx as int)),
    decreases keys@.len() - idx,
{
    let ghost ks = key_seq(keys@).skip(idx as int);
    let key = keys[idx];
    proof {
        assert(ks[0] == key@);
        assert(ks.drop_first() =~= key_seq(keys@).skip(idx + 1));
    }
    if idx == keys.len() - 1 {
        return true;
    }
    match table_lookup(t, key) {
        None => true,
        Some(item) => match item_as_table(item) {
            None => false,
            Some(child) => can_set_table(child, keys, idx + 1),
        },
    }
}

/// Stores `item` at `keys[idx..]` below `t`, creating missing standard tables.
pub fn set_in_table(t: &mut Table, keys: &Vec<&str>, idx: usize, item: Item) -> (ok: bool)
    requires
        idx < keys@.len(),
    ensures
        ok == set_in(table_entries(*old(t)), key_seq(keys@).skip(idx as int), item_node(item)) is Some,
        ok ==> table_entries(*final(t)) == set_in(
            table_entries(*old(t)),
            key_seq(keys@).skip(idx as int),
            item_node(item),
        )->0,
        !ok ==> table_entries(*final(t)) == table_entries(*old(t)),
    decreases keys@.len() - idx,
{
    let ghost ks = key_seq(keys@).skip(idx as int);
    let ghost m = table_entries(*t);
    let ghost v = item_node(item);
    let key = keys[idx];
    proof {
        assert(ks[0] == key@);
        assert(ks.drop_first() =~= key_seq(keys@).skip(idx + 1));
    }
    if idx == keys.len() - 1 {
        let _ = table_insert(t, key, item);
        return true;
    }
    let ghost fresh = !present(m, key@);
    if !table_contains_key(t, key) {
        let _ = table_insert(t, key, table_item(table_new()));
    }
    let ghost m1 = table_entries(*t);
    match table_swap_child(t, key, table_new()) {
        None => false,
        Some(mut child) => {
            let ghost c = table_entries(child);
            proof {
                if fresh {
                    lemma_set_in_empty(ks.drop_first(), v);
                    assert(c =~= Map::<Seq<char>, Node>::empty());
                }
            }
            let ok = set_in_table(&mut child, keys, idx + 1, item);
            let _ = table_swap_child(t, key, child);
            proof {
                if ok {
                    assert(table_entries(*t) =~= m.insert(
                        key@,
                        Node::Table(table_entries(child)),
                    ));
                } else {
                    assert(!fresh);
                    assert(table_entries(*t) =~= m);
                }
            }
            ok
        },
    }
}

/// Removes the raw entry at `keys[idx..end]` below `t`, reached through
/// standard tables; hands back the removed item.
pub fn remove_in_table(t: &mut Table, keys: &Vec<&str>, idx: usize, end: usize) -> (r: Option<
    Item,
>)
    requires
        idx < end <= keys@.len(),
    ensures
        table_entries(*final(t)) == remove_in(
            table_entries(*old(t)),
            key_seq(keys@).subrange(idx as int, end as int),
        ).0,
        r is Some <==> remove_in(
            table_entries(*old(t)),
            key_seq(keys@).subrange(idx as int, end as int),
        ).1 is Some,
        r matches Some(i) ==> remove_in(
            table_entries(*old(t)),
            key_seq(keys@).subrange(idx as int, end as int),
        ).1 == Some(item_node(i)),
    decreases end - idx,
{
    let ghost ks = key_seq(keys@).subrange(idx as int, end as int);
    let ghost m = table_entries(*t);
    let key = keys[idx];
    proof {
        assert(ks[0] == key@);
        assert(ks.drop_first() =~= key_seq(keys@).subrange(idx + 1, end as int));
    }
    if idx + 1 == end {
        return table_remove(t, key);
    }
    match table_swap_child(t, key, table_new()) {
        None => None,
        Some(mut child) => {
            let r = remove_in_table(&mut child, keys, idx + 1, end);
            let _ = table_swap_child(t, key, child);
            proof {
                assert(table_entries(*t) =~= m.insert(key@, Node::Table(table_entries(child))));
            }
            r
        },
    }
}

/// The standard table reached from `t` through standard tables along
/// `keys[idx..end]`.
pub fn table_at<'a>(t: &'a Table, keys: &Vec<&str>, idx: usize, end: usize) -> (r: Option<
    &'a Table,
>)
    requires
        idx <= end <= keys@.len(),
    ensures
        r is Some <==> tables_at(
            table_entries(*t),
            key_seq(keys@).subrange(idx as int, end as int),
        ) is Some,
        r matches Some(c) ==> tables_at(
            table_entries(*t),
            key_seq(keys@).subrange(idx as int, end as int),
        ) == Some(table_entries(*c)),
    decreases end - idx,
{
    let ghost ks = key_seq(keys@).subrange(idx as int, end as int);
    if idx == end {
        return Some(t);
    }
    let key = keys[idx];
    proof {
        assert(ks[0] == key@);
        assert(ks.drop_first() =~= key_seq(keys@).subrange(idx + 1, end as int));
    }
    match table_lookup(t, key) {
        None => None,
        Some(item) => match item_as_table(item) {
            None => None,
            Some(child) => table_at(child, keys, idx + 1, end),
        },
    }
}

/// Removes empty standard tables among the proper ancestors of `keys`,
/// deepest first; reports whether anything was removed.
pub fn prune_table(t: &mut Table, keys: &Vec<&str>) -> (removed: bool)
    requires
        keys@.len() >= 1,
    ensures
        (table_entries(*final(t)), removed) == prune_from(
            table_entries(*old(t)),
            key_seq(keys@),
            (keys@.len() - 1) as nat,
        ),
{
    let ghost ks = key_seq(keys@);
    let ghost m0 = table_entries(*t);
    let mut depth: usize = keys.len() - 1;
    let mut removed = false;
    while depth > 0
        invariant
            depth < keys@.len(),
            ks == key_seq(keys@),
            prune_from(m0, ks, (keys@.len() - 1) as nat) == ({
                let (m, more) = prune_from(table_entries(*t), ks, depth as nat);
                (m, removed || more)
            }),
        ensures
            prune_from(table_entries(*t), ks, depth as nat) == (table_entries(*t), false),
        decreases depth,
    {
        proof {
            assert(key_seq(keys@).subrange(0, depth as int) =~= ks.take(depth as int));
        }
        let empty = match table_at(t, keys, 0, depth) {
            None => None,
            Some(p) => Some(table_is_empty(p)),
        };
        match empty {
            None => {
                assert(prune_from(table_entries(*t), ks, depth as nat) == (table_entries(*t), false));
                break;
            },
            Some(e) => {
                if !e {
                    assert(prune_from(table_entries(*t), ks, depth as nat) == (
                        table_entries(*t),
                        false,
                    ));
                    break;
                }
            },
        }
        let r = remove_in_table(t, keys, 0, depth);
        removed = removed || r.is_some();
        depth = depth - 1;
    }
    removed
}

} // verus!
