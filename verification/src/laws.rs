//! Properties of the config edits and of migration that hold across
//! operations and repeated calls.

use vstd::prelude::*;

use crate::config::{
    spec_contains, spec_delete, spec_enum_to_bool, spec_prune, spec_rename, spec_set, spec_take,
    spec_version, Model,
};
use crate::document::{like_get, present, present_keys, Node};
use crate::edit::{
    is_prefix, lemma_below_value_not_settable, lemma_prefix_rest, lemma_remove_none_unchanged,
    lemma_remove_keeps_settable, lemma_set_in_settable, lookup, prune_from, remove_in,
    set_in, table_get, tables_at, walk,
};
use crate::keypath::{lemma_split_dots_nonempty, split_dots};
use crate::migrate::{apply_deletes, apply_migration, apply_renames, apply_transforms, spec_run};
use crate::schema::{version_key_of, Migration, Schema};

verus! {

/// One step of a lookup: the first key is looked up in the root table, the
/// rest below the item found there.
proof fn lemma_lookup_step(m: Map<Seq<char>, Node>, keys: Seq<Seq<char>>)
    requires
        keys.len() >= 1,
    ensures
        keys.len() == 1 ==> lookup(m, keys) == table_get(m, keys[0]),
        keys.len() > 1 ==> lookup(m, keys) == match table_get(m, keys[0]) {
            Some(n) => walk(n, keys.drop_first()),
            None => None,
        },
        keys.len() > 1 ==> (table_get(m, keys[0]) matches Some(Node::Table(c)) ==> lookup(m, keys)
            == lookup(c, keys.drop_first())),
{
    if keys.len() == 1 {
        assert(keys.drop_first().len() == 0);
    }
}

/// A stored item is found where it was stored.
proof fn lemma_set_lookup(m: Map<Seq<char>, Node>, keys: Seq<Seq<char>>, v: Node)
    requires
        set_in(m, keys, v) is Some,
        !(v is Absent),
    ensures
        lookup(set_in(m, keys, v)->0, keys) == Some(v),
    decreases keys.len(),
{
    let m2 = set_in(m, keys, v)->0;
    lemma_lookup_step(m2, keys);
    if keys.len() > 1 {
        let child = if present(m, keys[0]) {
            m[keys[0]]
        } else {
            Node::Table(Map::empty())
        };
        if let Node::Table(c) = child {
            lemma_set_lookup(c, keys.drop_first(), v);
        }
    }
}

/// Storing at `t` leaves every path unrelated to `t` as it was.
proof fn lemma_set_frame(m: Map<Seq<char>, Node>, t: Seq<Seq<char>>, v: Node, q: Seq<Seq<char>>)
    requires
        set_in(m, t, v) is Some,
        q.len() >= 1,
        !is_prefix(q, t),
        !is_prefix(t, q),
    ensures
        lookup(set_in(m, t, v)->0, q) == lookup(m, q),
    decreases t.len(),
{
    let m2 = set_in(m, t, v)->0;
    if q[0] != t[0] {
        assert(table_get(m2, q[0]) == table_get(m, q[0]));
    } else {
        lemma_prefix_rest(q, t);
        lemma_prefix_rest(t, q);
        if t.len() == 1 {
            assert(is_prefix(t, q)) by {
                assert(q.take(1) =~= t);
            }
        } else if q.len() == 1 {
            assert(is_prefix(q, t)) by {
                assert(t.take(1) =~= q);
            }
        } else {
            let child = if present(m, t[0]) {
                m[t[0]]
            } else {
                Node::Table(Map::empty())
            };
            if let Node::Table(c) = child {
                lemma_set_frame(c, t.drop_first(), v, q.drop_first());
                if !present(m, t[0]) {
                    assert(lookup(Map::empty(), q.drop_first()) is None);
                }
            }
        }
    }
}

/// Setting succeeds only through standard tables: a prefix of `t` holding an
/// item holds a standard table.
proof fn lemma_set_needs_tables(
    m: Map<Seq<char>, Node>,
    t: Seq<Seq<char>>,
    v: Node,
    p: Seq<Seq<char>>,
)
    requires
        set_in(m, t, v) is Some,
        p.len() >= 1,
        p.len() < t.len(),
        is_prefix(p, t),
        lookup(m, p) is Some,
    ensures
        lookup(m, p)->0 is Table,
    decreases p.len(),
{
    assert(p[0] == t[0]);
    lemma_lookup_step(m, p);
    if p.len() > 1 {
        lemma_prefix_rest(p, t);
        if let Node::Table(c) = m[t[0]] {
            lemma_set_needs_tables(c, t.drop_first(), v, p.drop_first());
        }
    }
}

/// An item removed through standard tables is the one `lookup` saw.
proof fn lemma_remove_found(m: Map<Seq<char>, Node>, keys: Seq<Seq<char>>)
    requires
        keys.len() >= 1,
        lookup(m, keys) is Some,
        remove_in(m, keys).1 is Some,
    ensures
        remove_in(m, keys).1 == lookup(m, keys),
        !(remove_in(m, keys).1->0 is Absent),
    decreases keys.len(),
{
    lemma_lookup_step(m, keys);
    if keys.len() > 1 {
        if let Some(Node::Table(c)) = table_get(m, keys[0]) {
            lemma_remove_found(c, keys.drop_first());
        }
    }
}

/// After a removal the removed path finds nothing.
proof fn lemma_remove_gone(m: Map<Seq<char>, Node>, keys: Seq<Seq<char>>)
    requires
        keys.len() >= 1,
        remove_in(m, keys).1 is Some,
    ensures
        lookup(remove_in(m, keys).0, keys) is None,
    decreases keys.len(),
{
    lemma_lookup_step(m, keys);
    lemma_lookup_step(remove_in(m, keys).0, keys);
    if keys.len() > 1 {
        if let Some(Node::Table(c)) = table_get(m, keys[0]) {
            lemma_remove_gone(c, keys.drop_first());
        }
    }
}

/// A removal never makes a path find something it did not find before.
proof fn lemma_remove_shrinks(m: Map<Seq<char>, Node>, p: Seq<Seq<char>>, q: Seq<Seq<char>>)
    requires
        q.len() >= 1,
        lookup(remove_in(m, p).0, q) is Some,
    ensures
        lookup(m, q) is Some,
    decreases p.len(),
{
    let m2 = remove_in(m, p).0;
    lemma_lookup_step(m, q);
    lemma_lookup_step(m2, q);
    if p.len() == 0 {
    } else if p.len() == 1 {
        assert(table_get(m2, q[0]) is Some ==> table_get(m, q[0]) == table_get(m2, q[0]));
    } else {
        if let Some(Node::Table(c)) = table_get(m, p[0]) {
            if q[0] == p[0] && q.len() > 1 {
                let c2 = remove_in(c, p.drop_first()).0;
                assert(lookup(m2, q) == lookup(c2, q.drop_first()));
                lemma_remove_shrinks(c, p.drop_first(), q.drop_first());
            } else {
                assert(table_get(m2, q[0]) is Some ==> table_get(m, q[0]) is Some);
            }
        }
    }
}

/// Pruning never makes a path find something it did not find before.
proof fn lemma_prune_shrinks(m: Map<Seq<char>, Node>, keys: Seq<Seq<char>>, d: nat, q: Seq<Seq<char>>)
    requires
        q.len() >= 1,
        lookup(prune_from(m, keys, d).0, q) is Some,
    ensures
        lookup(m, q) is Some,
    decreases d,
{
    if d > 0 {
        if let Some(t) = tables_at(m, keys.take(d as int)) {
            if present_keys(t).is_empty() {
                let m2 = remove_in(m, keys.take(d as int)).0;
                lemma_prune_shrinks(m2, keys, (d - 1) as nat, q);
                lemma_remove_shrinks(m, keys.take(d as int), q);
            }
        }
    }
}

/// Removing an empty table at `p` leaves every path that is not a prefix
/// of `p` as it was, when it finds something.
proof fn lemma_remove_empty_keeps(
    m: Map<Seq<char>, Node>,
    p: Seq<Seq<char>>,
    q: Seq<Seq<char>>,
)
    requires
        p.len() >= 1,
        q.len() >= 1,
        tables_at(m, p) matches Some(t) && present_keys(t).is_empty(),
        lookup(m, q) is Some,
        !is_prefix(q, p),
    ensures
        lookup(remove_in(m, p).0, q) == lookup(m, q),
    decreases p.len(),
{
    let m2 = remove_in(m, p).0;
    if q[0] != p[0] {
        assert(table_get(m2, q[0]) == table_get(m, q[0]));
    } else {
        lemma_prefix_rest(q, p);
        if q.len() == 1 {
            assert(is_prefix(q, p)) by {
                assert(p.take(1) =~= q);
            }
        } else if p.len() == 1 {
            if let Some(Node::Table(t)) = table_get(m, p[0]) {
                assert(p.drop_first().len() == 0);
                assert(tables_at(m, p) == tables_at(t, p.drop_first()));
                assert(tables_at(m, p) == Some(t));
                assert(present_keys(t).is_empty());
                let k = q[1];
                if present(t, k) {
                    assert(present_keys(t).contains(k));
                }
                assert(lookup(m, q) is None);
            }
        } else {
            if let Some(Node::Table(c)) = table_get(m, p[0]) {
                lemma_remove_empty_keeps(c, p.drop_first(), q.drop_first());
            }
        }
    }
}

/// Pruning the ancestors of `keys` leaves every path that is not a prefix of
/// one of them as it was, when it finds something.
proof fn lemma_prune_keeps(m: Map<Seq<char>, Node>, keys: Seq<Seq<char>>, d: nat, q: Seq<Seq<char>>)
    requires
        d < keys.len(),
        q.len() >= 1,
        lookup(m, q) is Some,
        forall|j: int| 1 <= j <= d ==> !is_prefix(q, #[trigger] keys.take(j)),
    ensures
        lookup(prune_from(m, keys, d).0, q) == lookup(m, q),
    decreases d,
{
    if d > 0 {
        if let Some(t) = tables_at(m, keys.take(d as int)) {
            if present_keys(t).is_empty() {
                assert(!is_prefix(q, keys.take(d as int)));
                lemma_remove_empty_keeps(m, keys.take(d as int), q);
                let m2 = remove_in(m, keys.take(d as int)).0;
                lemma_prune_keeps(m2, keys, (d - 1) as nat, q);
            }
        }
    }
}

/// Every non-empty prefix of a path that finds something finds something.
proof fn lemma_lookup_prefix(m: Map<Seq<char>, Node>, keys: Seq<Seq<char>>, j: int)
    requires
        1 <= j <= keys.len(),
        lookup(m, keys) is Some,
    ensures
        lookup(m, keys.take(j)) is Some,
{
    lemma_walk_prefix(Node::Table(m), keys, j);
}

proof fn lemma_walk_prefix(n: Node, keys: Seq<Seq<char>>, j: int)
    requires
        0 <= j <= keys.len(),
        walk(n, keys) is Some,
    ensures
        walk(n, keys.take(j)) is Some,
    decreases j,
{
    if j > 0 {
        let c = like_get(n, keys[0])->0;
        lemma_walk_prefix(c, keys.drop_first(), j - 1);
        assert(keys.take(j).drop_first() =~= keys.drop_first().take(j - 1));
    }
}

/// A path that does not exist is no prefix of a path that does.
proof fn lemma_missing_not_prefix(m: Map<Seq<char>, Node>, q: Seq<Seq<char>>, p: Seq<Seq<char>>)
    requires
        q.len() >= 1,
        lookup(m, p) is Some,
        lookup(m, q) is None,
    ensures
        !is_prefix(q, p),
{
    if is_prefix(q, p) {
        lemma_lookup_prefix(m, p, q.len() as int);
    }
}

/// Read after write: a value stored at `path` is what the path then holds.
pub proof fn law_set_then_get(s: Model, path: Seq<char>, v: Node)
    requires
        spec_set(s, path, v).1,
        !(v is Absent),
    ensures
        lookup(spec_set(s, path, v).0.entries, split_dots(path)) == Some(v),
        spec_set(s, path, v).0.dirty,
{
    lemma_set_lookup(s.entries, split_dots(path), v);
}

/// A top-level key can always be written.
pub proof fn law_top_level_set_succeeds(s: Model, path: Seq<char>, v: Node)
    requires
        split_dots(path).len() == 1,
    ensures
        spec_set(s, path, v).1,
{
}

/// A recorded migration version reads back as written.
pub proof fn law_version_roundtrip(s: Model, key: Seq<char>, version: u32)
    requires
        spec_set(s, key, Node::Int(version as i64)).1,
    ensures
        spec_version(spec_set(s, key, Node::Int(version as i64)).0, key) == Some(version),
{
    lemma_set_lookup(s.entries, split_dots(key), Node::Int(version as i64));
}

/// A failed write changes nothing.
pub proof fn law_failed_set_changes_nothing(s: Model, path: Seq<char>, v: Node)
    requires
        !spec_set(s, path, v).1,
    ensures
        spec_set(s, path, v).0 == s,
{
}

/// Writing one path leaves unrelated paths as they were.
pub proof fn law_set_leaves_others(s: Model, path: Seq<char>, v: Node, other: Seq<char>)
    requires
        spec_set(s, path, v).1,
        !is_prefix(split_dots(other), split_dots(path)),
        !is_prefix(split_dots(path), split_dots(other)),
    ensures
        lookup(spec_set(s, path, v).0.entries, split_dots(other)) == lookup(
            s.entries,
            split_dots(other),
        ),
{
    lemma_split_dots_nonempty(other);
    lemma_set_frame(s.entries, split_dots(path), v, split_dots(other));
}

/// A rename does nothing when the destination exists or equals the source.
pub proof fn law_rename_refuses_existing(s: Model, from: Seq<char>, to: Seq<char>)
    requires
        from == to || spec_contains(s, to),
    ensures
        spec_rename(s, from, to) == (s, false),
{
}

/// A successful rename moves the value: the destination holds what the
/// source held.
pub proof fn law_rename_moves_value(s: Model, from: Seq<char>, to: Seq<char>)
    requires
        spec_rename(s, from, to).1,
        spec_contains(s, from),
    ensures
        lookup(spec_rename(s, from, to).0.entries, split_dots(to)) == lookup(
            s.entries,
            split_dots(from),
        ),
{
    let fk = split_dots(from);
    let tk = split_dots(to);
    lemma_split_dots_nonempty(from);
    lemma_split_dots_nonempty(to);
    let (s1, taken) = spec_take(s, from);
    let n = taken->0;
    lemma_remove_found(s.entries, fk);
    let (s2, ok) = spec_set(s1, to, n);
    lemma_set_lookup(s1.entries, tk, n);
    assert forall|j: int| 1 <= j <= (fk.len() - 1) as nat implies !is_prefix(
        tk,
        #[trigger] fk.take(j),
    ) by {
        lemma_lookup_prefix(s.entries, fk, j);
        lemma_missing_not_prefix(s.entries, tk, fk.take(j));
    }
    lemma_prune_keeps(s2.entries, fk, (fk.len() - 1) as nat, tk);
}

/// Renames are idempotent: once a rename has moved a value, repeating it
/// changes nothing, as the destination now exists.
pub proof fn law_rename_twice_is_noop(s: Model, from: Seq<char>, to: Seq<char>)
    requires
        spec_rename(s, from, to).1,
        spec_contains(s, from),
    ensures
        ({
            let s1 = spec_rename(s, from, to).0;
            spec_rename(s1, from, to) == (s1, false)
        }),
{
    law_rename_moves_value(s, from, to);
}

/// After a successful rename the source is gone, unless the destination lies
/// below it.
pub proof fn law_rename_clears_source(s: Model, from: Seq<char>, to: Seq<char>)
    requires
        spec_rename(s, from, to).1,
        spec_contains(s, from),
        !is_prefix(split_dots(from), split_dots(to)),
    ensures
        !spec_contains(spec_rename(s, from, to).0, from),
{
    let fk = split_dots(from);
    let tk = split_dots(to);
    lemma_split_dots_nonempty(from);
    lemma_split_dots_nonempty(to);
    let (s1, taken) = spec_take(s, from);
    let n = taken->0;
    lemma_remove_gone(s.entries, fk);
    let (s2, ok) = spec_set(s1, to, n);
    lemma_missing_not_prefix(s.entries, tk, fk);
    lemma_set_frame(s1.entries, tk, n, fk);
    let s3 = spec_prune(s2, from);
    if lookup(s3.entries, fk) is Some {
        lemma_prune_shrinks(s2.entries, fk, (fk.len() - 1) as nat, fk);
    }
}

/// A deleted key is gone.
pub proof fn law_delete_removes(s: Model, path: Seq<char>)
    requires
        spec_delete(s, path).1,
    ensures
        !spec_contains(spec_delete(s, path).0, path),
{
    let keys = split_dots(path);
    lemma_split_dots_nonempty(path);
    lemma_remove_gone(s.entries, keys);
    let s1 = spec_take(s, path).0;
    if lookup(spec_delete(s, path).0.entries, keys) is Some {
        lemma_prune_shrinks(s1.entries, keys, (keys.len() - 1) as nat, keys);
    }
}

/// Removing the raw entry at `keys` twice finds nothing the second time.
proof fn lemma_remove_twice(m: Map<Seq<char>, Node>, keys: Seq<Seq<char>>)
    requires
        keys.len() >= 1,
    ensures
        remove_in(remove_in(m, keys).0, keys).1 is None,
    decreases keys.len(),
{
    let m1 = remove_in(m, keys).0;
    if keys.len() > 1 {
        if let Some(Node::Table(c)) = table_get(m, keys[0]) {
            let c2 = remove_in(c, keys.drop_first()).0;
            assert(table_get(m1, keys[0]) == Some(Node::Table(c2)));
            lemma_remove_twice(c, keys.drop_first());
        }
    }
}

/// A removal at `p` never makes a raw entry appear at `q`.
proof fn lemma_remove_keeps_missing(m: Map<Seq<char>, Node>, p: Seq<Seq<char>>, q: Seq<Seq<char>>)
    requires
        q.len() >= 1,
        remove_in(m, q).1 is None,
    ensures
        remove_in(remove_in(m, p).0, q).1 is None,
    decreases p.len(),
{
    let m1 = remove_in(m, p).0;
    if p.len() == 1 {
        if q.len() > 1 && p[0] != q[0] {
            assert(table_get(m1, q[0]) == table_get(m, q[0]));
        }
    } else if p.len() > 1 {
        if let Some(Node::Table(c)) = table_get(m, p[0]) {
            let c2 = remove_in(c, p.drop_first()).0;
            if p[0] == q[0] {
                if q.len() > 1 {
                    assert(table_get(m1, q[0]) == Some(Node::Table(c2)));
                    lemma_remove_keeps_missing(c, p.drop_first(), q.drop_first());
                }
            } else if q.len() > 1 {
                assert(table_get(m1, q[0]) == table_get(m, q[0]));
            }
        }
    }
}

/// Pruning never makes a raw entry appear at `q`.
proof fn lemma_prune_keeps_missing(m: Map<Seq<char>, Node>, keys: Seq<Seq<char>>, d: nat, q: Seq<Seq<char>>)
    requires
        q.len() >= 1,
        remove_in(m, q).1 is None,
    ensures
        remove_in(prune_from(m, keys, d).0, q).1 is None,
    decreases d,
{
    if d > 0 {
        if let Some(t) = tables_at(m, keys.take(d as int)) {
            if present_keys(t).is_empty() {
                let m2 = remove_in(m, keys.take(d as int)).0;
                lemma_remove_keeps_missing(m, keys.take(d as int), q);
                lemma_prune_keeps_missing(m2, keys, (d - 1) as nat, q);
            }
        }
    }
}

/// Deleting is idempotent: once a key has been deleted, deleting it again
/// changes nothing and reports that nothing was removed.
pub proof fn law_delete_twice_is_noop(s: Model, path: Seq<char>)
    ensures
        ({
            let s1 = spec_delete(s, path).0;
            spec_delete(s1, path) == (s1, false)
        }),
{
    let keys = split_dots(path);
    lemma_split_dots_nonempty(path);
    let (s0, r) = spec_take(s, path);
    lemma_remove_twice(s.entries, keys);
    if r is Some {
        lemma_prune_keeps_missing(s0.entries, keys, (keys.len() - 1) as nat, keys);
    }
    let s1 = spec_delete(s, path).0;
    lemma_remove_none_unchanged(s1.entries, keys);
}

/// Deleting leaves every other existing key that is not an ancestor of the
/// deleted one.
pub proof fn law_delete_keeps_unrelated(s: Model, path: Seq<char>, other: Seq<char>)
    requires
        spec_contains(s, other),
        !is_prefix(split_dots(other), split_dots(path)),
        !is_prefix(split_dots(path), split_dots(other)),
    ensures
        lookup(spec_delete(s, path).0.entries, split_dots(other)) == lookup(
            s.entries,
            split_dots(other),
        ),
{
    let keys = split_dots(path);
    let q = split_dots(other);
    lemma_split_dots_nonempty(path);
    lemma_split_dots_nonempty(other);
    lemma_remove_frame(s.entries, keys, q);
    let s1 = spec_take(s, path).0;
    assert forall|j: int| 1 <= j <= (keys.len() - 1) as nat implies !is_prefix(
        q,
        #[trigger] keys.take(j),
    ) by {
        if is_prefix(q, keys.take(j)) {
            assert(keys.take(q.len() as int) =~= keys.take(j).take(q.len() as int));
        }
    }
    if spec_take(s, path).1 is Some {
        lemma_prune_keeps(s1.entries, keys, (keys.len() - 1) as nat, q);
    }
}

/// A removal at `p` leaves every path unrelated to `p` as it was.
proof fn lemma_remove_frame(m: Map<Seq<char>, Node>, p: Seq<Seq<char>>, q: Seq<Seq<char>>)
    requires
        p.len() >= 1,
        q.len() >= 1,
        !is_prefix(q, p),
        !is_prefix(p, q),
    ensures
        lookup(remove_in(m, p).0, q) == lookup(m, q),
    decreases p.len(),
{
    let m2 = remove_in(m, p).0;
    if q[0] != p[0] {
        assert(table_get(m2, q[0]) == table_get(m, q[0]));
    } else {
        lemma_prefix_rest(q, p);
        lemma_prefix_rest(p, q);
        if q.len() == 1 {
            assert(is_prefix(q, p)) by {
                assert(p.take(1) =~= q);
            }
        } else if p.len() == 1 {
            assert(is_prefix(p, q)) by {
                assert(q.take(1) =~= p);
            }
        } else {
            if let Some(Node::Table(c)) = table_get(m, p[0]) {
                lemma_remove_frame(c, p.drop_first(), q.drop_first());
            }
        }
    }
}

/// An enum-to-bool transform that reports success has written, at `to`, the
/// boolean telling whether the source string matched; the source is gone
/// unless it sat inside an inline table, which no removal reaches.
pub proof fn law_enum_to_bool_writes_match(
    s: Model,
    from: Seq<char>,
    to: Seq<char>,
    match_value: Option<Seq<char>>,
    cur: Seq<char>,
)
    requires
        !spec_contains(s, to),
        lookup(s.entries, split_dots(from)) == Some(Node::Str(cur)),
        spec_enum_to_bool(s, from, to, match_value).1,
    ensures
        lookup(spec_enum_to_bool(s, from, to, match_value).0.entries, split_dots(to)) == Some(
            Node::Bool(match_value == Some(cur)),
        ),
        remove_in(s.entries, split_dots(from)).1 is Some ==> !spec_contains(
            spec_enum_to_bool(s, from, to, match_value).0,
            from,
        ),
{
    let fk = split_dots(from);
    let tk = split_dots(to);
    let b = Node::Bool(match_value == Some(cur));
    lemma_split_dots_nonempty(from);
    lemma_split_dots_nonempty(to);
    let s1 = spec_take(s, from).0;
    let s2 = spec_set(s1, to, b).0;
    lemma_missing_not_prefix(s.entries, tk, fk);
    if is_prefix(fk, tk) {
        if fk.len() == tk.len() {
            assert(tk.take(fk.len() as int) =~= tk);
        } else {
            lemma_set_in_settable(s.entries, tk, b);
            lemma_below_value_not_settable(s.entries, fk, tk, cur);
        }
    }
    lemma_set_in_settable(s.entries, tk, b);
    if remove_in(s.entries, fk).1 is Some {
        lemma_remove_keeps_settable(s.entries, fk, tk);
    } else {
        lemma_remove_none_unchanged(s.entries, fk);
    }
    lemma_set_in_settable(s1.entries, tk, b);
    lemma_set_lookup(s1.entries, tk, b);
    assert forall|j: int| 1 <= j <= (fk.len() - 1) as nat implies !is_prefix(
        tk,
        #[trigger] fk.take(j),
    ) by {
        lemma_lookup_prefix(s.entries, fk, j);
        lemma_missing_not_prefix(s.entries, tk, fk.take(j));
    }
    lemma_prune_keeps(s2.entries, fk, (fk.len() - 1) as nat, tk);
    if remove_in(s.entries, fk).1 is Some {
        lemma_remove_gone(s.entries, fk);
        lemma_set_frame(s1.entries, tk, b, fk);
        if lookup(spec_prune(s2, from).entries, fk) is Some {
            lemma_prune_shrinks(s2.entries, fk, (fk.len() - 1) as nat, fk);
        }
    }
}

/// Repeating an enum-to-bool transform changes nothing and reports that
/// nothing was done.
pub proof fn law_enum_to_bool_twice_is_noop(
    s: Model,
    from: Seq<char>,
    to: Seq<char>,
    match_value: Option<Seq<char>>,
)
    ensures
        ({
            let s1 = spec_enum_to_bool(s, from, to, match_value).0;
            spec_enum_to_bool(s1, from, to, match_value) == (s1, false)
        }),
{
    if spec_enum_to_bool(s, from, to, match_value).1 {
        let cur = (lookup(s.entries, split_dots(from))->0)->Str_0;
        law_enum_to_bool_writes_match(s, from, to, match_value, cur);
    }
}

/// The unsaved-changes flag: an edit that reports success leaves the flag
/// set; one that reports failure leaves the whole model, flag included, as
/// it was.
pub proof fn law_unsaved_flag(
    s: Model,
    path: Seq<char>,
    to: Seq<char>,
    v: Node,
    match_value: Option<Seq<char>>,
)
    ensures
        spec_set(s, path, v).1 ==> spec_set(s, path, v).0.dirty,
        !spec_set(s, path, v).1 ==> spec_set(s, path, v).0 == s,
        spec_take(s, path).1 is Some ==> spec_take(s, path).0.dirty,
        spec_take(s, path).1 is None ==> spec_take(s, path).0 == s,
        spec_delete(s, path).1 ==> spec_delete(s, path).0.dirty,
        !spec_delete(s, path).1 ==> spec_delete(s, path).0 == s,
        spec_rename(s, path, to).1 ==> spec_rename(s, path, to).0.dirty,
        !spec_rename(s, path, to).1 ==> spec_rename(s, path, to).0 == s,
        spec_enum_to_bool(s, path, to, match_value).1 ==> spec_enum_to_bool(
            s,
            path,
            to,
            match_value,
        ).0.dirty,
        !spec_enum_to_bool(s, path, to, match_value).1 ==> spec_enum_to_bool(
            s,
            path,
            to,
            match_value,
        ).0 == s,
{
    if spec_take(s, path).1 is None {
        lemma_remove_none_unchanged(s.entries, split_dots(path));
    }
}

/// One call on a config store, as far as the unsaved-changes flag sees it.
pub enum Call {
    /// `set_item` and the typed setters built on it.
    Store(Seq<char>, Node),
    /// `remove`.
    Remove(Seq<char>),
    /// `delete_key`.
    Delete(Seq<char>),
    /// `rename_key`.
    Rename(Seq<char>, Seq<char>),
    /// `transform_enum_to_bool`.
    EnumToBool(Seq<char>, Seq<char>, Option<Seq<char>>),
    /// A successful `reload_from_source` that parsed these entries.
    Reload(Map<Seq<char>, Node>),
    /// `take_dirty`, which saving also calls.
    TakeDirty,
    /// Any read (`get_*`, `contains`, `child_keys`, `is_dirty`, `render`).
    Read,
}

/// The model after `c`, and whether `c` reported success.
pub open spec fn step(s: Model, c: Call) -> (Model, bool) {
    match c {
        Call::Store(p, v) => spec_set(s, p, v),
        Call::Remove(p) => {
            let (m, r) = spec_take(s, p);
            (m, r is Some)
        },
        Call::Delete(p) => spec_delete(s, p),
        Call::Rename(f, t) => spec_rename(s, f, t),
        Call::EnumToBool(f, t, mv) => spec_enum_to_bool(s, f, t, mv),
        Call::Reload(e) => (Model { entries: e, dirty: false }, true),
        Call::TakeDirty => (Model { dirty: false, ..s }, s.dirty),
        Call::Read => (s, false),
    }
}

/// Whether `c` is an edit of the document.
pub open spec fn is_edit(c: Call) -> bool {
    ||| c is Store
    ||| c is Remove
    ||| c is Delete
    ||| c is Rename
    ||| c is EnumToBool
}

/// Whether `c` clears the unsaved-changes flag.
pub open spec fn clears(c: Call) -> bool {
    c is Reload || c is TakeDirty
}

/// The model after the calls `cs`, in order.
pub open spec fn run_calls(s: Model, cs: Seq<Call>) -> Model
    decreases cs.len(),
{
    if cs.len() == 0 {
        s
    } else {
        step(run_calls(s, cs.drop_last()), cs.last()).0
    }
}

/// Call `i` of `cs` is an edit that reported success.
pub open spec fn edit_succeeded(s: Model, cs: Seq<Call>, i: int) -> bool {
    is_edit(cs[i]) && step(run_calls(s, cs.take(i)), cs[i]).1
}

/// No call of `cs` after index `i` clears the flag.
pub open spec fn uncleared_after(cs: Seq<Call>, i: int) -> bool {
    forall|j: int| i < j < cs.len() ==> !clears(#[trigger] cs[j])
}

/// The flag after the calls `cs`, as the documentation describes it.
pub open spec fn flag_expected(s: Model, cs: Seq<Call>) -> bool {
    ||| exists|i: int| 0 <= i < cs.len() && #[trigger] edit_succeeded(s, cs, i) && uncleared_after(cs, i)
    ||| s.dirty && uncleared_after(cs, -1)
}

proof fn lemma_step_flag(s: Model, c: Call)
    ensures
        clears(c) ==> !step(s, c).0.dirty,
        !clears(c) && !(is_edit(c) && step(s, c).1) ==> step(s, c).0.dirty == s.dirty,
        is_edit(c) && step(s, c).1 ==> step(s, c).0.dirty,
{
    match c {
        Call::Store(p, v) => law_unsaved_flag(s, p, p, v, None),
        Call::Remove(p) => law_unsaved_flag(s, p, p, Node::Absent, None),
        Call::Delete(p) => law_unsaved_flag(s, p, p, Node::Absent, None),
        Call::Rename(f, t) => law_unsaved_flag(s, f, t, Node::Absent, None),
        Call::EnumToBool(f, t, mv) => law_unsaved_flag(s, f, t, Node::Absent, mv),
        _ => {},
    }
}

/// The unsaved-changes flag over any sequence of calls: it is set exactly
/// when some edit since the last reload or `take_dirty` (or the start, if the
/// flag was set then) reported success. Reads never change it.
pub proof fn law_unsaved_flag_over_calls(s: Model, cs: Seq<Call>)
    ensures
        run_calls(s, cs).dirty == flag_expected(s, cs),
    decreases cs.len(),
{
    if cs.len() == 0 {
        assert(uncleared_after(cs, -1));
    } else {
        let pre = cs.drop_last();
        let c = cs.last();
        let n = cs.len() - 1;
        law_unsaved_flag_over_calls(s, pre);
        let mid = run_calls(s, pre);
        lemma_step_flag(mid, c);
        assert(cs.take(n) =~= pre);
        assert(cs[n] == c);
        assert forall|i: int| 0 <= i < n implies #[trigger] edit_succeeded(s, cs, i) == edit_succeeded(
            s,
            pre,
            i,
        ) by {
            assert(cs.take(i) =~= pre.take(i));
            assert(cs[i] == pre[i]);
        }
        assert forall|i: int| -1 <= i < n implies uncleared_after(cs, i) == (uncleared_after(pre, i)
            && !clears(c)) by {
            if uncleared_after(cs, i) {
                assert forall|j: int| i < j < pre.len() implies !clears(#[trigger] pre[j]) by {
                    assert(cs[j] == pre[j]);
                }
            }
            if uncleared_after(pre, i) && !clears(c) {
                assert forall|j: int| i < j < cs.len() implies !clears(#[trigger] cs[j]) by {
                    if j < n {
                        assert(cs[j] == pre[j]);
                    }
                }
            }
        }
        assert(uncleared_after(cs, n));
        if clears(c) {
            if flag_expected(s, cs) {
                if s.dirty && uncleared_after(cs, -1) {
                    assert(!clears(cs[n]));
                } else {
                    let i = choose|i: int|
                        0 <= i < cs.len() && #[trigger] edit_succeeded(s, cs, i) && uncleared_after(cs, i);
                    if i < n {
                        assert(!clears(cs[n]));
                    }
                }
            }
        } else if is_edit(c) && step(mid, c).1 {
            assert(edit_succeeded(s, cs, n));
        } else {
            assert(!edit_succeeded(s, cs, n));
            if flag_expected(s, pre) {
                if !(s.dirty && uncleared_after(pre, -1)) {
                    let i = choose|i: int|
                        0 <= i < pre.len() && #[trigger] edit_succeeded(s, pre, i) && uncleared_after(pre, i);
                    assert(edit_succeeded(s, cs, i) && uncleared_after(cs, i));
                }
            }
            if flag_expected(s, cs) {
                if !(s.dirty && uncleared_after(cs, -1)) {
                    let i = choose|i: int|
                        0 <= i < cs.len() && #[trigger] edit_succeeded(s, cs, i) && uncleared_after(cs, i);
                    assert(i < n);
                    assert(edit_succeeded(s, pre, i) && uncleared_after(pre, i));
                }
            }
        }
    }
}

/// Within one migration, renames run before deletions: a key that a rename
/// moves out of a table the same migration deletes is found at its new path
/// afterwards, holding the value it held before.
pub proof fn law_renames_run_before_deletions(s: Model, m: Migration)
    requires
        m.rename@.len() == 1,
        m.transform@.len() == 0,
        m.delete@.len() == 1,
        spec_contains(s, m.rename@[0].from@),
        spec_rename(s, m.rename@[0].from@, m.rename@[0].to@).1,
        !is_prefix(split_dots(m.delete@[0].key@), split_dots(m.rename@[0].to@)),
        !is_prefix(split_dots(m.rename@[0].to@), split_dots(m.delete@[0].key@)),
    ensures
        lookup(apply_migration(s, m).entries, split_dots(m.rename@[0].to@)) == lookup(
            s.entries,
            split_dots(m.rename@[0].from@),
        ),
        lookup(s.entries, split_dots(m.rename@[0].from@)) is Some,
{
    let from = m.rename@[0].from@;
    let to = m.rename@[0].to@;
    let key = m.delete@[0].key@;
    reveal_with_fuel(apply_renames, 2);
    reveal_with_fuel(apply_transforms, 1);
    reveal_with_fuel(apply_deletes, 2);
    let s1 = spec_rename(s, from, to).0;
    assert(m.rename@.drop_first().len() == 0);
    assert(apply_renames(s, m.rename@) == s1);
    assert(apply_transforms(s1, m.transform@) == s1);
    assert(m.delete@.drop_first().len() == 0);
    assert(apply_deletes(s1, m.delete@) == spec_delete(s1, key).0);
    law_rename_moves_value(s, from, to);
    law_delete_keeps_unrelated(s1, key, to);
}

/// Migrating is idempotent: once a run has recorded the target version under
/// a top-level key, running again does nothing.
pub proof fn law_migration_idempotent(schema: Schema, s: Model)
    requires
        split_dots(version_key_of(schema)).len() == 1,
    ensures
        spec_run(schema, spec_run(schema, s).0) == (spec_run(schema, s).0, false),
{
    let key = version_key_of(schema);
    if spec_run(schema, s).1 {
        let target = schema.schema_version->0;
        let s1 = spec_run(schema, s).0;
        let mid = crate::migrate::apply_pending(
            s,
            schema.migrations@,
            match spec_version(s, key) {
                Some(v) => v,
                None => 0,
            },
            target,
        );
        lemma_set_lookup(mid.entries, split_dots(key), Node::Int(target as i64));
        assert(spec_version(s1, key) == Some(target));
    }
}

} // verus!
