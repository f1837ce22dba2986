//! The config file held in memory as a format-preserving TOML document, read
//! and edited by dot-separated key paths.

use vstd::prelude::*;

use std::path::PathBuf;

use toml_edit::{DocumentMut, Item, TomlError};

use crate::document::{
    doc_table, item_at, like_key_order, table_key_order, walk_items,
    bool_item, doc_entries, int_item, item_as_bool, item_as_integer, item_as_str, item_clone,
    item_like_get, item_like_keys, item_node, like_keys, lists_exactly, parse_document, parse_toml,
    present_keys, render_document, table_entries, root_table, str_item, swap_root, table_get as table_lookup,
    table_item, table_keys, table_new, toml_text, Node,
};
use crate::edit::{
    can_set_table, is_prefix, key_seq, lemma_below_value_not_settable, lemma_remove_keeps_settable,
    lemma_remove_none_unchanged, lemma_removed_prefix_settable, lemma_set_in_settable, lookup,
    prune_from, prune_table, remove_in, remove_in_table, set_in, set_in_table, walk,
};
use crate::keypath::{lemma_split_dots_nonempty, split_dots, split_path, str_eq};

verus! {

#[verifier::external_type_specification]
#[verifier::external_body]
pub struct ExIoError(std::io::Error);

#[verifier::external_type_specification]
#[verifier::external_body]
pub struct ExPathBuf(PathBuf);

/// Why a config file could not be loaded or saved.
pub enum Error {
    Io(std::io::Error),
    Parse(TomlError),
}

/// Whether whole-number values are written as TOML integers or floats.
#[derive(Clone, Copy, Debug, PartialEq, Eq, Structural)]
pub enum NumberRepr {
    WholeAsInteger,
    AlwaysFloat,
}

/// No option string holds a `'.'`.
pub open spec fn all_dot_free(options: Seq<Seq<char>>) -> bool {
    forall|i: int, j: int|
        0 <= i < options.len() && 0 <= j < options[i].len() ==> options[i][j] != '.'
}

impl NumberRepr {
    /// No `.` in any option string → integer literals; otherwise floats.
    pub fn from_options(options: &[String]) -> (r: NumberRepr)
        ensures
            r == (if all_dot_free(options@.map_values(|o: String| o@)) {
                NumberRepr::WholeAsInteger
            } else {
                NumberRepr::AlwaysFloat
            }),
    {
        let ghost opts = options@.map_values(|o: String| o@);
        let mut i: usize = 0;
        while i < options.len()
            invariant
                i <= options@.len(),
                opts == options@.map_values(|o: String| o@),
                opts.len() == options@.len(),
                forall|a: int, b: int| 0 <= a < i && 0 <= b < opts[a].len() ==> opts[a][b] != '.',
            decreases options@.len() - i,
        {
            let o = options[i].as_str();
            let n = o.unicode_len();
            let mut j: usize = 0;
            while j < n
                invariant
                    i < options@.len(),
                    opts == options@.map_values(|o: String| o@),
                    opts.len() == options@.len(),
                    n == opts[i as int].len(),
                    o@ == opts[i as int],
                    j <= n,
                    forall|b: int| 0 <= b < j ==> opts[i as int][b] != '.',
                decreases n - j,
            {
                if o.get_char(j) == '.' {
                    assert(opts[i as int][j as int] == '.');
                    assert(!all_dot_free(opts));
                    return NumberRepr::AlwaysFloat;
                }
                j = j + 1;
            }
            i = i + 1;
        }
        NumberRepr::WholeAsInteger
    }
}

/// The store as the contracts see it: the root entries of the document and
/// the unsaved-changes flag.
pub struct Model {
    pub entries: Map<Seq<char>, Node>,
    pub dirty: bool,
}

/// Stores `v` at `path`, creating missing tables; the flag is set on success.
pub open spec fn spec_set(s: Model, path: Seq<char>, v: Node) -> (Model, bool) {
    match set_in(s.entries, split_dots(path), v) {
        Some(e) => (Model { entries: e, dirty: true }, true),
        None => (s, false),
    }
}

/// Removes the raw entry at `path`; the flag is set when something was removed.
pub open spec fn spec_take(s: Model, path: Seq<char>) -> (Model, Option<Node>) {
    let (e, r) = remove_in(s.entries, split_dots(path));
    (Model { entries: e, dirty: s.dirty || r is Some }, r)
}

/// Removes the emptied ancestor tables of `path`, deepest first.
pub open spec fn spec_prune(s: Model, path: Seq<char>) -> Model {
    let keys = split_dots(path);
    let (e, r) = prune_from(s.entries, keys, (keys.len() - 1) as nat);
    Model { entries: e, dirty: s.dirty || r }
}

/// Whether any item is stored at `path`.
pub open spec fn spec_contains(s: Model, path: Seq<char>) -> bool {
    lookup(s.entries, split_dots(path)) is Some
}

/// Moves the item at `from` to `to`, then removes the emptied ancestors of
/// `from`. Nothing happens when the paths are equal, `to` exists, `from` is
/// not reached through standard tables, or `to` cannot be written once `from`
/// is taken.
pub open spec fn spec_rename(s: Model, from: Seq<char>, to: Seq<char>) -> (Model, bool) {
    if from == to || spec_contains(s, to) {
        (s, false)
    } else {
        let (s1, taken) = spec_take(s, from);
        match taken {
            None => (s, false),
            Some(n) => {
                let (s2, ok) = spec_set(s1, to, n);
                if ok {
                    (spec_prune(s2, from), true)
                } else {
                    (s, false)
                }
            },
        }
    }
}

/// Removes the entry at `path` and, when one was removed, its emptied ancestors.
pub open spec fn spec_delete(s: Model, path: Seq<char>) -> (Model, bool) {
    let (s1, r) = spec_take(s, path);
    if r is Some {
        (spec_prune(s1, path), true)
    } else {
        (s, false)
    }
}

/// Replaces the string at `from` by a boolean at `to` that tells whether it
/// equalled `match_value`, then removes the emptied ancestors of `from`.
/// Nothing happens when `to` exists, `from` holds no string, or `to` cannot
/// be written. A string inside an inline table is read but not removed.
pub open spec fn spec_enum_to_bool(
    s: Model,
    from: Seq<char>,
    to: Seq<char>,
    match_value: Option<Seq<char>>,
) -> (Model, bool) {
    if spec_contains(s, to) {
        (s, false)
    } else {
        match lookup(s.entries, split_dots(from)) {
            Some(Node::Str(cur)) => {
                let b = Node::Bool(match_value == Some(cur));
                if !spec_set(s, to, b).1 {
                    (s, false)
                } else {
                    let s1 = spec_take(s, from).0;
                    let s2 = spec_set(s1, to, b).0;
                    (spec_prune(s2, from), true)
                }
            },
            _ => (s, false),
        }
    }
}

/// The migration version recorded at `key`: a non-negative integer that fits `u32`.
pub open spec fn spec_version(s: Model, key: Seq<char>) -> Option<u32> {
    match lookup(s.entries, split_dots(key)) {
        Some(Node::Int(i)) => if 0 <= i <= u32::MAX {
            Some(i as u32)
        } else {
            None
        },
        _ => None,
    }
}

/// The child keys listed for `path` (`""` = the document root).
pub open spec fn spec_child_keys(s: Model, path: Seq<char>) -> Set<Seq<char>> {
    if path.len() == 0 {
        present_keys(s.entries)
    } else {
        match lookup(s.entries, split_dots(path)) {
            Some(n) => match like_keys(n) {
                Some(ks) => ks,
                None => Set::empty(),
            },
            None => Set::empty(),
        }
    }
}

/// A TOML config file held in memory with its formatting and comments.
pub struct ConfigStore {
    doc: DocumentMut,
    path: PathBuf,
    /// Set whenever an edit changes the document; cleared by `take_dirty`.
    dirty: bool,
}

impl View for ConfigStore {
    type V = Model;

    closed spec fn view(&self) -> Model {
        Model { entries: doc_entries(self.doc), dirty: self.dirty }
    }
}

impl ConfigStore {
    /// The text the document renders to.
    pub closed spec fn text(&self) -> Seq<char> {
        toml_text(self.doc)
    }

    /// The item of the document at the key path `keys`.
    pub closed spec fn item_at_path(&self, keys: Seq<Seq<char>>) -> Option<Item> {
        item_at(self.doc, keys)
    }

    /// The child keys of the table at `path` (`""` = the root) in the order
    /// `toml_edit` lists them, the document order; none when `path` holds no
    /// table.
    pub closed spec fn key_order_at(&self, path: Seq<char>) -> Seq<Seq<char>> {
        if path.len() == 0 {
            table_key_order(doc_table(self.doc))
        } else {
            match item_at(self.doc, split_dots(path)) {
                Some(i) => if like_keys(item_node(i)) is Some {
                    like_key_order(i)
                } else {
                    Seq::empty()
                },
                None => Seq::empty(),
            }
        }
    }

    /// The file the store was loaded from.
    pub closed spec fn location(&self) -> PathBuf {
        self.path
    }

    /// Parses `source`, the contents of the file at `path`, preserving all
    /// formatting and comments.
    pub fn from_source(source: &str, path: PathBuf) -> (r: Result<ConfigStore, Error>)
        ensures
            r is Ok <==> parse_toml(source@) is Some,
            r matches Ok(s) ==> s@ == (Model { entries: parse_toml(source@)->0, dirty: false })
                && s.location() == path,
            r matches Err(e) ==> e is Parse,
    {
        match parse_document(source) {
            Ok(doc) => Ok(ConfigStore { doc, path, dirty: false }),
            Err(e) => Err(Error::Parse(e)),
        }
    }

    /// Discards the in-memory state for `source`, the file's current contents;
    /// clears the flag on success and changes nothing on a parse error.
    pub fn reload_from_source(&mut self, source: &str) -> (r: Result<(), Error>)
        ensures
            r is Ok <==> parse_toml(source@) is Some,
            r is Ok ==> final(self)@ == (Model { entries: parse_toml(source@)->0, dirty: false }),
            r is Err ==> final(self)@ == old(self)@ && final(self).text() == old(self).text(),
            r matches Err(e) ==> e is Parse,
            final(self).location() == old(self).location(),
    {
        match parse_document(source) {
            Ok(doc) => {
                self.doc = doc;
                self.dirty = false;
                Ok(())
            },
            Err(e) => Err(Error::Parse(e)),
        }
    }

    /// The document as TOML text, formatting and comments preserved.
    pub fn render(&self) -> (r: String)
        ensures
            r@ == self.text(),
    {
        render_document(&self.doc)
    }

    /// Returns `true` if unsaved changes exist, then clears the flag.
    pub fn take_dirty(&mut self) -> (r: bool)
        ensures
            r == old(self)@.dirty,
            final(self)@ == (Model { dirty: false, ..old(self)@ }),
            final(self).text() == old(self).text(),
            final(self).location() == old(self).location(),
    {
        let d = self.dirty;
        self.dirty = false;
        d
    }

    /// Returns `true` if unsaved changes exist, without clearing the flag.
    pub fn is_dirty(&self) -> (r: bool)
        ensures
            r == self@.dirty,
    {
        self.dirty
    }

    /// The file the store was loaded from.
    pub fn path(&self) -> (r: &PathBuf)
        ensures
            *r == self.location(),
    {
        &self.path
    }

    /// The item at the dot-separated `path`, found through standard and
    /// inline tables.
    pub fn get_item<'a>(&'a self, path: &str) -> (r: Option<&'a Item>)
        ensures
            r is Some <==> lookup(self@.entries, split_dots(path@)) is Some,
            r matches Some(i) ==> lookup(self@.entries, split_dots(path@)) == Some(item_node(*i)),
            r matches Some(i) ==> self.item_at_path(split_dots(path@)) == Some(*i),
            r is None ==> self.item_at_path(split_dots(path@)) is None,
    {
        let parts = split_path(path);
        let ghost ks = split_dots(path@);
        let root = root_table(&self.doc);
        let mut cur = match table_lookup(root, parts[0]) {
            Some(i) => i,
            None => return None,
        };
        proof {
            assert(ks[0] == parts@[0]@);
            assert(ks.skip(1) =~= ks.drop_first());
        }
        let mut i: usize = 1;
        while i < parts.len()
            invariant
                1 <= i <= parts@.len(),
                ks == key_seq(parts@),
                ks == split_dots(path@),
                lookup(self@.entries, ks) == walk(item_node(*cur), ks.skip(i as int)),
                item_at(self.doc, ks) == walk_items(*cur, ks.skip(i as int)),
            decreases parts@.len() - i,
        {
            proof {
                assert(ks.skip(i as int)[0] == parts@[i as int]@);
                assert(ks.skip(i as int).drop_first() =~= ks.skip(i + 1));
            }
            match item_like_get(cur, parts[i]) {
                Some(c) => {
                    cur = c;
                },
                None => {
                    assert(walk(item_node(*cur), ks.skip(i as int)) is None);
                    return None;
                },
            }
            i = i + 1;
        }
        proof {
            assert(ks.skip(i as int).len() == 0);
        }
        Some(cur)
    }

    /// Get a string value by dot-separated path.
    pub fn get_str<'a>(&'a self, path: &str) -> (r: Option<&'a str>)
        ensures
            match lookup(self@.entries, split_dots(path@)) {
                Some(Node::Str(s)) => r matches Some(v) && v@ == s,
                _ => r is None,
            },
    {
        match self.get_item(path) {
            Some(i) => item_as_str(i),
            None => None,
        }
    }

    /// Get a boolean value by dot-separated path.
    pub fn get_bool(&self, path: &str) -> (r: Option<bool>)
        ensures
            match lookup(self@.entries, split_dots(path@)) {
                Some(Node::Bool(b)) => r == Some(b),
                _ => r is None,
            },
    {
        match self.get_item(path) {
            Some(i) => item_as_bool(i),
            None => None,
        }
    }

    /// Returns `true` if a value or table exists at `path`.
    pub fn contains(&self, path: &str) -> (r: bool)
        ensures
            r == spec_contains(self@, path@),
    {
        self.get_item(path).is_some()
    }

    /// Read the migration version recorded at `key`. Returns `None` when the key
    /// is absent or is not a non-negative integer.
    pub fn get_version(&self, key: &str) -> (r: Option<u32>)
        ensures
            r == spec_version(self@, key@),
    {
        match self.get_item(key) {
            Some(i) => match item_as_integer(i) {
                Some(n) => if 0 <= n && n <= 0xffff_ffff {
                    Some(n as u32)
                } else {
                    None
                },
                None => None,
            },
            None => None,
        }
    }

    /// Immediate child keys of the table at `path` (`""` = document root).
    pub fn child_keys(&self, path: &str) -> (r: Vec<String>)
        ensures
            lists_exactly(r@.map_values(|s: String| s@), spec_child_keys(self@, path@)),
            r@.map_values(|s: String| s@) == self.key_order_at(path@),
    {
        if path.unicode_len() == 0 {
            return table_keys(root_table(&self.doc));
        }
        match self.get_item(path) {
            Some(i) => match item_like_keys(i) {
                Some(v) => v,
                None => {
                    let v: Vec<String> = Vec::new();
                    assert(v@.map_values(|s: String| s@) =~= Seq::<Seq<char>>::empty());
                    assert(Seq::<Seq<char>>::empty().to_set() =~= Set::<Seq<char>>::empty());
                    v
                },
            },
            None => {
                let v: Vec<String> = Vec::new();
                assert(v@.map_values(|s: String| s@) =~= Seq::<Seq<char>>::empty());
                assert(Seq::<Seq<char>>::empty().to_set() =~= Set::<Seq<char>>::empty());
                v
            },
        }
    }

    /// Return the immediate child keys of the table at `path`.
    /// Used to enumerate sub-sections for `section_map` tabs.
    pub fn section_keys(&self, path: &str) -> (r: Vec<String>)
        ensures
            lists_exactly(r@.map_values(|s: String| s@), spec_child_keys(self@, path@)),
            r@.map_values(|s: String| s@) == self.key_order_at(path@),
    {
        self.child_keys(path)
    }

    /// Stores `item` at `path`, creating intermediate tables as needed.
    /// Returns `false`, changing nothing, when the path passes through a
    /// non-table.
    pub fn set_item(&mut self, path: &str, item: Item) -> (ok: bool)
        ensures
            (final(self)@, ok) == spec_set(old(self)@, path@, item_node(item)),
            final(self).location() == old(self).location(),
    {
        let parts = split_path(path);
        proof {
            assert(key_seq(parts@).skip(0) =~= split_dots(path@));
        }
        let mut root = swap_root(&mut self.doc, table_new());
        let ok = set_in_table(&mut root, &parts, 0, item);
        let _ = swap_root(&mut self.doc, root);
        if ok {
            self.dirty = true;
        }
        ok
    }

    /// Set a string value by dot-separated path, creating intermediate tables as needed.
    pub fn set_str(&mut self, path: &str, value: &str) -> (ok: bool)
        ensures
            (final(self)@, ok) == spec_set(old(self)@, path@, Node::Str(value@)),
            final(self).location() == old(self).location(),
    {
        self.set_item(path, str_item(value))
    }

    /// Set a boolean value by dot-separated path, creating intermediate tables as needed.
    pub fn set_bool(&mut self, path: &str, value: bool) -> (ok: bool)
        ensures
            (final(self)@, ok) == spec_set(old(self)@, path@, Node::Bool(value)),
            final(self).location() == old(self).location(),
    {
        self.set_item(path, bool_item(value))
    }

    /// Insert an empty table at `path`, creating intermediate tables as needed.
    pub fn set_table(&mut self, path: &str) -> (ok: bool)
        ensures
            (final(self)@, ok) == spec_set(
                old(self)@,
                path@,
                Node::Table(Map::<Seq<char>, Node>::empty()),
            ),
            final(self).location() == old(self).location(),
    {
        let t = table_new();
        proof {
            assert(table_entries(t) =~= Map::<Seq<char>, Node>::empty());
        }
        self.set_item(path, table_item(t))
    }

    /// Record the migration version at `key`, written as a TOML integer.
    pub fn set_version(&mut self, key: &str, version: u32) -> (ok: bool)
        ensures
            (final(self)@, ok) == spec_set(old(self)@, key@, Node::Int(version as i64)),
            final(self).location() == old(self).location(),
    {
        self.set_item(key, int_item(version as i64))
    }

    /// Remove the raw entry at `path` and return it, if present.
    fn take_item(&mut self, path: &str) -> (r: Option<Item>)
        ensures
            final(self)@ == spec_take(old(self)@, path@).0,
            r is Some <==> spec_take(old(self)@, path@).1 is Some,
            r matches Some(i) ==> spec_take(old(self)@, path@).1 == Some(item_node(i)),
            final(self).location() == old(self).location(),
    {
        let parts = split_path(path);
        proof {
            assert(key_seq(parts@).subrange(0, parts@.len() as int) =~= split_dots(path@));
        }
        let mut root = swap_root(&mut self.doc, table_new());
        let r = remove_in_table(&mut root, &parts, 0, parts.len());
        let _ = swap_root(&mut self.doc, root);
        if r.is_some() {
            self.dirty = true;
        }
        r
    }

    /// Remove a key by dot-separated path.
    /// Returns `true` if the key existed and was removed.
    pub fn remove(&mut self, path: &str) -> (r: bool)
        ensures
            final(self)@ == spec_take(old(self)@, path@).0,
            r == spec_take(old(self)@, path@).1 is Some,
            final(self).location() == old(self).location(),
    {
        self.take_item(path).is_some()
    }

    /// Remove now-empty ancestor tables of `path`, bottom-up, stopping at the
    /// first non-empty ancestor and never touching the document root.
    fn prune_empty_parents(&mut self, path: &str)
        ensures
            final(self)@ == spec_prune(old(self)@, path@),
            final(self).location() == old(self).location(),
    {
        let parts = split_path(path);
        let mut root = swap_root(&mut self.doc, table_new());
        let removed = prune_table(&mut root, &parts);
        let _ = swap_root(&mut self.doc, root);
        if removed {
            self.dirty = true;
        }
    }

    /// Move the value at `from` to `to`, preserving the value. No-op (returns
    /// `false`) when `from` is absent, `to` already exists, or the destination
    /// path passes through a non-table. Ancestor tables emptied by the move are
    /// pruned.
    pub fn rename_key(&mut self, from: &str, to: &str) -> (r: bool)
        ensures
            (final(self)@, r) == spec_rename(old(self)@, from@, to@),
            final(self).location() == old(self).location(),
    {
        if str_eq(from, to) || self.contains(to) {
            return false;
        }
        let fparts = split_path(from);
        let tparts = split_path(to);
        let ghost m = self@.entries;
        let ghost fk = split_dots(from@);
        let ghost tk = split_dots(to@);
        proof {
            assert(key_seq(fparts@).skip(0) =~= fk);
            assert(key_seq(tparts@).skip(0) =~= tk);
            lemma_split_dots_nonempty(from@);
            lemma_split_dots_nonempty(to@);
        }
        let through = parts_prefix(&fparts, &tparts);
        let movable = through || can_set_table(root_table(&self.doc), &tparts, 0);
        if !movable {
            proof {
                let n = remove_in(m, fk).1;
                if n is Some {
                    lemma_remove_keeps_settable(m, fk, tk);
                    lemma_set_in_settable(remove_in(m, fk).0, tk, n->0);
                }
            }
            return false;
        }
        let item = match self.take_item(from) {
            Some(i) => i,
            None => {
                proof {
                    lemma_remove_none_unchanged(m, fk);
                    assert(self@ == old(self)@);
                }
                return false;
            },
        };
        proof {
            let n = item_node(item);
            if through {
                lemma_removed_prefix_settable(m, fk, tk);
            } else {
                lemma_remove_keeps_settable(m, fk, tk);
            }
            lemma_set_in_settable(remove_in(m, fk).0, tk, n);
        }
        let ok = self.set_item(to, item);
        assert(ok);
        self.prune_empty_parents(from);
        true
    }

    /// Remove the key at `path` and prune any ancestor tables it emptied.
    pub fn delete_key(&mut self, path: &str) -> (r: bool)
        ensures
            (final(self)@, r) == spec_delete(old(self)@, path@),
            final(self).location() == old(self).location(),
    {
        let removed = self.remove(path);
        if removed {
            self.prune_empty_parents(path);
        } else {
            proof {
                lemma_remove_none_unchanged(old(self)@.entries, split_dots(path@));
                assert(self@ == old(self)@);
            }
        }
        removed
    }

    /// Convert an enum-like string to a bool: writes `true` at `to` when the
    /// value at `from` equals `match_value`, otherwise `false`, then removes
    /// `from`. No-op (returns `false`) when `from` holds no string, or `to`
    /// exists or cannot be written. A string read through an inline table
    /// stays where it is.
    pub fn transform_enum_to_bool(&mut self, from: &str, to: &str, match_value: Option<&str>) -> (r:
        bool)
        ensures
            (final(self)@, r) == spec_enum_to_bool(
                old(self)@,
                from@,
                to@,
                match match_value {
                    Some(m) => Some(m@),
                    None => None,
                },
            ),
            final(self).location() == old(self).location(),
    {
        if self.contains(to) {
            return false;
        }
        let ghost mv = match match_value {
            Some(m) => Some(m@),
            None => None,
        };
        let value = match self.get_str(from) {
            Some(current) => match match_value {
                Some(m) => str_eq(m, current),
                None => false,
            },
            None => return false,
        };
        let fparts = split_path(from);
        let tparts = split_path(to);
        let ghost m = self@.entries;
        let ghost fk = split_dots(from@);
        let ghost tk = split_dots(to@);
        let ghost b = Node::Bool(value);
        proof {
            assert(key_seq(tparts@).skip(0) =~= tk);
            lemma_split_dots_nonempty(from@);
            lemma_split_dots_nonempty(to@);
            lemma_set_in_settable(m, tk, b);
        }
        if !can_set_table(root_table(&self.doc), &tparts, 0) {
            return false;
        }
        proof {
            let cur = (lookup(m, fk)->0)->Str_0;
            if is_prefix(fk, tk) {
                if fk.len() == tk.len() {
                    assert(tk.take(fk.len() as int) =~= tk);
                } else {
                    lemma_below_value_not_settable(m, fk, tk, cur);
                }
            }
        }
        let taken = self.take_item(from);
        proof {
            if taken is None {
                lemma_remove_none_unchanged(m, fk);
            } else {
                lemma_remove_keeps_settable(m, fk, tk);
            }
            lemma_set_in_settable(remove_in(m, fk).0, tk, b);
        }
        let ok = self.set_bool(to, value);
        assert(ok);
        self.prune_empty_parents(from);
        true
    }
}

/// Whether the pieces `p` are a prefix of the pieces `q`.
fn parts_prefix(p: &Vec<&str>, q: &Vec<&str>) -> (r: bool)
    ensures
        r == is_prefix(key_seq(p@), key_seq(q@)),
{
    if p.len() > q.len() {
        return false;
    }
    let mut i: usize = 0;
    while i < p.len()
        invariant
            p@.len() <= q@.len(),
            i <= p@.len(),
            forall|j: int| 0 <= j < i ==> key_seq(q@)[j] == key_seq(p@)[j],
        decreases p.len() - i,
    {
        if !str_eq(p[i], q[i]) {
            assert(key_seq(q@).take(p@.len() as int)[i as int] != key_seq(p@)[i as int]);
            return false;
        }
        i = i + 1;
    }
    assert(key_seq(q@).take(p@.len() as int) =~= key_seq(p@));
    true
}

} // verus!
