//! The TOML document model and the `toml_edit` operations the config store
//! is built from.
//!
//! A `toml_edit` table is modelled as a map from keys to [`Node`]s. The model
//! keeps every raw entry of a table, including the rare empty `Item::None`
//! entries (modelled as [`Node::Absent`]) that `toml_edit` hides from `get`,
//! `contains_key`, `iter` and `is_empty` but still removes and returns from
//! `remove`. Formatting, comments and key order are not part of the model.

use vstd::prelude::*;

use toml_edit::{DocumentMut, Item, Table, TomlError};

verus! {

#[verifier::external_type_specification]
#[verifier::external_body]
pub struct ExDocumentMut(DocumentMut);

#[verifier::external_type_specification]
#[verifier::external_body]
pub struct ExTable(Table);

#[verifier::external_type_specification]
#[verifier::external_body]
pub struct ExItem(Item);

#[verifier::external_type_specification]
#[verifier::external_body]
pub struct ExTomlError(TomlError);

/// The shape and scalar content of one TOML item.
pub enum Node {
    /// An empty item (`Item::None`), invisible to lookups.
    Absent,
    /// A standard table (`[header]` or implicit table).
    Table(Map<Seq<char>, Node>),
    /// An inline table value (`{ k = v }`).
    Inline(Map<Seq<char>, Node>),
    Str(Seq<char>),
    Bool(bool),
    Int(i64),
    Float,
    Datetime,
    Array,
    TableArray,
}

/// Raw entries of a `toml_edit` table.
pub uninterp spec fn table_entries(t: Table) -> Map<Seq<char>, Node>;

/// The model of one `toml_edit` item.
pub uninterp spec fn item_node(i: Item) -> Node;

/// Raw entries of the root table of a document.
pub uninterp spec fn doc_entries(d: DocumentMut) -> Map<Seq<char>, Node>;

/// The root entries of the document that `toml_edit` parses from `src`, or
/// `None` when `src` is not valid TOML.
pub uninterp spec fn parse_toml(src: Seq<char>) -> Option<Map<Seq<char>, Node>>;

/// The text `toml_edit` renders for a document.
pub uninterp spec fn toml_text(d: DocumentMut) -> Seq<char>;

/// The root table of a document.
pub uninterp spec fn doc_table(d: DocumentMut) -> Table;

/// The item a table holds under `k`.
pub uninterp spec fn table_child(t: Table, k: Seq<char>) -> Item;

/// The item a table-like item holds under `k`.
pub uninterp spec fn like_child(i: Item, k: Seq<char>) -> Item;

/// The keys `Table::iter` lists, in its order: the order of the document.
pub uninterp spec fn table_key_order(t: Table) -> Seq<Seq<char>>;

/// The keys `TableLike::iter` lists for a table-like item, in its order: the
/// order of the document.
pub uninterp spec fn like_key_order(i: Item) -> Seq<Seq<char>>;

/// The item reached from `i` along `keys` through table-like items.
pub open spec fn walk_items(i: Item, keys: Seq<Seq<char>>) -> Option<Item>
    decreases keys.len(),
{
    if keys.len() == 0 {
        Some(i)
    } else if like_get(item_node(i), keys[0]) is Some {
        walk_items(like_child(i, keys[0]), keys.drop_first())
    } else {
        None
    }
}

/// The item of document `d` at the key path `keys`.
pub open spec fn item_at(d: DocumentMut, keys: Seq<Seq<char>>) -> Option<Item> {
    if keys.len() == 0 || !present(doc_entries(d), keys[0]) {
        None
    } else {
        walk_items(table_child(doc_table(d), keys[0]), keys.drop_first())
    }
}

/// `k` is a key of `m` whose item is not empty (what `Table::contains_key` sees).
pub open spec fn present(m: Map<Seq<char>, Node>, k: Seq<char>) -> bool {
    m.contains_key(k) && !(m[k] is Absent)
}

/// The keys of `m` that `Table::iter` lists.
pub open spec fn present_keys(m: Map<Seq<char>, Node>) -> Set<Seq<char>> {
    m.dom().filter(|k: Seq<char>| !(m[k] is Absent))
}

/// `s` lists every element of `keys` exactly once.
pub open spec fn lists_exactly(s: Seq<Seq<char>>, keys: Set<Seq<char>>) -> bool {
    s.no_duplicates() && s.to_set() == keys
}

/// `TableLike::get` on the item modelled by `n`: standard tables hide empty
/// entries; inline tables hold only values.
pub open spec fn like_get(n: Node, k: Seq<char>) -> Option<Node> {
    match n {
        Node::Table(m) => if present(m, k) { Some(m[k]) } else { None },
        Node::Inline(m) => if m.contains_key(k) { Some(m[k]) } else { None },
        _ => None,
    }
}

/// The keys `TableLike::iter` lists for the item modelled by `n`, if it is
/// table-like.
pub open spec fn like_keys(n: Node) -> Option<Set<Seq<char>>> {
    match n {
        Node::Table(m) => Some(present_keys(m)),
        Node::Inline(m) => Some(m.dom()),
        _ => None,
    }
}

/// Parses TOML text with `<DocumentMut as FromStr>::from_str`. The result is
/// named by `parse_toml`; what the parser accepts and builds is not restated.
#[verifier::external_body]
pub(crate) fn parse_document(src: &str) -> (r: Result<DocumentMut, TomlError>)
    ensures
        r is Ok <==> parse_toml(src@) is Some,
        r matches Ok(d) ==> doc_entries(d) == parse_toml(src@)->0,
{
    src.parse::<DocumentMut>()
}

/// Renders a document with its `Display` impl (`to_string`), which keeps the
/// parsed formatting and comments. The text is named by `toml_text`.
#[verifier::external_body]
pub(crate) fn render_document(d: &DocumentMut) -> (r: String)
    ensures
        r@ == toml_text(*d),
{
    d.to_string()
}

/// `DocumentMut::as_table`: the root table.
#[verifier::external_body]
pub(crate) fn root_table(d: &DocumentMut) -> (r: &Table)
    ensures
        table_entries(*r) == doc_entries(*d),
        *r == doc_table(*d),
{
    d.as_table()
}

/// `DocumentMut::as_table_mut` with `std::mem::replace`: puts `t` in place of
/// the root table and hands the previous root table back.
#[verifier::external_body]
pub(crate) fn swap_root(d: &mut DocumentMut, t: Table) -> (r: Table)
    ensures
        table_entries(r) == doc_entries(*old(d)),
        doc_entries(*final(d)) == table_entries(t),
{
    std::mem::replace(d.as_table_mut(), t)
}

/// `Table::new`: an empty table.
#[verifier::external_body]
pub(crate) fn table_new() -> (r: Table)
    ensures
        table_entries(r).dom().is_empty(),
{
    Table::new()
}

/// `Table::get`: the item under `key`, unless missing or empty.
#[verifier::external_body]
pub(crate) fn table_get<'a>(t: &'a Table, key: &str) -> (r: Option<&'a Item>)
    ensures
        r is Some <==> present(table_entries(*t), key@),
        r matches Some(i) ==> item_node(*i) == table_entries(*t)[key@],
        r matches Some(i) ==> *i == table_child(*t, key@),
{
    t.get(key)
}

/// `Table::contains_key`: whether a non-empty item is stored under `key`.
#[verifier::external_body]
pub(crate) fn table_contains_key(t: &Table, key: &str) -> (r: bool)
    ensures
        r == present(table_entries(*t), key@),
{
    t.contains_key(key)
}

/// `Table::insert`: stores `item` under `key`, handing back the raw item it
/// replaces.
#[verifier::external_body]
pub(crate) fn table_insert(t: &mut Table, key: &str, item: Item) -> (r: Option<Item>)
    ensures
        table_entries(*final(t)) == table_entries(*old(t)).insert(key@, item_node(item)),
        r is Some <==> table_entries(*old(t)).contains_key(key@),
        r matches Some(o) ==> item_node(o) == table_entries(*old(t))[key@],
{
    t.insert(key, item)
}

/// `Table::remove`: removes the raw entry under `key` and hands it back.
#[verifier::external_body]
pub(crate) fn table_remove(t: &mut Table, key: &str) -> (r: Option<Item>)
    ensures
        table_entries(*final(t)) == table_entries(*old(t)).remove(key@),
        r is Some <==> table_entries(*old(t)).contains_key(key@),
        r matches Some(o) ==> item_node(o) == table_entries(*old(t))[key@],
{
    t.remove(key)
}

/// `Table::is_empty`: no non-empty item is stored.
#[verifier::external_body]
pub(crate) fn table_is_empty(t: &Table) -> (r: bool)
    ensures
        r == present_keys(table_entries(*t)).is_empty(),
{
    t.is_empty()
}

/// The keys `Table::iter` lists, in its order, each converted with
/// `to_string`.
#[verifier::external_body]
pub(crate) fn table_keys(t: &Table) -> (r: Vec<String>)
    ensures
        lists_exactly(r@.map_values(|s: String| s@), present_keys(table_entries(*t))),
        r@.map_values(|s: String| s@) == table_key_order(*t),
{
    t.iter().map(|(k, _)| k.to_string()).collect()
}

/// `Table::get_mut` on a standard table under `key`, swapped with
/// `std::mem::replace`: when `key` holds a standard table, `new_child` takes
/// its place and the previous table is handed back; otherwise nothing changes.
#[verifier::external_body]
pub(crate) fn table_swap_child(t: &mut Table, key: &str, new_child: Table) -> (r: Option<Table>)
    ensures
        match like_get(Node::Table(table_entries(*old(t))), key@) {
            Some(Node::Table(m)) => {
                &&& r matches Some(c) && table_entries(c) == m
                &&& table_entries(*final(t)) == table_entries(*old(t)).insert(
                    key@,
                    Node::Table(table_entries(new_child)),
                )
            },
            _ => r is None && table_entries(*final(t)) == table_entries(*old(t)),
        },
{
    match t.get_mut(key) {
        Some(Item::Table(c)) => Some(std::mem::replace(c, new_child)),
        _ => None,
    }
}

/// `Item::as_table`: the standard table an item holds.
#[verifier::external_body]
pub(crate) fn item_as_table(i: &Item) -> (r: Option<&Table>)
    ensures
        match item_node(*i) {
            Node::Table(m) => r matches Some(t) && table_entries(*t) == m,
            _ => r is None,
        },
{
    i.as_table()
}

/// `Item::as_str`: the string an item holds.
#[verifier::external_body]
pub(crate) fn item_as_str(i: &Item) -> (r: Option<&str>)
    ensures
        match item_node(*i) {
            Node::Str(s) => r matches Some(v) && v@ == s,
            _ => r is None,
        },
{
    i.as_str()
}

/// `Item::as_bool`: the boolean an item holds.
#[verifier::external_body]
pub(crate) fn item_as_bool(i: &Item) -> (r: Option<bool>)
    ensures
        match item_node(*i) {
            Node::Bool(b) => r == Some(b),
            _ => r is None,
        },
{
    i.as_bool()
}

/// `Item::as_integer`: the integer an item holds.
#[verifier::external_body]
pub(crate) fn item_as_integer(i: &Item) -> (r: Option<i64>)
    ensures
        match item_node(*i) {
            Node::Int(n) => r == Some(n),
            _ => r is None,
        },
{
    i.as_integer()
}

/// `Item::as_table_like` followed by `TableLike::get`.
#[verifier::external_body]
pub(crate) fn item_like_get<'a>(i: &'a Item, key: &str) -> (r: Option<&'a Item>)
    ensures
        like_get(item_node(*i), key@) is Some <==> r is Some,
        r matches Some(c) ==> like_get(item_node(*i), key@) == Some(item_node(*c)),
        r matches Some(c) ==> *c == like_child(*i, key@),
{
    i.as_table_like().and_then(|t| t.get(key))
}

/// `Item::as_table_like` followed by `TableLike::iter`, in its order, each
/// key converted with `to_string`.
#[verifier::external_body]
pub(crate) fn item_like_keys(i: &Item) -> (r: Option<Vec<String>>)
    ensures
        like_keys(item_node(*i)) is Some <==> r is Some,
        r matches Some(v) ==> lists_exactly(
            v@.map_values(|s: String| s@),
            like_keys(item_node(*i))->0,
        ),
        r matches Some(v) ==> v@.map_values(|s: String| s@) == like_key_order(*i),
{
    i.as_table_like().map(|t| t.iter().map(|(k, _)| k.to_string()).collect())
}

/// `Item::clone`.
#[verifier::external_body]
pub(crate) fn item_clone(i: &Item) -> (r: Item)
    ensures
        item_node(r) == item_node(*i),
{
    i.clone()
}

/// `toml_edit::value` on a string.
#[verifier::external_body]
pub(crate) fn str_item(s: &str) -> (r: Item)
    ensures
        item_node(r) == Node::Str(s@),
{
    toml_edit::value(s)
}

/// `toml_edit::value` on a boolean.
#[verifier::external_body]
pub(crate) fn bool_item(b: bool) -> (r: Item)
    ensures
        item_node(r) == Node::Bool(b),
{
    toml_edit::value(b)
}

/// `toml_edit::value` on an integer.
#[verifier::external_body]
pub(crate) fn int_item(n: i64) -> (r: Item)
    ensures
        item_node(r) == Node::Int(n),
{
    toml_edit::value(n)
}

/// `Item::Table`: wraps a table as an item.
#[verifier::external_body]
pub(crate) fn table_item(t: Table) -> (r: Item)
    ensures
        item_node(r) == Node::Table(table_entries(t)),
{
    Item::Table(t)
}

} // verus!
