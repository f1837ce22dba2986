//! The schema-driven parts of validation that need no expression evaluation:
//! which field values are checked at which config paths, and what decides
//! whether a choice option may be picked. Evaluating the CEL expressions
//! themselves is left to the caller; compiling them is done here.

use vstd::prelude::*;

use cel::Program;

use crate::config::{spec_child_keys, ConfigStore, Model};
use crate::document::lists_exactly;
use crate::keypath::str_eq;
use crate::schema::{Constraint, Field, OptionState, Schema, Tab};

verus! {

/// The validated fields of `fields`, each at its own key.
pub open spec fn field_paths(fields: Seq<Field>) -> Seq<(Field, Seq<char>)>
    decreases fields.len(),
{
    if fields.len() == 0 {
        Seq::empty()
    } else {
        let f = fields.last();
        field_paths(fields.drop_last()) + if f.validate.len() > 0 {
            seq![(f, f.key@)]
        } else {
            Seq::empty()
        }
    }
}

/// Every field with at least one rule is checked at its own key, and only
/// fields with rules are checked.
pub proof fn law_field_paths_cover_rules(fields: Seq<Field>)
    ensures
        forall|i: int|
            0 <= i < fields.len() && (#[trigger] fields[i]).validate.len() > 0 ==> field_paths(
                fields,
            ).contains((fields[i], fields[i].key@)),
        forall|j: int|
            0 <= j < field_paths(fields).len() ==> (#[trigger] field_paths(fields)[j]).0.validate.len()
                > 0 && field_paths(fields)[j].1 == field_paths(fields)[j].0.key@,
    decreases fields.len(),
{
    if fields.len() > 0 {
        let pre = fields.drop_last();
        let f = fields.last();
        law_field_paths_cover_rules(pre);
        let tail: Seq<(Field, Seq<char>)> = if f.validate.len() > 0 {
            seq![(f, f.key@)]
        } else {
            Seq::empty()
        };
        let fp = field_paths(fields);
        assert(fp == field_paths(pre) + tail);
        assert forall|i: int|
            0 <= i < fields.len() && (#[trigger] fields[i]).validate.len() > 0 implies fp.contains(
            (fields[i], fields[i].key@),
        ) by {
            if i < fields.len() - 1 {
                assert(fields[i] == pre[i]);
                let k = choose|k: int| 0 <= k < field_paths(pre).len() && field_paths(pre)[k] == (pre[i], pre[i].key@);
                assert(fp[k] == field_paths(pre)[k]);
            } else {
                assert(fp[field_paths(pre).len() as int] == (f, f.key@));
            }
        }
        assert forall|j: int| 0 <= j < fp.len() implies (#[trigger] fp[j]).0.validate.len() > 0
            && fp[j].1 == fp[j].0.key@ by {
            if j < field_paths(pre).len() {
                assert(fp[j] == field_paths(pre)[j]);
            }
        }
    }
}

/// Every field with at least one rule in a section map is checked once for
/// each section, at `"{prefix}.{section}.{key}"`.
pub proof fn law_section_paths_cover_rules(prefix: Seq<char>, fields: Seq<Field>, sections: Seq<Seq<char>>)
    ensures
        forall|i: int, k: int|
            0 <= i < fields.len() && (#[trigger] fields[i]).validate.len() > 0 && 0 <= k
                < sections.len() ==> section_paths(prefix, fields, sections).contains(
                (fields[i], section_path(prefix, #[trigger] sections[k], fields[i].key@)),
            ),
    decreases fields.len(),
{
    if fields.len() > 0 {
        let pre = fields.drop_last();
        let f = fields.last();
        law_section_paths_cover_rules(prefix, pre, sections);
        let sp = section_paths(prefix, fields, sections);
        let head = section_paths(prefix, pre, sections);
        let tail: Seq<(Field, Seq<char>)> = if f.validate.len() > 0 {
            sections.map_values(|s: Seq<char>| (f, section_path(prefix, s, f.key@)))
        } else {
            Seq::empty()
        };
        assert(sp == head + tail);
        assert forall|i: int, k: int|
            0 <= i < fields.len() && (#[trigger] fields[i]).validate.len() > 0 && 0 <= k
                < sections.len() implies sp.contains(
            (fields[i], section_path(prefix, #[trigger] sections[k], fields[i].key@)),
        ) by {
            if i < fields.len() - 1 {
                assert(fields[i] == pre[i]);
                let x = (pre[i], section_path(prefix, sections[k], pre[i].key@));
                assert(head.contains(x));
                let w = choose|w: int| 0 <= w < head.len() && head[w] == x;
                assert(sp[w] == head[w]);
            } else {
                assert(sp[head.len() + k] == tail[k]);
            }
        }
    }
}

/// `"{prefix}.{section}.{key}"`.
pub open spec fn section_path(prefix: Seq<char>, section: Seq<char>, key: Seq<char>) -> Seq<char> {
    prefix + seq!['.'] + section + seq!['.'] + key
}

/// The validated fields of a section map, each once per section, in the
/// order of `sections`.
pub open spec fn section_paths(prefix: Seq<char>, fields: Seq<Field>, sections: Seq<Seq<char>>) -> Seq<
    (Field, Seq<char>),
>
    decreases fields.len(),
{
    if fields.len() == 0 {
        Seq::empty()
    } else {
        let f = fields.last();
        section_paths(prefix, fields.drop_last(), sections) + if f.validate.len() > 0 {
            sections.map_values(|s: Seq<char>| (f, section_path(prefix, s, f.key@)))
        } else {
            Seq::empty()
        }
    }
}

/// The validated fields of one tab: its own fields, then those of its
/// section map over `sections`.
pub open spec fn tab_paths(tab: Tab, sections: Seq<Seq<char>>) -> Seq<(Field, Seq<char>)> {
    (match tab.fields {
        Some(fs) => field_paths(fs@),
        None => Seq::empty(),
    }) + (match tab.section_map {
        Some(sm) => section_paths(sm.key_prefix@, sm.fields@, sections),
        None => Seq::empty(),
    })
}

/// The validated fields of all tabs in order, the section maps of tab `i`
/// running over `lists[i]`.
pub open spec fn validated_paths(tabs: Seq<Tab>, lists: Seq<Seq<Seq<char>>>) -> Seq<
    (Field, Seq<char>),
>
    decreases tabs.len(),
{
    if tabs.len() == 0 {
        Seq::empty()
    } else {
        validated_paths(tabs.drop_last(), lists.drop_last()) + tab_paths(tabs.last(), lists.last())
    }
}

/// Over all tabs: every plain field with at least one rule is among the
/// validated paths at its own key.
pub proof fn law_validated_paths_cover_fields(tabs: Seq<Tab>, lists: Seq<Seq<Seq<char>>>, t: int, i: int)
    requires
        lists.len() == tabs.len(),
        0 <= t < tabs.len(),
        tabs[t].fields matches Some(fs) && 0 <= i < fs@.len() && fs@[i].validate.len() > 0,
    ensures
        validated_paths(tabs, lists).contains(
            (tabs[t].fields->0@[i], tabs[t].fields->0@[i].key@),
        ),
    decreases tabs.len(),
{
    let fs = tabs[t].fields->0@;
    let x = (fs[i], fs[i].key@);
    let vp = validated_paths(tabs, lists);
    let head = validated_paths(tabs.drop_last(), lists.drop_last());
    let tp = tab_paths(tabs.last(), lists.last());
    assert(vp == head + tp);
    if t < tabs.len() - 1 {
        assert(tabs.drop_last()[t] == tabs[t]);
        law_validated_paths_cover_fields(tabs.drop_last(), lists.drop_last(), t, i);
        let w = choose|w: int| 0 <= w < head.len() && head[w] == x;
        assert(vp[w] == head[w]);
    } else {
        law_field_paths_cover_rules(fs);
        let fp = field_paths(fs);
        assert(fp.contains(x));
        let w = choose|w: int| 0 <= w < fp.len() && fp[w] == x;
        assert(tp == fp + match tabs.last().section_map {
            Some(sm) => section_paths(sm.key_prefix@, sm.fields@, lists.last()),
            None => Seq::<(Field, Seq<char>)>::empty(),
        });
        assert(tp[w] == fp[w]);
        assert(vp[head.len() + w] == tp[w]);
    }
}

/// `lists[i]` lists, each once, the sections under the section map's prefix
/// of tab `i` in `config`.
pub open spec fn sections_listed(tabs: Seq<Tab>, lists: Seq<Seq<Seq<char>>>, config: Model) -> bool {
    &&& lists.len() == tabs.len()
    &&& forall|i: int|
        0 <= i < tabs.len() ==> match #[trigger] tabs[i].section_map {
            Some(sm) => lists_exactly(lists[i], spec_child_keys(config, sm.key_prefix@)),
            None => true,
        }
}

/// The pairs of `v` by value.
pub open spec fn paths_view<'a>(v: Seq<(&'a Field, String)>) -> Seq<(Field, Seq<char>)> {
    v.map_values(|p: (&'a Field, String)| (*p.0, p.1@))
}

proof fn lemma_paths_view_push<'a>(v: Seq<(&'a Field, String)>, p: (&'a Field, String))
    ensures
        paths_view(v.push(p)) == paths_view(v).push((*p.0, p.1@)),
{
    assert(paths_view(v.push(p)) =~= paths_view(v).push((*p.0, p.1@)));
}

/// Builds `"{prefix}.{section}.{key}"`.
fn join_section_path(prefix: &str, section: &str, key: &str) -> (r: String)
    ensures
        r@ == section_path(prefix@, section@, key@),
{
    proof {
        reveal_strlit(".");
    }
    let mut r = String::from_str(prefix);
    r.append(".");
    r.append(section);
    r.append(".");
    r.append(key);
    r
}

/// Appends the validated fields of `fields` at their own keys.
fn push_field_paths<'a>(out: &mut Vec<(&'a Field, String)>, fields: &'a Vec<Field>)
    ensures
        paths_view(final(out)@) == paths_view(old(out)@) + field_paths(fields@),
{
    let ghost start = paths_view(out@);
    let mut j: usize = 0;
    assert(fields@.take(0) =~= Seq::<Field>::empty());
    while j < fields.len()
        invariant
            j <= fields@.len(),
            paths_view(out@) == start + field_paths(fields@.take(j as int)),
        decreases fields.len() - j,
    {
        let f = &fields[j];
        assert(fields@.take(j + 1).drop_last() =~= fields@.take(j as int));
        assert(fields@.take(j + 1).last() == *f);
        if f.validate.len() > 0 {
            let ghost before = out@;
            let key = f.key.clone();
            let ghost entry = (f, key);
            out.push((f, key));
            proof {
                lemma_paths_view_push(before, entry);
                assert(paths_view(out@) =~= start + field_paths(fields@.take(j + 1)));
            }
        } else {
            assert(field_paths(fields@.take(j + 1)) =~= field_paths(fields@.take(j as int)));
        }
        j = j + 1;
    }
    assert(fields@.take(fields@.len() as int) =~= fields@);
}

/// Appends the validated fields of a section map, once per section.
fn push_section_paths<'a>(
    out: &mut Vec<(&'a Field, String)>,
    prefix: &str,
    fields: &'a Vec<Field>,
    sections: &Vec<String>,
)
    ensures
        paths_view(final(out)@) == paths_view(old(out)@) + section_paths(
            prefix@,
            fields@,
            sections@.map_values(|s: String| s@),
        ),
{
    let ghost start = paths_view(out@);
    let ghost secs = sections@.map_values(|s: String| s@);
    let mut j: usize = 0;
    assert(fields@.take(0) =~= Seq::<Field>::empty());
    while j < fields.len()
        invariant
            j <= fields@.len(),
            secs == sections@.map_values(|s: String| s@),
            paths_view(out@) == start + section_paths(prefix@, fields@.take(j as int), secs),
        decreases fields.len() - j,
    {
        let f = &fields[j];
        assert(fields@.take(j + 1).drop_last() =~= fields@.take(j as int));
        assert(fields@.take(j + 1).last() == *f);
        let ghost mid = paths_view(out@);
        if f.validate.len() > 0 {
            let mut k: usize = 0;
            while k < sections.len()
                invariant
                    k <= sections@.len(),
                    secs == sections@.map_values(|s: String| s@),
                    paths_view(out@) == mid + secs.take(k as int).map_values(
                        |s: Seq<char>| (*f, section_path(prefix@, s, f.key@)),
                    ),
                decreases sections.len() - k,
            {
                let path = join_section_path(prefix, sections[k].as_str(), f.key.as_str());
                let ghost before = out@;
                let ghost entry = (f, path);
                out.push((f, path));
                proof {
                    lemma_paths_view_push(before, entry);
                    assert(secs[k as int] == sections@[k as int]@);
                    assert(secs.take(k + 1) =~= secs.take(k as int).push(secs[k as int]));
                    assert(paths_view(out@) =~= mid + secs.take(k + 1).map_values(
                        |s: Seq<char>| (*f, section_path(prefix@, s, f.key@)),
                    ));
                }
                k = k + 1;
            }
            assert(secs.take(secs.len() as int) =~= secs);
            assert(paths_view(out@) =~= start + section_paths(prefix@, fields@.take(j + 1), secs));
        } else {
            assert(section_paths(prefix@, fields@.take(j + 1), secs) =~= section_paths(
                prefix@,
                fields@.take(j as int),
                secs,
            ));
        }
        j = j + 1;
    }
    assert(fields@.take(fields@.len() as int) =~= fields@);
}

/// Every field with validation rules, paired with the config path it is
/// checked at: plain fields at their key, section-map fields once per
/// section found under the map's prefix in `config`, as
/// `"{prefix}.{section}.{key}"`. Tabs, and fields within them, come in schema
/// order; the sections of a map in the order the store lists them.
pub fn iter_validated_field_paths<'a>(schema: &'a Schema, config: &ConfigStore) -> (r: Vec<
    (&'a Field, String),
>)
    ensures
        exists|lists: Seq<Seq<Seq<char>>>|
            sections_listed(schema.tabs@, lists, config@) && paths_view(r@) == validated_paths(
                schema.tabs@,
                lists,
            ),
{
    let tabs = &schema.tabs;
    let mut out: Vec<(&'a Field, String)> = Vec::new();
    let ghost mut lists: Seq<Seq<Seq<char>>> = Seq::empty();
    let mut i: usize = 0;
    assert(tabs@.take(0) =~= Seq::<Tab>::empty());
    assert(paths_view(out@) =~= Seq::<(Field, Seq<char>)>::empty());
    while i < tabs.len()
        invariant
            tabs == &schema.tabs,
            i <= tabs@.len(),
            sections_listed(tabs@.take(i as int), lists, config@),
            paths_view(out@) == validated_paths(tabs@.take(i as int), lists),
        decreases tabs.len() - i,
    {
        let tab = &tabs[i];
        let ghost before = paths_view(out@);
        match &tab.fields {
            Some(fields) => push_field_paths(&mut out, fields),
            None => {},
        }
        let ghost mid = paths_view(out@);
        let ghost mut l: Seq<Seq<char>> = Seq::empty();
        match &tab.section_map {
            Some(sm) => {
                let sections = config.child_keys(sm.key_prefix.as_str());
                proof {
                    l = sections@.map_values(|s: String| s@);
                }
                push_section_paths(&mut out, sm.key_prefix.as_str(), &sm.fields, &sections);
            },
            None => {},
        }
        proof {
            let next = lists.push(l);
            assert(tabs@.take(i + 1).drop_last() =~= tabs@.take(i as int));
            assert(tabs@.take(i + 1).last() == *tab);
            assert(next.drop_last() =~= lists);
            assert(paths_view(out@) =~= before + tab_paths(*tab, l));
            assert forall|t: int| 0 <= t < i + 1 implies match #[trigger] tabs@.take(i + 1)[t].section_map {
                Some(sm) => lists_exactly(next[t], spec_child_keys(config@, sm.key_prefix@)),
                None => true,
            } by {
                if t < i {
                    assert(tabs@.take(i + 1)[t] == tabs@.take(i as int)[t]);
                }
            }
            lists = next;
        }
        i = i + 1;
    }
    assert(tabs@.take(tabs@.len() as int) =~= tabs@);
    out
}


/// What decides whether an option of a choice field may be picked.
pub enum OptionCheck {
    /// Nothing restricts it.
    Always,
    /// The schema constraint at this index must hold with the option chosen.
    Constraint(usize),
    /// This CEL expression must hold.
    Expr(String),
}

/// The index of the first option state for `option`.
pub open spec fn first_state(states: Seq<OptionState>, option: Seq<char>) -> Option<int>
    decreases states.len(),
{
    if states.len() == 0 {
        None
    } else if states[0].value@ == option {
        Some(0)
    } else {
        match first_state(states.drop_first(), option) {
            Some(i) => Some(i + 1),
            None => None,
        }
    }
}

/// The index of the first constraint with id `id`.
pub open spec fn first_constraint(cs: Seq<Constraint>, id: Seq<char>) -> Option<int>
    decreases cs.len(),
{
    if cs.len() == 0 {
        None
    } else if cs[0].id@ == id {
        Some(0)
    } else {
        match first_constraint(cs.drop_first(), id) {
            Some(i) => Some(i + 1),
            None => None,
        }
    }
}

/// `r` is what decides `option` on `field`: the first option state for it
/// names a constraint (`when`, which wins; an unknown id restricts nothing)
/// or an expression (`enabled`); with no such state nothing restricts it.
pub open spec fn checks_option(r: OptionCheck, constraints: Seq<Constraint>, field: Field, option: Seq<char>) -> bool {
    match first_state(field.option_states@, option) {
        None => r is Always,
        Some(i) => {
            let st = field.option_states@[i];
            match st.when {
                Some(id) => match first_constraint(constraints, id@) {
                    Some(c) => r == OptionCheck::Constraint(c as usize),
                    None => r is Always,
                },
                None => match st.enabled {
                    Some(e) => r matches OptionCheck::Expr(x) && x@ == e@,
                    None => r is Always,
                },
            }
        },
    }
}

/// Finds the first option state of `states` for `option`.
fn find_state(states: &Vec<OptionState>, option: &str) -> (r: Option<usize>)
    ensures
        r matches Some(i) ==> first_state(states@, option@) == Some(i as int) && i < states@.len(),
        r is None ==> first_state(states@, option@) is None,
{
    let mut i: usize = 0;
    assert(states@.skip(0) =~= states@);
    while i < states.len()
        invariant
            i <= states@.len(),
            first_state(states@, option@) == match first_state(states@.skip(i as int), option@) {
                Some(k) => Some(k + i),
                None => None,
            },
        decreases states.len() - i,
    {
        let ghost rest = states@.skip(i as int);
        assert(rest[0] == states@[i as int]);
        if str_eq(states[i].value.as_str(), option) {
            return Some(i);
        }
        assert(rest.drop_first() =~= states@.skip(i + 1));
        i = i + 1;
    }
    None
}

/// Finds the first constraint of `cs` with id `id`.
fn find_constraint(cs: &Vec<Constraint>, id: &str) -> (r: Option<usize>)
    ensures
        r matches Some(i) ==> first_constraint(cs@, id@) == Some(i as int) && i < cs@.len(),
        r is None ==> first_constraint(cs@, id@) is None,
{
    let mut i: usize = 0;
    assert(cs@.skip(0) =~= cs@);
    while i < cs.len()
        invariant
            i <= cs@.len(),
            first_constraint(cs@, id@) == match first_constraint(cs@.skip(i as int), id@) {
                Some(k) => Some(k + i),
                None => None,
            },
        decreases cs.len() - i,
    {
        let ghost rest = cs@.skip(i as int);
        assert(rest[0] == cs@[i as int]);
        if str_eq(cs[i].id.as_str(), id) {
            return Some(i);
        }
        assert(rest.drop_first() =~= cs@.skip(i + 1));
        i = i + 1;
    }
    None
}

/// What decides whether `option` may be picked on `field`; the caller
/// evaluates the constraint (with the option hypothetically chosen) or the
/// expression it names.
pub fn option_check(schema: &Schema, field: &Field, option: &str) -> (r: OptionCheck)
    ensures
        checks_option(r, schema.constraints@, *field, option@),
{
    let i = match find_state(&field.option_states, option) {
        Some(i) => i,
        None => return OptionCheck::Always,
    };
    let state = &field.option_states[i];
    match &state.when {
        Some(id) => match find_constraint(&schema.constraints, id.as_str()) {
            Some(c) => OptionCheck::Constraint(c),
            None => OptionCheck::Always,
        },
        None => match &state.enabled {
            Some(e) => OptionCheck::Expr(e.clone()),
            None => OptionCheck::Always,
        },
    }
}


#[verifier::external_type_specification]
#[verifier::external_body]
pub struct ExProgram(Program);

/// What `cel::Program::compile` reports for `src`: `None` when it compiles,
/// otherwise the text of its parse errors.
pub uninterp spec fn cel_compile_error(src: Seq<char>) -> Option<Seq<char>>;

/// `cel::Program::compile`, with the parse errors rendered as text. Trusted:
/// it fails, with the text named by `cel_compile_error`, exactly when that
/// name reports an error.
#[verifier::external_body]
fn compile_expr(expr: &str) -> (r: Result<Program, String>)
    ensures
        r is Ok <==> cel_compile_error(expr@) is None,
        r matches Err(m) ==> cel_compile_error(expr@) == Some(m@),
{
    Program::compile(expr).map_err(|e| e.to_string())
}

/// A compiled program with the text it was compiled from.
struct Compiled {
    /// The constraint id, or the expression itself for inline rules.
    key: String,
    expr: String,
    program: Program,
}

/// Compiled CEL programs for the schema's constraints and for inline rules.
pub struct ValidationEngine {
    constraints: Vec<Compiled>,
    inline_programs: Vec<Compiled>,
}

/// Each id of `cs` mapped to the expression of its last constraint.
pub open spec fn exprs_by_id(cs: Seq<Constraint>) -> Map<Seq<char>, Seq<char>>
    decreases cs.len(),
{
    if cs.len() == 0 {
        Map::empty()
    } else {
        exprs_by_id(cs.drop_last()).insert(cs.last().id@, cs.last().expr@)
    }
}

/// The error of the first constraint of `cs` that does not compile.
pub open spec fn first_compile_error(cs: Seq<Constraint>) -> Option<Seq<char>>
    decreases cs.len(),
{
    if cs.len() == 0 {
        None
    } else {
        match cel_compile_error(cs[0].expr@) {
            Some(m) => Some(m),
            None => first_compile_error(cs.drop_first()),
        }
    }
}

spec fn compiled_map(es: Seq<Compiled>) -> Map<Seq<char>, Seq<char>>
    decreases es.len(),
{
    if es.len() == 0 {
        Map::empty()
    } else {
        compiled_map(es.drop_last()).insert(es.last().key@, es.last().expr@)
    }
}

/// The index of the last entry of `es` with key `k`.
spec fn last_with_key(es: Seq<Compiled>, k: Seq<char>) -> Option<int>
    decreases es.len(),
{
    if es.len() == 0 {
        None
    } else if es.last().key@ == k {
        Some(es.len() - 1)
    } else {
        last_with_key(es.drop_last(), k)
    }
}

proof fn lemma_last_with_key(es: Seq<Compiled>, k: Seq<char>)
    ensures
        last_with_key(es, k) is Some <==> compiled_map(es).contains_key(k),
        last_with_key(es, k) matches Some(i) ==> 0 <= i < es.len() && es[i].key@ == k
            && compiled_map(es)[k] == es[i].expr@,
    decreases es.len(),
{
    if es.len() > 0 {
        lemma_last_with_key(es.drop_last(), k);
    }
}

/// Finds the last entry of `es` with key `k`.
fn find_last(es: &Vec<Compiled>, k: &str) -> (r: Option<usize>)
    ensures
        r matches Some(i) ==> last_with_key(es@, k@) == Some(i as int),
        r is None ==> last_with_key(es@, k@) is None,
{
    let mut i: usize = es.len();
    assert(es@.take(es@.len() as int) =~= es@);
    while i > 0
        invariant
            i <= es@.len(),
            last_with_key(es@, k@) == last_with_key(es@.take(i as int), k@),
        decreases i,
    {
        let ghost pre = es@.take(i as int);
        assert(pre.last() == es@[i - 1]);
        if str_eq(es[i - 1].key.as_str(), k) {
            return Some(i - 1);
        }
        assert(pre.drop_last() =~= es@.take(i - 1));
        i = i - 1;
    }
    None
}

impl ValidationEngine {
    /// Each constraint id mapped to the expression its program was compiled from.
    pub closed spec fn constraint_exprs(&self) -> Map<Seq<char>, Seq<char>> {
        compiled_map(self.constraints@)
    }

    /// The program compiled for the constraint id `id`: that of the last
    /// constraint of the schema with this id.
    pub closed spec fn compiled_constraint(&self, id: Seq<char>) -> Program {
        self.constraints@[last_with_key(self.constraints@, id)->0].program
    }

    /// The program cached for the inline expression `expr`.
    pub closed spec fn cached_program(&self, expr: Seq<char>) -> Program {
        self.inline_programs@[last_with_key(self.inline_programs@, expr)->0].program
    }

    /// The inline expressions compiled so far.
    pub closed spec fn cached_exprs(&self) -> Set<Seq<char>> {
        compiled_map(self.inline_programs@).dom()
    }

    /// Every cached inline expression compiles.
    pub closed spec fn inv(&self) -> bool {
        forall|i: int|
            0 <= i < self.inline_programs@.len() ==> {
                let e = #[trigger] self.inline_programs@[i];
                e.key@ == e.expr@ && cel_compile_error(e.expr@) is None
            }
    }

    /// Compiles every constraint expression of the schema; inline rule
    /// expressions are compiled when first used. Fails with the errors of the
    /// first constraint that does not compile. A later constraint with an id
    /// already seen replaces the earlier one.
    pub fn compile(schema: &Schema) -> (r: Result<ValidationEngine, String>)
        ensures
            r is Ok <==> first_compile_error(schema.constraints@) is None,
            r matches Err(m) ==> first_compile_error(schema.constraints@) == Some(m@),
            r matches Ok(e) ==> e.inv() && e.constraint_exprs() == exprs_by_id(schema.constraints@)
                && e.cached_exprs().is_empty(),
    {
        let cs = &schema.constraints;
        let mut compiled: Vec<Compiled> = Vec::new();
        let mut i: usize = 0;
        assert(cs@.take(0) =~= Seq::<Constraint>::empty());
        assert(cs@.skip(0) =~= cs@);
        while i < cs.len()
            invariant
                cs == &schema.constraints,
                i <= cs@.len(),
                first_compile_error(cs@) == first_compile_error(cs@.skip(i as int)),
                compiled_map(compiled@) == exprs_by_id(cs@.take(i as int)),
            decreases cs.len() - i,
        {
            let c = &cs[i];
            let ghost rest = cs@.skip(i as int);
            assert(rest[0] == *c);
            assert(rest.drop_first() =~= cs@.skip(i + 1));
            match compile_expr(c.expr.as_str()) {
                Err(m) => {
                    return Err(m);
                },
                Ok(program) => {
                    let ghost before = compiled@;
                    compiled.push(Compiled { key: c.id.clone(), expr: c.expr.clone(), program });
                    assert(compiled@.drop_last() =~= before);
                    assert(cs@.take(i + 1).drop_last() =~= cs@.take(i as int));
                    assert(cs@.take(i + 1).last() == *c);
                },
            }
            i = i + 1;
        }
        proof {
            assert(cs@.skip(cs@.len() as int).len() == 0);
            assert(cs@.take(cs@.len() as int) =~= cs@);
        }
        let e = ValidationEngine { constraints: compiled, inline_programs: Vec::new() };
        assert(e.cached_exprs() =~= Set::<Seq<char>>::empty());
        Ok(e)
    }

    /// The program of the constraint with id `id`, if the schema has one.
    pub fn constraint_program(&self, id: &str) -> (r: Option<&Program>)
        ensures
            r is Some <==> self.constraint_exprs().contains_key(id@),
            r matches Some(p) ==> *p == self.compiled_constraint(id@),
    {
        proof {
            lemma_last_with_key(self.constraints@, id@);
        }
        match find_last(&self.constraints, id) {
            Some(i) => Some(&self.constraints[i].program),
            None => None,
        }
    }

    /// The program for an inline rule expression, compiled on first use and
    /// kept for later calls; the parse errors when it does not compile.
    pub fn program_for_expr(&mut self, expr: &str) -> (r: Result<&Program, String>)
        requires
            old(self).inv(),
        ensures
            final(self).inv(),
            r is Ok <==> cel_compile_error(expr@) is None,
            r matches Err(m) ==> cel_compile_error(expr@) == Some(m@),
            r matches Ok(p) ==> *p == final(self).cached_program(expr@),
            forall|e: Seq<char>|
                #![trigger old(self).cached_exprs().contains(e)]
                old(self).cached_exprs().contains(e) ==> final(self).cached_program(e)
                    == old(self).cached_program(e),
            final(self).constraint_exprs() == old(self).constraint_exprs(),
            forall|id: Seq<char>|
                #![trigger final(self).compiled_constraint(id)]
                final(self).compiled_constraint(id) == old(self).compiled_constraint(id),
            final(self).cached_exprs() == if cel_compile_error(expr@) is None {
                old(self).cached_exprs().insert(expr@)
            } else {
                old(self).cached_exprs()
            },
    {
        proof {
            lemma_last_with_key(self.inline_programs@, expr@);
        }
        match find_last(&self.inline_programs, expr) {
            Some(i) => {
                assert(self.inline_programs@[i as int].key@ == expr@);
                assert(old(self).cached_exprs().insert(expr@) =~= old(self).cached_exprs());
                Ok(&self.inline_programs[i].program)
            },
            None => match compile_expr(expr) {
                Err(m) => Err(m),
                Ok(program) => {
                    let ghost before = self.inline_programs@;
                    let key = String::from_str(expr);
                    let text = String::from_str(expr);
                    self.inline_programs.push(Compiled { key, expr: text, program });
                    assert(self.inline_programs@.drop_last() =~= before);
                    assert(self.cached_exprs() =~= old(self).cached_exprs().insert(expr@));
                    assert forall|e: Seq<char>| old(self).cached_exprs().contains(e) implies self.cached_program(e)
                        == old(self).cached_program(e) by {
                        lemma_last_with_key(before, e);
                        assert(e != expr@);
                    }
                    let n = self.inline_programs.len();
                    Ok(&self.inline_programs[n - 1].program)
                },
            },
        }
    }
}


/// Compiling the constraints fails exactly when one of them does not compile.
pub proof fn law_compile_fails_iff_some_constraint_fails(cs: Seq<Constraint>)
    ensures
        first_compile_error(cs) is None <==> forall|i: int|
            0 <= i < cs.len() ==> cel_compile_error(#[trigger] cs[i].expr@) is None,
    decreases cs.len(),
{
    if cs.len() > 0 {
        law_compile_fails_iff_some_constraint_fails(cs.drop_first());
        assert forall|i: int| 1 <= i < cs.len() implies #[trigger] cs[i] == cs.drop_first()[i - 1] by {}
        if first_compile_error(cs) is None {
            assert forall|i: int| 0 <= i < cs.len() implies cel_compile_error(
                #[trigger] cs[i].expr@,
            ) is None by {
                if i > 0 {
                    assert(cs[i] == cs.drop_first()[i - 1]);
                }
            }
        }
        if forall|i: int| 0 <= i < cs.len() ==> cel_compile_error(#[trigger] cs[i].expr@) is None {
            assert(cel_compile_error(cs[0].expr@) is None);
            assert forall|j: int| 0 <= j < cs.drop_first().len() implies cel_compile_error(
                #[trigger] cs.drop_first()[j].expr@,
            ) is None by {
                assert(cs.drop_first()[j] == cs[j + 1]);
            }
        }
    }
}


/// How one `validate` rule of a field fared: its message, and whether its
/// expression held.
pub struct RuleOutcome {
    pub message: String,
    pub passed: bool,
}

/// The messages of the rules that did not hold, in rule order.
pub open spec fn failed_messages(outcomes: Seq<RuleOutcome>) -> Seq<Seq<char>>
    decreases outcomes.len(),
{
    if outcomes.len() == 0 {
        Seq::empty()
    } else {
        failed_messages(outcomes.drop_last()) + if outcomes.last().passed {
            Seq::empty()
        } else {
            seq![outcomes.last().message@]
        }
    }
}

/// The error messages of a field: the message of every rule that did not
/// hold, in rule order.
pub fn field_errors(outcomes: &[RuleOutcome]) -> (r: Vec<String>)
    ensures
        r@.map_values(|m: String| m@) == failed_messages(outcomes@),
{
    let mut out: Vec<String> = Vec::new();
    let mut i: usize = 0;
    assert(outcomes@.take(0) =~= Seq::<RuleOutcome>::empty());
    while i < outcomes.len()
        invariant
            i <= outcomes@.len(),
            out@.map_values(|m: String| m@) == failed_messages(outcomes@.take(i as int)),
        decreases outcomes.len() - i,
    {
        assert(outcomes@.take(i + 1).drop_last() =~= outcomes@.take(i as int));
        assert(outcomes@.take(i + 1).last() == outcomes@[i as int]);
        if !outcomes[i].passed {
            let m = outcomes[i].message.clone();
            let ghost before = out@;
            out.push(m);
            assert(out@.map_values(|m: String| m@) =~= before.map_values(|m: String| m@).push(
                outcomes@[i as int].message@,
            ));
        } else {
            assert(failed_messages(outcomes@.take(i + 1)) =~= failed_messages(
                outcomes@.take(i as int),
            ));
        }
        i = i + 1;
    }
    assert(outcomes@.take(outcomes@.len() as int) =~= outcomes@);
    out
}

/// Whether the config is valid: no validated field has an error message.
pub fn is_valid(field_errors: &[Vec<String>]) -> (r: bool)
    ensures
        r == forall|i: int| 0 <= i < field_errors@.len() ==> #[trigger] field_errors@[i]@.len() == 0,
{
    let mut i: usize = 0;
    while i < field_errors.len()
        invariant
            i <= field_errors@.len(),
            forall|j: int| 0 <= j < i ==> #[trigger] field_errors@[j]@.len() == 0,
        decreases field_errors.len() - i,
    {
        if field_errors[i].len() != 0 {
            return false;
        }
        i = i + 1;
    }
    true
}

} // verus!




