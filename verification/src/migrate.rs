//! Config schema migration: brings a config file from its recorded version
//! up to the schema's target version.
//!
//! Migrations between the recorded version (0 when none is recorded) and the
//! target run in ascending version order, in declaration order among equal
//! versions; the target is then recorded so each step runs once.

use vstd::prelude::*;

use crate::config::{
    spec_delete, spec_enum_to_bool, spec_rename, spec_set, spec_version, ConfigStore, Model,
};
use crate::document::Node;
use crate::schema::{
    version_key_of, DeleteOp, Migration, RenameOp, Schema, TransformKind, TransformOp,
};

verus! {

/// The optional string `o` by its view.
pub open spec fn opt_view(o: Option<String>) -> Option<Seq<char>> {
    match o {
        Some(s) => Some(s@),
        None => None,
    }
}

/// Applies the renames in order.
pub open spec fn apply_renames(s: Model, ops: Seq<RenameOp>) -> Model
    decreases ops.len(),
{
    if ops.len() == 0 {
        s
    } else {
        apply_renames(spec_rename(s, ops[0].from@, ops[0].to@).0, ops.drop_first())
    }
}

/// One transform.
pub open spec fn apply_transform(s: Model, op: TransformOp) -> Model {
    match op.kind {
        TransformKind::Rename => spec_rename(s, op.from@, op.to@).0,
        TransformKind::EnumToBool => spec_enum_to_bool(
            s,
            op.from@,
            op.to@,
            opt_view(op.match_value),
        ).0,
    }
}

/// Applies the transforms in order.
pub open spec fn apply_transforms(s: Model, ops: Seq<TransformOp>) -> Model
    decreases ops.len(),
{
    if ops.len() == 0 {
        s
    } else {
        apply_transforms(apply_transform(s, ops[0]), ops.drop_first())
    }
}

/// Applies the deletions in order.
pub open spec fn apply_deletes(s: Model, ops: Seq<DeleteOp>) -> Model
    decreases ops.len(),
{
    if ops.len() == 0 {
        s
    } else {
        apply_deletes(spec_delete(s, ops[0].key@).0, ops.drop_first())
    }
}

/// One migration: its renames, then its transforms, then its deletions.
pub open spec fn apply_migration(s: Model, m: Migration) -> Model {
    apply_deletes(apply_transforms(apply_renames(s, m.rename@), m.transform@), m.delete@)
}

/// The smallest version `v` with `lo < v <= hi` among `ms`.
pub open spec fn min_version_above(ms: Seq<Migration>, lo: u32, hi: u32) -> Option<u32>
    decreases ms.len(),
{
    if ms.len() == 0 {
        None
    } else {
        let rest = min_version_above(ms.drop_first(), lo, hi);
        let v = ms[0].version;
        if lo < v && v <= hi {
            match rest {
                Some(r) => Some(
                    if v <= r {
                        v
                    } else {
                        r
                    },
                ),
                None => Some(v),
            }
        } else {
            rest
        }
    }
}

pub proof fn lemma_min_version_above(ms: Seq<Migration>, lo: u32, hi: u32)
    ensures
        min_version_above(ms, lo, hi) matches Some(v) ==> lo < v <= hi
            && exists|i: int| 0 <= i < ms.len() && ms[i].version == v,
        min_version_above(ms, lo, hi) matches Some(v) ==> forall|i: int|
            0 <= i < ms.len() && lo < #[trigger] ms[i].version <= hi ==> v <= ms[i].version,
        min_version_above(ms, lo, hi) is None ==> forall|i: int|
            0 <= i < ms.len() ==> !(lo < #[trigger] ms[i].version <= hi),
    decreases ms.len(),
{
    if ms.len() > 0 {
        lemma_min_version_above(ms.drop_first(), lo, hi);
        let rest = ms.drop_first();
        assert forall|i: int| 1 <= i < ms.len() implies ms[i] == rest[i - 1] by {}
        if let Some(v) = min_version_above(ms, lo, hi) {
            if min_version_above(rest, lo, hi) is Some && !(v == ms[0].version) {
                let j = choose|j: int| 0 <= j < rest.len() && rest[j].version == v;
                assert(ms[j + 1].version == v);
            }
        }
    }
}

/// Applies, in declaration order, the migrations of version `v`.
pub open spec fn apply_version(s: Model, ms: Seq<Migration>, v: u32) -> Model
    decreases ms.len(),
{
    if ms.len() == 0 {
        s
    } else {
        apply_version(
            if ms[0].version == v {
                apply_migration(s, ms[0])
            } else {
                s
            },
            ms.drop_first(),
            v,
        )
    }
}

/// Applies the migrations with `lo < version <= hi`, smallest version first.
pub open spec fn apply_pending(s: Model, ms: Seq<Migration>, lo: u32, hi: u32) -> Model
    decreases hi - lo,
{
    match min_version_above(ms, lo, hi) {
        None => s,
        Some(v) => {
            proof {
                lemma_min_version_above(ms, lo, hi);
            }
            apply_pending(apply_version(s, ms, v), ms, v, hi)
        },
    }
}

/// What `run` does to the config, and whether it migrated it.
pub open spec fn spec_run(schema: Schema, s: Model) -> (Model, bool) {
    match schema.schema_version {
        None => (s, false),
        Some(target) => {
            let key = version_key_of(schema);
            let current = match spec_version(s, key) {
                Some(v) => v,
                None => 0,
            };
            if current >= target {
                (s, false)
            } else {
                let s1 = apply_pending(s, schema.migrations@, current, target);
                (spec_set(s1, key, Node::Int(target as i64)).0, true)
            }
        },
    }
}

fn apply_migration_to(config: &mut ConfigStore, m: &Migration)
    ensures
        final(config)@ == apply_migration(old(config)@, *m),
        final(config).location() == old(config).location(),
{
    let ghost s0 = config@;
    let mut i: usize = 0;
    proof {
        assert(m.rename@.skip(0) =~= m.rename@);
    }
    while i < m.rename.len()
        invariant
            i <= m.rename@.len(),
            apply_renames(s0, m.rename@) == apply_renames(config@, m.rename@.skip(i as int)),
            config.location() == old(config).location(),
        decreases m.rename@.len() - i,
    {
        let op = &m.rename[i];
        config.rename_key(op.from.as_str(), op.to.as_str());
        proof {
            assert(m.rename@.skip(i as int).drop_first() =~= m.rename@.skip(i + 1));
        }
        i = i + 1;
    }
    let ghost s1 = config@;
    proof {
        assert(m.rename@.skip(i as int).len() == 0);
        assert(m.transform@.skip(0) =~= m.transform@);
    }
    let mut i: usize = 0;
    while i < m.transform.len()
        invariant
            i <= m.transform@.len(),
            apply_transforms(s1, m.transform@) == apply_transforms(
                config@,
                m.transform@.skip(i as int),
            ),
            config.location() == old(config).location(),
        decreases m.transform@.len() - i,
    {
        let op = &m.transform[i];
        match op.kind {
            TransformKind::Rename => {
                config.rename_key(op.from.as_str(), op.to.as_str());
            },
            TransformKind::EnumToBool => {
                let mv = match &op.match_value {
                    Some(s) => Some(s.as_str()),
                    None => None,
                };
                config.transform_enum_to_bool(op.from.as_str(), op.to.as_str(), mv);
            },
        }
        proof {
            assert(m.transform@.skip(i as int).drop_first() =~= m.transform@.skip(i + 1));
        }
        i = i + 1;
    }
    let ghost s2 = config@;
    proof {
        assert(m.transform@.skip(i as int).len() == 0);
        assert(m.delete@.skip(0) =~= m.delete@);
    }
    let mut i: usize = 0;
    while i < m.delete.len()
        invariant
            i <= m.delete@.len(),
            apply_deletes(s2, m.delete@) == apply_deletes(config@, m.delete@.skip(i as int)),
            config.location() == old(config).location(),
        decreases m.delete@.len() - i,
    {
        config.delete_key(m.delete[i].key.as_str());
        proof {
            assert(m.delete@.skip(i as int).drop_first() =~= m.delete@.skip(i + 1));
        }
        i = i + 1;
    }
    proof {
        assert(m.delete@.skip(i as int).len() == 0);
    }
}

/// The smallest version `v` with `lo < v <= hi` among `ms`.
fn find_min_version_above(ms: &Vec<Migration>, lo: u32, hi: u32) -> (r: Option<u32>)
    ensures
        r == min_version_above(ms@, lo, hi),
{
    let mut i: usize = ms.len();
    let mut best: Option<u32> = None;
    while i > 0
        invariant
            i <= ms@.len(),
            best == min_version_above(ms@.skip(i as int), lo, hi),
        decreases i,
    {
        i = i - 1;
        let v = ms[i].version;
        proof {
            assert(ms@.skip(i as int).drop_first() =~= ms@.skip(i + 1));
        }
        if lo < v && v <= hi {
            best = match best {
                Some(b) => Some(
                    if v <= b {
                        v
                    } else {
                        b
                    },
                ),
                None => Some(v),
            };
        }
    }
    proof {
        assert(ms@.skip(0) =~= ms@);
    }
    best
}

/// Apply any pending migrations to `config`.
///
/// Returns `true` when the config was migrated (and should be persisted),
/// `false` when nothing needed to change (no schema target, or already
/// current).
pub fn run(schema: &Schema, config: &mut ConfigStore) -> (migrated: bool)
    ensures
        (final(config)@, migrated) == spec_run(*schema, old(config)@),
        final(config).location() == old(config).location(),
{
    let target = match schema.schema_version {
        Some(t) => t,
        None => return false,
    };
    let key = schema.version_key();
    let current = match config.get_version(key) {
        Some(v) => v,
        None => 0,
    };
    if current >= target {
        return false;
    }
    let ghost s0 = config@;
    let ms = &schema.migrations;
    let mut last = current;
    loop
        invariant
            current <= last <= target,
            apply_pending(s0, ms@, current, target) == apply_pending(config@, ms@, last, target),
            config.location() == old(config).location(),
        ensures
            apply_pending(s0, ms@, current, target) == config@,
            config.location() == old(config).location(),
        decreases target - last,
    {
        let next = find_min_version_above(ms, last, target);
        proof {
            lemma_min_version_above(ms@, last, target);
        }
        match next {
            None => {
                assert(apply_pending(config@, ms@, last, target) == config@);
                break;
            },
            Some(v) => {
                let ghost sv = config@;
                let mut i: usize = 0;
                proof {
                    assert(ms@.skip(0) =~= ms@);
                }
                while i < ms.len()
                    invariant
                        i <= ms@.len(),
                        apply_version(sv, ms@, v) == apply_version(
                            config@,
                            ms@.skip(i as int),
                            v,
                        ),
                        config.location() == old(config).location(),
                    decreases ms@.len() - i,
                {
                    if ms[i].version == v {
                        apply_migration_to(config, &ms[i]);
                    }
                    proof {
                        assert(ms@.skip(i as int).drop_first() =~= ms@.skip(i + 1));
                    }
                    i = i + 1;
                }
                proof {
                    assert(ms@.skip(i as int).len() == 0);
                }
                last = v;
            },
        }
    }
    config.set_version(key, target);
    true
}

} // verus!
