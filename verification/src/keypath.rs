//! Dot-separated key paths (`"section.sub.key"`).

use vstd::prelude::*;

verus! {

/// The pieces of `s` between `'.'` separators, as `str::split('.')` yields
/// them: one more piece than there are dots, empty pieces included.
pub open spec fn split_dots(s: Seq<char>) -> Seq<Seq<char>>
    decreases s.len(),
{
    if s.len() == 0 {
        seq![Seq::<char>::empty()]
    } else {
        let rest = split_dots(s.drop_first());
        if s[0] == '.' {
            seq![Seq::<char>::empty()] + rest
        } else {
            rest.update(0, seq![s[0]] + rest[0])
        }
    }
}

pub proof fn lemma_split_dots_nonempty(s: Seq<char>)
    ensures
        split_dots(s).len() >= 1,
    decreases s.len(),
{
    if s.len() > 0 {
        lemma_split_dots_nonempty(s.drop_first());
    }
}

/// A dot-free run at the front of `s` joins the first piece of the rest.
proof fn lemma_split_dot_free_prefix(s: Seq<char>, start: int, i: int)
    requires
        0 <= start <= i <= s.len(),
        forall|j: int| start <= j < i ==> s[j] != '.',
    ensures
        split_dots(s.subrange(start, s.len() as int)) == seq![
            s.subrange(start, i) + split_dots(s.subrange(i, s.len() as int))[0],
        ] + split_dots(s.subrange(i, s.len() as int)).drop_first(),
    decreases i - start,
{
    let n = s.len() as int;
    let tail = s.subrange(i, n);
    lemma_split_dots_nonempty(tail);
    if start == i {
        assert(s.subrange(start, i) + split_dots(tail)[0] =~= split_dots(tail)[0]);
        assert(seq![split_dots(tail)[0]] + split_dots(tail).drop_first() =~= split_dots(tail));
    } else {
        lemma_split_dot_free_prefix(s, start + 1, i);
        let sub = s.subrange(start, n);
        assert(sub.drop_first() =~= s.subrange(start + 1, n));
        lemma_split_dots_nonempty(s.subrange(start + 1, n));
        assert(sub[0] == s[start]);
        assert(seq![s[start]] + (s.subrange(start + 1, i) + split_dots(tail)[0]) =~= s.subrange(
            start,
            i,
        ) + split_dots(tail)[0]);
        assert(split_dots(sub) =~= seq![s.subrange(start, i) + split_dots(tail)[0]]
            + split_dots(tail).drop_first());
    }
}

/// `str::split('.')` collected into a vector of pieces.
pub fn split_path<'a>(path: &'a str) -> (parts: Vec<&'a str>)
    ensures
        parts@.map_values(|p: &str| p@) == split_dots(path@),
        parts@.len() >= 1,
{
    let n = path.unicode_len();
    let mut parts: Vec<&'a str> = Vec::new();
    let mut start: usize = 0;
    let mut i: usize = 0;
    let ghost s = path@;
    proof {
        assert(s.subrange(0, n as int) =~= s);
    }
    while i < n
        invariant
            n == s.len(),
            s == path@,
            start <= i <= n,
            forall|j: int| start <= j < i ==> s[j] != '.',
            split_dots(s) == parts@.map_values(|p: &str| p@) + split_dots(
                s.subrange(start as int, n as int),
            ),
        decreases n - i,
    {
        let c = path.get_char(i);
        if c == '.' {
            let piece = path.substring_char(start, i);
            proof {
                lemma_split_dot_free_prefix(s, start as int, i as int);
                let tail = s.subrange(i as int, n as int);
                assert(tail.drop_first() =~= s.subrange(i + 1, n as int));
                assert(tail[0] == '.');
                assert(s.subrange(start as int, i as int) + Seq::<char>::empty() =~= s.subrange(
                    start as int,
                    i as int,
                ));
                assert(split_dots(tail) == seq![Seq::<char>::empty()] + split_dots(
                    s.subrange(i + 1, n as int),
                ));
                assert(split_dots(tail)[0] == Seq::<char>::empty());
                assert(split_dots(tail).drop_first() =~= split_dots(s.subrange(i + 1, n as int)));
            }
            parts.push(piece);
            proof {
                let old_parts = parts@.drop_last();
                assert(parts@.map_values(|p: &str| p@) =~= old_parts.map_values(|p: &str| p@).push(
                    piece@,
                ));
                assert(split_dots(s) =~= parts@.map_values(|p: &str| p@) + split_dots(
                    s.subrange(i + 1, n as int),
                ));
            }
            start = i + 1;
        }
        i = i + 1;
    }
    let piece = path.substring_char(start, n);
    proof {
        lemma_split_dot_free_prefix(s, start as int, n as int);
        let tail = s.subrange(n as int, n as int);
        assert(tail.len() == 0);
        assert(split_dots(tail) == seq![Seq::<char>::empty()]);
        assert(s.subrange(start as int, n as int) + Seq::<char>::empty() =~= s.subrange(
            start as int,
            n as int,
        ));
        assert(split_dots(s.subrange(start as int, n as int)) =~= seq![piece@]);
    }
    parts.push(piece);
    proof {
        let old_parts = parts@.drop_last();
        assert(parts@.map_values(|p: &str| p@) =~= old_parts.map_values(|p: &str| p@).push(
            piece@,
        ));
        assert(split_dots(s) =~= parts@.map_values(|p: &str| p@));
    }
    parts
}

/// Whether two strings hold the same characters.
pub fn str_eq(a: &str, b: &str) -> (r: bool)
    ensures
        r == (a@ == b@),
{
    let n = a.unicode_len();
    let m = b.unicode_len();
    if n != m {
        return false;
    }
    let mut i: usize = 0;
    while i < n
        invariant
            n == a@.len(),
            n == b@.len(),
            i <= n,
            forall|j: int| 0 <= j < i ==> a@[j] == b@[j],
        decreases n - i,
    {
        if a.get_char(i) != b.get_char(i) {
            return false;
        }
        i = i + 1;
    }
    assert(a@ =~= b@);
    true
}

} // verus!
