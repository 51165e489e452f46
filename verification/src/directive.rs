//! Per-module severity directives: an ordered table of
//! (origin-prefix, level) rules that override the global threshold for
//! matching origins.

use vstd::prelude::*;
use vstd::seq_lib::*;
use vstd::string::StrSliceExecFns;
use crate::level::Level;
use crate::level::at_least_as_severe;

verus! {

/// A rule overriding the global threshold: for origins starting with
/// `name`, a record passes exactly when its severity is at least as
/// severe as `level`.
#[derive(Clone, Debug)]
pub struct LogDirective {
    pub name: String,
    pub level: Level,
}

/// The directive applies to this origin: its name is a prefix of it.
pub open spec fn name_matches(d: LogDirective, origin: Seq<char>) -> bool {
    d.name@.is_prefix_of(origin)
}

/// Index of the directive a reverse scan finds first: the largest index
/// whose name is a prefix of the origin, or -1 when none matches.
pub open spec fn last_match_index(dirs: Seq<LogDirective>, origin: Seq<char>) -> int
    decreases dirs.len(),
{
    if dirs.len() == 0 {
        -1
    } else if name_matches(dirs[dirs.len() - 1], origin) {
        dirs.len() - 1
    } else {
        last_match_index(dirs.drop_last(), origin)
    }
}

/// What `last_match_index` returns: a valid index of a matching
/// directive with no match after it, or -1 when nothing matches.
pub proof fn lemma_last_match_index(dirs: Seq<LogDirective>, origin: Seq<char>)
    ensures
        ({
            let i = last_match_index(dirs, origin);
            &&& -1 <= i < dirs.len()
            &&& i >= 0 ==> name_matches(dirs[i], origin)
            &&& forall|j: int| i < j < dirs.len() ==> !name_matches(#[trigger] dirs[j], origin)
        }),
    decreases dirs.len(),
{
    if dirs.len() > 0 && !name_matches(dirs[dirs.len() - 1], origin) {
        lemma_last_match_index(dirs.drop_last(), origin);
        assert(forall|j: int| 0 <= j < dirs.len() - 1 ==> dirs.drop_last()[j] == dirs[j]);
    }
}

/// The table decides a record from (origin, severity): the directive
/// found by the reverse scan decides if one matches; otherwise the
/// global threshold decides.
pub open spec fn spec_passes(
    dirs: Seq<LogDirective>,
    global: Level,
    origin: Seq<char>,
    level: Level,
) -> bool {
    let i = last_match_index(dirs, origin);
    if i >= 0 {
        at_least_as_severe(level, dirs[i].level)
    } else {
        at_least_as_severe(level, global)
    }
}

/// Directives stand in non-decreasing order of name length, so a
/// reverse scan visits longest (most specific) prefixes first.
pub open spec fn sorted_by_name_len(dirs: Seq<LogDirective>) -> bool {
    forall|i: int, j: int|
        0 <= i <= j < dirs.len() ==> #[trigger] dirs[i].name@.len() <= #[trigger] dirs[j].name@.len()
}

/// If no directive's name is a prefix of the origin, the decision is
/// the global threshold check alone.
pub proof fn lemma_no_match_global_only(
    dirs: Seq<LogDirective>,
    global: Level,
    origin: Seq<char>,
    level: Level,
)
    requires
        forall|j: int| 0 <= j < dirs.len() ==> !name_matches(#[trigger] dirs[j], origin),
    ensures
        spec_passes(dirs, global, origin, level) == at_least_as_severe(level, global),
{
    lemma_last_match_index(dirs, origin);
}

/// A directive whose name is the strictly longest prefix of the origin
/// decides alone: with the table sorted, a record passes exactly when
/// its severity is at least as severe as that directive's level.
pub proof fn lemma_longest_directive_decides(
    dirs: Seq<LogDirective>,
    global: Level,
    origin: Seq<char>,
    level: Level,
    i: int,
)
    requires
        sorted_by_name_len(dirs),
        0 <= i < dirs.len(),
        name_matches(dirs[i], origin),
        forall|j: int|
            0 <= j < dirs.len() && j != i && name_matches(#[trigger] dirs[j], origin)
                ==> dirs[j].name@.len() < dirs[i].name@.len(),
    ensures
        spec_passes(dirs, global, origin, level) == at_least_as_severe(level, dirs[i].level),
{
    lemma_last_match_index(dirs, origin);
    let m: int = last_match_index(dirs, origin);
    assert(m >= i);
    if m > i {
        assert(dirs[m].name@.len() < dirs[i].name@.len());
        assert(dirs[i].name@.len() <= dirs[m].name@.len());
        assert(false);
    }
}

/// True exactly when `prefix` is a prefix of `s`, compared character by
/// character.
pub fn str_starts_with(s: &str, prefix: &str) -> (r: bool)
    ensures
        r == prefix@.is_prefix_of(s@),
{
    let n: usize = prefix.unicode_len();
    let m: usize = s.unicode_len();
    if n > m {
        return false;
    }
    let mut i: usize = 0;
    while i < n
        invariant
            n == prefix@.len(),
            m == s@.len(),
            n <= m,
            i <= n,
            forall|j: int| 0 <= j < i ==> s@[j] == prefix@[j],
        decreases n - i,
    {
        if s.get_char(i) != prefix.get_char(i) {
            assert(!prefix@.is_prefix_of(s@)) by {
                if prefix@.is_prefix_of(s@) {
                    assert(prefix@[i as int] == s@.subrange(0, n as int)[i as int]);
                }
            }
            return false;
        }
        i += 1;
    }
    assert(prefix@ =~= s@.subrange(0, n as int));
    true
}

/// Level of the directive the reverse scan finds for this origin, if
/// any: the scan returns at the first (longest-name) match.
pub fn directive_level(directives: &Vec<LogDirective>, origin: &str) -> (r: Option<Level>)
    ensures
        ({
            let i = last_match_index(directives@, origin@);
            if i >= 0 {
                r == Some(directives@[i].level)
            } else {
                r is None
            }
        }),
{
    let ghost all = directives@;
    let mut k: usize = directives.len();
    assert(all.subrange(0, k as int) =~= all);
    while k > 0
        invariant
            k <= all.len(),
            directives@ == all,
            last_match_index(all, origin@) == last_match_index(
                all.subrange(0, k as int),
                origin@,
            ),
        decreases k,
    {
        let ghost prefix_incl = all.subrange(0, k as int);
        k = k - 1;
        if str_starts_with(origin, directives[k].name.as_str()) {
            assert(last_match_index(prefix_incl, origin@) == k);
            return Some(directives[k].level);
        }
        assert(prefix_incl.drop_last() =~= all.subrange(0, k as int));
        assert(last_match_index(prefix_incl, origin@) == last_match_index(
            all.subrange(0, k as int),
            origin@,
        ));
    }
    assert(all.subrange(0, 0) =~= Seq::<LogDirective>::empty());
    None
}

/// Sort the table in place, ascending by name length, keeping exactly
/// the given directives.
pub fn sort_directives(directives: &mut Vec<LogDirective>)
    ensures
        sorted_by_name_len(final(directives)@),
        final(directives)@.to_multiset() == old(directives)@.to_multiset(),
{
    broadcast use vstd::seq_lib::group_to_multiset_ensures;
    broadcast use vstd::multiset::group_multiset_axioms;

    let n: usize = directives.len();
    if n <= 1 {
        return;
    }
    let mut i: usize = 1;
    while i < n
        invariant
            n == directives@.len(),
            1 <= i <= n,
            sorted_by_name_len(directives@.subrange(0, i as int)),
            directives@.to_multiset() == old(directives)@.to_multiset(),
        decreases n - i,
    {
        let ghost before = directives@;
        let d = directives.remove(i);
        let ghost removed = directives@;
        let dlen: usize = d.name.as_str().unicode_len();
        let mut j: usize = i;
        while j > 0 && directives[j - 1].name.as_str().unicode_len() > dlen
            invariant
                j <= i,
                i < n,
                directives@ == removed,
                removed.len() == n - 1,
                dlen == d.name@.len(),
                forall|t: int|
                    j <= t < i ==> #[trigger] removed[t].name@.len() > d.name@.len(),
            decreases j,
        {
            j = j - 1;
        }
        proof {
            assert(removed == before.remove(i as int));
            vstd::seq_lib::to_multiset_remove(before, i as int);
            vstd::seq_lib::to_multiset_contains(before, d);
            assert(before[i as int] == d);
            assert(before.contains(d));
            assert(before.to_multiset().count(d) > 0);
        }
        directives.insert(j, d);
        assert(directives@ == removed.insert(j as int, d));
        proof {
            vstd::seq_lib::to_multiset_insert(removed, j as int, d);
            assert(directives@.to_multiset() == removed.to_multiset().insert(d));
            assert(directives@.to_multiset() =~= before.to_multiset());
        }
        assert forall|p: int, q: int| 0 <= p <= q < i + 1 implies
            #[trigger] directives@[p].name@.len() <= #[trigger] directives@[q].name@.len() by {
            assert(forall|t: int| 0 <= t < i ==> removed[t] == before[t]);
            if j > 0 {
                assert(removed[j - 1].name@.len() <= d.name@.len());
            }
        }
        assert(sorted_by_name_len(directives@.subrange(0, i + 1 as int))) by {
            assert(forall|t: int|
                0 <= t < i + 1 ==> directives@.subrange(0, i + 1 as int)[t] == directives@[t]);
        }
        i = i + 1;
    }
    assert(directives@.subrange(0, n as int) =~= directives@);
}

} // verus!
