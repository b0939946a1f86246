//! Names and shapes of the vessels and repositories of a fleet, and the
//! lookups by name that perturbations rely on.

use vstd::prelude::*;

verus! {

/// What the structural logic reads of a vessel: its name and the number of
/// components of its position and of its velocity.
pub struct VesselShape {
    pub name: String,
    pub position_dims: usize,
    pub velocity_dims: usize,
}

/// The names of a sequence of vessels, in order.
pub open spec fn vessel_names(vessels: Seq<VesselShape>) -> Seq<Seq<char>> {
    vessels.map_values(|v: VesselShape| v.name@)
}

/// The views of a sequence of strings, in order.
pub open spec fn string_views(names: Seq<String>) -> Seq<Seq<char>> {
    names.map_values(|s: String| s@)
}

/// `i` is the first position of `name` in `names`.
pub open spec fn is_first_match(names: Seq<Seq<char>>, name: Seq<char>, i: int) -> bool {
    &&& 0 <= i < names.len()
    &&& names[i] == name
    &&& forall|j: int| 0 <= j < i ==> names[j] != name
}

/// The positions of the entries of `names` that differ from `name`, in
/// increasing order: the entries that a removal by name keeps.
pub open spec fn kept_indices(names: Seq<Seq<char>>, name: Seq<char>) -> Seq<int>
    decreases names.len(),
{
    if names.len() == 0 {
        Seq::empty()
    } else {
        let prefix = kept_indices(names.drop_last(), name);
        if names.last() == name {
            prefix
        } else {
            prefix.push(names.len() - 1)
        }
    }
}

/// The entries of `names` that a removal of `name` keeps, in their order.
pub open spec fn names_after_removal(names: Seq<Seq<char>>, name: Seq<char>) -> Seq<Seq<char>> {
    kept_indices(names, name).map_values(|i: int| names[i])
}

/// The indices of a `Vec<usize>` as mathematical integers.
pub open spec fn as_ints(v: Seq<usize>) -> Seq<int> {
    v.map_values(|i: usize| i as int)
}

/// The first vessel whose name is `name`, if there is one.
pub fn find_vessel(vessels: &Vec<VesselShape>, name: &String) -> (r: Option<usize>)
    ensures
        r is None <==> !vessel_names(vessels@).contains(name@),
        r matches Some(i) ==> is_first_match(vessel_names(vessels@), name@, i as int),
{
    let n = vessels.len();
    let mut i: usize = 0;
    while i < n
        invariant
            n == vessels@.len(),
            i <= n,
            forall|j: int| 0 <= j < i ==> vessel_names(vessels@)[j] != name@,
        decreases n - i,
    {
        if vessels[i].name == *name {
            assert(vessel_names(vessels@)[i as int] == name@);
            return Some(i);
        }
        i = i + 1;
    }
    proof {
        if vessel_names(vessels@).contains(name@) {
            let k = choose|k: int| 0 <= k < vessel_names(vessels@).len()
                && vessel_names(vessels@)[k] == name@;
            assert(vessel_names(vessels@)[k] != name@);
        }
    }
    None
}

/// The positions of the repositories that remain when those named `name` are
/// removed, in their original order.
pub fn kept_repos(repo_names: &Vec<String>, name: &String) -> (r: Vec<usize>)
    ensures
        as_ints(r@) == kept_indices(string_views(repo_names@), name@),
{
    let ghost names = string_views(repo_names@);
    let n = repo_names.len();
    let mut r: Vec<usize> = Vec::new();
    let mut i: usize = 0;
    while i < n
        invariant
            n == repo_names@.len(),
            names == string_views(repo_names@),
            i <= n,
            as_ints(r@) == kept_indices(names.take(i as int), name@),
        decreases n - i,
    {
        proof {
            assert(names.take(i + 1).drop_last() =~= names.take(i as int));
            assert(names.take(i + 1).last() == names[i as int]);
        }
        if repo_names[i] != *name {
            r.push(i);
            proof {
                assert(as_ints(r@) =~= as_ints(r@.drop_last()).push(i as int));
            }
        }
        i = i + 1;
    }
    proof {
        assert(names.take(n as int) =~= names);
    }
    r
}

/// Removing by name keeps exactly the entries with another name, in their
/// original order: every kept position holds another name, the kept positions
/// increase, and every position with another name is kept.
pub proof fn lemma_kept_indices_exact(names: Seq<Seq<char>>, name: Seq<char>)
    ensures
        forall|k: int|
            0 <= k < kept_indices(names, name).len() ==> {
                &&& 0 <= #[trigger] kept_indices(names, name)[k] < names.len()
                &&& names[kept_indices(names, name)[k]] != name
            },
        forall|k1: int, k2: int|
            0 <= k1 < k2 < kept_indices(names, name).len() ==> #[trigger] kept_indices(names, name)[k1]
                < #[trigger] kept_indices(names, name)[k2],
        forall|j: int|
            0 <= j < names.len() && names[j] != name ==> #[trigger] kept_indices(names, name).contains(j),
    decreases names.len(),
{
    if names.len() > 0 {
        let prefix = names.drop_last();
        lemma_kept_indices_exact(prefix, name);
        let kp = kept_indices(prefix, name);
        let k = kept_indices(names, name);
        assert forall|j: int| 0 <= j < names.len() && names[j] != name implies k.contains(j) by {
            if j < names.len() - 1 {
                assert(prefix[j] == names[j]);
                assert(kp.contains(j));
                let w = choose|w: int| 0 <= w < kp.len() && kp[w] == j;
                assert(k[w] == j);
            } else {
                assert(k[k.len() - 1] == j);
            }
        }
    }
}

/// After a removal by name, no entry carries that name.
pub proof fn lemma_removal_leaves_no_named(names: Seq<Seq<char>>, name: Seq<char>)
    ensures
        !names_after_removal(names, name).contains(name),
        names_after_removal(names, name).len() <= names.len(),
{
    lemma_kept_indices_exact(names, name);
    lemma_kept_len(names, name);
    let after = names_after_removal(names, name);
    if after.contains(name) {
        let w = choose|w: int| 0 <= w < after.len() && after[w] == name;
        assert(names[kept_indices(names, name)[w]] != name);
    }
}

proof fn lemma_kept_len(names: Seq<Seq<char>>, name: Seq<char>)
    ensures
        kept_indices(names, name).len() <= names.len(),
    decreases names.len(),
{
    if names.len() > 0 {
        lemma_kept_len(names.drop_last(), name);
    }
}

/// A sequence in which `name` does not occur loses nothing to a removal of
/// `name`.
proof fn lemma_kept_all_when_absent(names: Seq<Seq<char>>, name: Seq<char>)
    requires
        !names.contains(name),
    ensures
        kept_indices(names, name) == Seq::new(names.len(), |i: int| i),
    decreases names.len(),
{
    if names.len() > 0 {
        let prefix = names.drop_last();
        assert(!prefix.contains(name)) by {
            if prefix.contains(name) {
                let w = choose|w: int| 0 <= w < prefix.len() && prefix[w] == name;
                assert(names[w] == name);
            }
        }
        assert(names[names.len() - 1] != name);
        lemma_kept_all_when_absent(prefix, name);
        assert(kept_indices(names, name) =~= Seq::new(names.len(), |i: int| i));
    }
}

/// Removing the same name a second time changes nothing.
pub proof fn lemma_removal_idempotent(names: Seq<Seq<char>>, name: Seq<char>)
    ensures
        names_after_removal(names_after_removal(names, name), name) == names_after_removal(names, name),
{
    let after = names_after_removal(names, name);
    lemma_removal_leaves_no_named(names, name);
    lemma_kept_all_when_absent(after, name);
    assert(names_after_removal(after, name) =~= after);
}

} // verus!
