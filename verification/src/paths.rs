//! The known-paths set: the descriptor paths that the catalog already holds,
//! used by the scanner so that an already-known descriptor is never surfaced
//! again.
//!
//! The set itself is `ahash::AHashSet<String>`; the contracts speak of it
//! through `known_paths`, its contents as a set of character sequences.

use vstd::prelude::*;
use ahash::AHashSet;
use crate::record::MovieData;

verus! {

#[verifier::external_type_specification]
#[verifier::external_body]
#[verifier::reject_recursive_types(T)]
#[verifier::reject_recursive_types(S)]
pub struct ExAHashSet<T, S>(AHashSet<T, S>);

#[verifier::external_type_specification]
#[verifier::external_body]
pub struct ExARandomState(ahash::RandomState);

/// The paths that a known-paths set holds.
pub uninterp spec fn known_paths(s: AHashSet<String>) -> Set<Seq<char>>;

/// Relies on ahash::AHashSet::new: a freshly built set holds nothing.
#[verifier::external_body]
pub fn known_paths_new() -> (s: AHashSet<String>)
    ensures
        known_paths(s) == Set::<Seq<char>>::empty(),
{
    AHashSet::new()
}

/// Relies on std's HashSet::insert, reached through AHashSet's Deref:
/// after the call the set holds the given string as well; a String hashes
/// and compares by its characters.
#[verifier::external_body]
pub fn known_paths_insert(s: &mut AHashSet<String>, p: String)
    ensures
        known_paths(*final(s)) == known_paths(*old(s)).insert(p@),
{
    s.insert(p);
}

/// Relies on std's HashSet::contains, reached through AHashSet's Deref:
/// membership goes by the string's characters.
#[verifier::external_body]
pub fn known_paths_contains(s: &AHashSet<String>, p: &String) -> (r: bool)
    ensures
        r == known_paths(*s).contains(p@),
{
    s.contains(p)
}

/// The set of record paths of a record sequence.
pub open spec fn path_set(movies: Seq<MovieData>) -> Set<Seq<char>> {
    Set::new(|p: Seq<char>| exists|i: int| 0 <= i < movies.len() && movies[i].path@ == p)
}

proof fn lemma_path_set_extend(movies: Seq<MovieData>, i: int)
    requires
        0 <= i < movies.len(),
    ensures
        path_set(movies.take(i + 1)) == path_set(movies.take(i)).insert(movies[i].path@),
{
    let a = path_set(movies.take(i + 1));
    let b = path_set(movies.take(i)).insert(movies[i].path@);
    assert forall|p: Seq<char>| a.contains(p) implies b.contains(p) by {
        let k = choose|k: int|
            0 <= k < movies.take(i + 1).len() && (#[trigger] movies.take(i + 1)[k]).path@ == p;
        if k < i {
            assert(movies.take(i)[k].path@ == p);
        }
    }
    assert forall|p: Seq<char>| b.contains(p) implies a.contains(p) by {
        if p == movies[i].path@ {
            assert(movies.take(i + 1)[i].path@ == p);
        } else {
            let k = choose|k: int|
                0 <= k < movies.take(i).len() && (#[trigger] movies.take(i)[k]).path@ == p;
            assert(movies.take(i + 1)[k].path@ == p);
        }
    }
    assert(a =~= b);
}

/// Builds the known-paths set of a record collection: it holds exactly the
/// paths of the given records.
pub fn known_paths_of_movies(movies: &Vec<MovieData>) -> (s: AHashSet<String>)
    ensures
        known_paths(s) == path_set(movies@),
{
    let mut s = known_paths_new();
    let mut i: usize = 0;
    while i < movies.len()
        invariant
            i <= movies@.len(),
            known_paths(s) == path_set(movies@.take(i as int)),
        decreases movies@.len() - i,
    {
        proof {
            lemma_path_set_extend(movies@, i as int);
        }
        known_paths_insert(&mut s, movies[i].path.clone());
        i = i + 1;
    }
    proof {
        assert(movies@.take(movies@.len() as int) =~= movies@);
    }
    s
}

} // verus!
