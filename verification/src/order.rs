//! Derived orderings over the catalog's reference list.
//!
//! Every ordering is a sequence of positions into the record collection:
//! a stable descending sort by `added_time`, a stable selection of the
//! favorite records, and a seeded shuffle of the whole reference list.

use vstd::prelude::*;
use vstd::seq_lib::*;
use crate::record::MovieData;

verus! {

/// The identity reference list over `n` records.
pub open spec fn ident_seq(n: int) -> Seq<u32> {
    Seq::new(n as nat, |i: int| i as u32)
}

/// `a` ranks no later than `b` when sorting ascending by `keys`, with ties
/// broken by position: the order that keeps equal keys in insertion order.
pub open spec fn rank_before(keys: Seq<u64>, a: u32, b: u32) -> bool {
    ||| keys[a as int] < keys[b as int]
    ||| (keys[a as int] == keys[b as int] && a <= b)
}

/// `s` is sorted by `rank_before` over `keys`.
pub open spec fn ranked(keys: Seq<u64>, s: Seq<u32>) -> bool {
    forall|i: int, j: int| 0 <= i <= j < s.len() ==> rank_before(keys, s[i], s[j])
}

fn rank_le(keys: &Vec<u64>, a: u32, b: u32) -> (r: bool)
    requires
        a < keys@.len(),
        b < keys@.len(),
    ensures
        r == rank_before(keys@, a, b),
{
    let ka = keys[a as usize];
    let kb = keys[b as usize];
    ka < kb || (ka == kb && a <= b)
}

/// Sorts the given positions ascending by their keys; positions with equal
/// keys keep their numeric (insertion) order. The result is a rearrangement
/// of the input: same multiset of positions.
pub fn sort_by_keys(keys: &Vec<u64>, idx: Vec<u32>) -> (r: Vec<u32>)
    requires
        forall|k: int| 0 <= k < idx@.len() ==> idx@[k] < keys@.len(),
    ensures
        r@.to_multiset() == idx@.to_multiset(),
        r@.len() == idx@.len(),
        ranked(keys@, r@),
        forall|k: int| 0 <= k < r@.len() ==> r@[k] < keys@.len(),
{
    let mut out: Vec<u32> = Vec::new();
    let mut n: usize = 0;
    proof {
        assert(out@ =~= idx@.take(0));
    }
    while n < idx.len()
        invariant
            n <= idx@.len(),
            forall|k: int| 0 <= k < idx@.len() ==> idx@[k] < keys@.len(),
            out@.to_multiset() == idx@.take(n as int).to_multiset(),
            out@.len() == n,
            ranked(keys@, out@),
            forall|k: int| 0 <= k < out@.len() ==> out@[k] < keys@.len(),
        decreases idx@.len() - n,
    {
        let v = idx[n];
        let mut p: usize = 0;
        while p < out.len() && rank_le(keys, out[p], v)
            invariant
                p <= out@.len(),
                v < keys@.len(),
                forall|k: int| 0 <= k < out@.len() ==> out@[k] < keys@.len(),
                forall|k: int| 0 <= k < p ==> rank_before(keys@, out@[k], v),
            decreases out@.len() - p,
        {
            p = p + 1;
        }
        let ghost prev = out@;
        out.insert(p, v);
        proof {
            broadcast use vstd::seq_lib::to_multiset_insert;
            broadcast use vstd::seq_lib::group_to_multiset_ensures;

            assert(idx@.take(n + 1).drop_last() =~= idx@.take(n as int));
            assert(idx@.take(n + 1) =~= idx@.take(n as int).push(v));
            assert(out@.to_multiset() == idx@.take(n + 1).to_multiset());
            let cur = out@;
            assert forall|i: int, j: int| 0 <= i <= j < cur.len() implies rank_before(
                keys@,
                cur[i],
                cur[j],
            ) by {
                if j < p {
                    assert(cur[i] == prev[i] && cur[j] == prev[j]);
                } else if i < p && j == p {
                    assert(cur[i] == prev[i] && cur[j] == v);
                } else if i < p && j > p {
                    assert(cur[i] == prev[i] && cur[j] == prev[j - 1]);
                } else if i == p && j == p {
                    assert(cur[i] == v && cur[j] == v);
                } else if i == p && j > p {
                    // v ranks before the former occupant of p, which ranks
                    // before everything behind it
                    assert(cur[i] == v && cur[j] == prev[j - 1]);
                    assert(p < prev.len());
                    assert(rank_before(keys@, v, prev[p as int]));
                    assert(rank_before(keys@, prev[p as int], prev[j - 1]));
                } else {
                    assert(i > p && j > p);
                    assert(cur[i] == prev[i - 1] && cur[j] == prev[j - 1]);
                }
            }
        }
        n = n + 1;
    }
    proof {
        assert(idx@.take(idx@.len() as int) =~= idx@);
    }
    out
}

/// Builds the identity reference list `0, 1, ..., n - 1`.
pub fn identity_indices(n: usize) -> (r: Vec<u32>)
    requires
        n <= u32::MAX,
    ensures
        r@ == ident_seq(n as int),
{
    let mut out: Vec<u32> = Vec::new();
    let mut i: usize = 0;
    while i < n
        invariant
            i <= n,
            n <= u32::MAX,
            out@ == ident_seq(i as int),
        decreases n - i,
    {
        out.push(i as u32);
        proof {
            assert(out@ =~= ident_seq(i + 1));
        }
        i = i + 1;
    }
    out
}

/// `a` ranks no later than `b` in the by-added-time ordering: descending by
/// `added_time`, with equal times kept in insertion order.
pub open spec fn time_before(movies: Seq<MovieData>, a: u32, b: u32) -> bool {
    ||| movies[a as int].added_time > movies[b as int].added_time
    ||| (movies[a as int].added_time == movies[b as int].added_time && a <= b)
}

/// `s` is sorted descending by `added_time`, ties in insertion order.
pub open spec fn time_ranked(movies: Seq<MovieData>, s: Seq<u32>) -> bool {
    forall|i: int, j: int| 0 <= i <= j < s.len() ==> time_before(movies, s[i], s[j])
}

/// Computes the by-added-time ordering: a rearrangement of the identity
/// reference list, sorted descending by `added_time`, records with equal
/// `added_time` keeping their relative insertion order.
pub fn time_ordering(movies: &Vec<MovieData>) -> (r: Vec<u32>)
    requires
        movies@.len() <= u32::MAX,
    ensures
        r@.to_multiset() == ident_seq(movies@.len() as int).to_multiset(),
        r@.len() == movies@.len(),
        time_ranked(movies@, r@),
        forall|k: int| 0 <= k < r@.len() ==> r@[k] < movies@.len(),
{
    // sorting ascending by the complement of the timestamp sorts descending
    // by the timestamp itself
    let mut keys: Vec<u64> = Vec::new();
    let mut i: usize = 0;
    while i < movies.len()
        invariant
            i <= movies@.len(),
            keys@.len() == i,
            forall|k: int| 0 <= k < i ==> keys@[k] == u64::MAX - movies@[k].added_time,
        decreases movies@.len() - i,
    {
        keys.push(u64::MAX - movies[i].added_time);
        i = i + 1;
    }
    let idx = identity_indices(movies.len());
    let r = sort_by_keys(&keys, idx);
    proof {
        assert forall|a: int, b: int| 0 <= a <= b < r@.len() implies time_before(
            movies@,
            r@[a],
            r@[b],
        ) by {
            assert(rank_before(keys@, r@[a], r@[b]));
        }
    }
    r
}

/// The positions of the favorite records, in insertion order.
pub open spec fn fav_indices(movies: Seq<MovieData>) -> Seq<u32>
    decreases movies.len(),
{
    if movies.len() == 0 {
        Seq::empty()
    } else {
        let prefix = fav_indices(movies.drop_last());
        if movies.last().fav {
            prefix.push((movies.len() - 1) as u32)
        } else {
            prefix
        }
    }
}

/// Computes the by-favorite ordering: exactly the positions whose record has
/// the favorite flag set, in insertion order.
pub fn collect_fav_indices(movies: &Vec<MovieData>) -> (r: Vec<u32>)
    requires
        movies@.len() <= u32::MAX,
    ensures
        r@ == fav_indices(movies@),
{
    let mut out: Vec<u32> = Vec::new();
    let mut i: usize = 0;
    while i < movies.len()
        invariant
            i <= movies@.len(),
            movies@.len() <= u32::MAX,
            out@ == fav_indices(movies@.take(i as int)),
        decreases movies@.len() - i,
    {
        proof {
            assert(movies@.take(i + 1).drop_last() =~= movies@.take(i as int));
            assert(movies@.take(i + 1).last() == movies@[i as int]);
        }
        if movies[i].fav {
            out.push(i as u32);
        }
        i = i + 1;
    }
    proof {
        assert(movies@.take(movies@.len() as int) =~= movies@);
    }
    out
}

/// Everything the by-favorite ordering promises, spelled out: every selected
/// position is a favorite record, every favorite record is selected, and the
/// selection is strictly increasing, so the records keep their relative
/// insertion order and no position repeats.
pub proof fn lemma_fav_indices_exact(movies: Seq<MovieData>)
    requires
        movies.len() <= u32::MAX,
    ensures
        forall|k: int|
            0 <= k < fav_indices(movies).len() ==> (#[trigger] fav_indices(movies)[k]) < movies.len()
                && movies[fav_indices(movies)[k] as int].fav,
        forall|i: int|
            0 <= i < movies.len() && (#[trigger] movies[i]).fav ==> fav_indices(movies).contains(
                i as u32,
            ),
        forall|k1: int, k2: int|
            0 <= k1 < k2 < fav_indices(movies).len() ==> fav_indices(movies)[k1] < fav_indices(
                movies,
            )[k2],
    decreases movies.len(),
{
    if movies.len() > 0 {
        lemma_fav_indices_exact(movies.drop_last());
        let prefix = fav_indices(movies.drop_last());
        let whole = fav_indices(movies);
        assert forall|i: int|
            0 <= i < movies.len() && (#[trigger] movies[i]).fav implies whole.contains(
            i as u32,
        ) by {
            if i < movies.len() - 1 {
                assert(movies.drop_last()[i] == movies[i]);
                assert(prefix.contains(i as u32));
                let k = choose|k: int| 0 <= k < prefix.len() && prefix[k] == i as u32;
                assert(whole[k] == i as u32);
            } else {
                assert(whole.last() == i as u32);
            }
        }
        assert forall|k: int|
            0 <= k < whole.len() implies (#[trigger] whole[k]) < movies.len()
            && movies[whole[k] as int].fav by {
            if k < prefix.len() {
                assert(whole[k] == prefix[k]);
                assert(prefix[k] < movies.drop_last().len());
                assert(movies.drop_last()[prefix[k] as int] == movies[prefix[k] as int]);
            } else {
                assert(movies.last().fav);
                assert(whole[k] == (movies.len() - 1) as u32);
                assert(movies[movies.len() - 1].fav);
            }
        }
    }
}

/// The by-added-time rank is a total order over the positions of a record
/// sequence: any two positions are comparable, comparing both ways only
/// when they are the same position.
pub proof fn lemma_time_before_total(movies: Seq<MovieData>, a: u32, b: u32)
    ensures
        time_before(movies, a, b) || time_before(movies, b, a),
        time_before(movies, a, b) && time_before(movies, b, a) ==> a == b,
{
}

/// In any ordering sorted by `time_before`, two records with the same
/// `added_time` stand in their insertion order: the earlier-inserted one
/// comes first.
pub proof fn lemma_time_order_stable(
    movies: Seq<MovieData>,
    s: Seq<u32>,
    px: int,
    py: int,
)
    requires
        time_ranked(movies, s),
        0 <= px < s.len(),
        0 <= py < s.len(),
        s[px] < s[py],
        movies[s[px] as int].added_time == movies[s[py] as int].added_time,
    ensures
        px < py,
{
    if py <= px {
        assert(time_before(movies, s[py], s[px]));
    }
}

/// A rearrangement of the identity reference list over `n` records holds
/// every position below `n`, and has length `n`.
pub proof fn lemma_reorder_contains(s: Seq<u32>, n: int, x: u32)
    requires
        s.to_multiset() == ident_seq(n).to_multiset(),
        0 <= x < n,
    ensures
        s.len() == n,
        exists|p: int| 0 <= p < s.len() && s[p] == x,
{
    broadcast use vstd::seq_lib::group_to_multiset_ensures;

    assert(ident_seq(n)[x as int] == x);
    assert(ident_seq(n).contains(x));
    assert(ident_seq(n).len() == n);
    assert(ident_seq(n).to_multiset().count(x) > 0);
    assert(s.to_multiset().count(x) > 0);
    assert(s.contains(x));
    assert(s.len() == s.to_multiset().len());
    assert(ident_seq(n).len() == ident_seq(n).to_multiset().len());
    let p = choose|p: int| 0 <= p < s.len() && s[p] == x;
    assert(0 <= p < s.len() && s[p] == x);
}

/// A rearrangement of the identity reference list over `n` records has
/// length `n`.
pub proof fn lemma_reorder_len(s: Seq<u32>, n: int)
    requires
        0 <= n,
        s.to_multiset() == ident_seq(n).to_multiset(),
    ensures
        s.len() == n,
{
    broadcast use vstd::seq_lib::group_to_multiset_ensures;

    assert(s.len() == s.to_multiset().len());
    assert(ident_seq(n).len() == ident_seq(n).to_multiset().len());
}

/// A rearrangement of the identity reference list over `n` records holds
/// only positions below `n`.
pub proof fn lemma_reorder_bounds(s: Seq<u32>, n: int)
    requires
        0 <= n <= u32::MAX,
        s.to_multiset() == ident_seq(n).to_multiset(),
    ensures
        forall|k: int| 0 <= k < s.len() ==> s[k] < n,
{
    broadcast use vstd::seq_lib::group_to_multiset_ensures;

    assert forall|k: int| 0 <= k < s.len() implies s[k] < n by {
        assert(s.contains(s[k]));
        assert(s.to_multiset().count(s[k]) > 0);
        assert(ident_seq(n).to_multiset().count(s[k]) > 0);
        assert(ident_seq(n).contains(s[k]));
        let p = choose|p: int| 0 <= p < ident_seq(n).len() && ident_seq(n)[p] == s[k];
        assert(s[k] == p as u32);
    }
}

fn next_rand(s: u64) -> u64 {
    let mut x: u64 = if s == 0 { 0x9E3779B97F4A7C15 } else { s };
    x = x ^ (x << 13);
    x = x ^ (x >> 7);
    x = x ^ (x << 17);
    x
}

proof fn lemma_update_multiset(s: Seq<u32>, i: int, x: u32)
    requires
        0 <= i < s.len(),
    ensures
        s.update(i, x).to_multiset() == s.to_multiset().remove(s[i]).insert(x),
{
    broadcast use vstd::seq_lib::to_multiset_insert;
    broadcast use vstd::seq_lib::to_multiset_remove;

    assert(s.update(i, x) =~= s.remove(i).insert(i, x));
    assert(s.remove(i).insert(i, x).to_multiset() == s.remove(i).to_multiset().insert(x));
}

proof fn lemma_swap_multiset(s: Seq<u32>, i: int, j: int)
    requires
        0 <= i < s.len(),
        0 <= j < s.len(),
    ensures
        s.update(i, s[j]).update(j, s[i]).to_multiset() == s.to_multiset(),
{
    broadcast use vstd::multiset::group_multiset_axioms;

    if i == j {
        assert(s.update(i, s[j]).update(j, s[i]) =~= s);
    } else {
        broadcast use vstd::seq_lib::group_to_multiset_ensures;

        let s1 = s.update(i, s[j]);
        lemma_update_multiset(s, i, s[j]);
        lemma_update_multiset(s1, j, s[i]);
        assert(s1[j] == s[j]);
        assert(s.contains(s[i]));
        assert(s.contains(s[j]));
        assert(s.to_multiset().count(s[i]) > 0);
        assert(s.to_multiset().count(s[j]) > 0);
        let m0 = s.to_multiset();
        let m2 = m0.remove(s[i]).insert(s[j]).remove(s[j]).insert(s[i]);
        assert(s1.update(j, s[i]).to_multiset() == m2);
        assert forall|e: u32| m2.count(e) == m0.count(e) by {
            broadcast use vstd::multiset::group_multiset_axioms;

        }
        assert(m2 =~= m0);
    }
}

/// Shuffles the given positions with a deterministic generator drawn from
/// `seed`: the result holds exactly the positions that came in, rearranged.
pub fn shuffle_indices(idx: Vec<u32>, seed: u64) -> (r: Vec<u32>)
    ensures
        r@.to_multiset() == idx@.to_multiset(),
        r@.len() == idx@.len(),
{
    let mut v = idx;
    let mut s: u64 = seed;
    let mut i: usize = v.len();
    while i > 1
        invariant
            i <= v@.len(),
            v@.to_multiset() == idx@.to_multiset(),
            v@.len() == idx@.len(),
        decreases i,
    {
        s = next_rand(s);
        let j = (s % (i as u64)) as usize;
        let ghost prev = v@;
        let a = v[i - 1];
        let b = v[j];
        v[i - 1] = b;
        v[j] = a;
        proof {
            lemma_swap_multiset(prev, i - 1, j as int);
            assert(v@ =~= prev.update(i - 1, prev[j as int]).update(j as int, prev[i - 1]));
        }
        i = i - 1;
    }
    v
}

} // verus!
