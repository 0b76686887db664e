//! The catalog store: the record snapshot, its reference list, and the
//! per-ordering caches with their dirty bits.
//!
//! The store's standing well-formedness, enforced as a type invariant:
//! the reference list is the identity permutation over the snapshot, and a
//! cache whose dirty bit is clear holds exactly its ordering of the records
//! the snapshot holds now. Replacing the snapshot therefore always marks
//! every cache dirty; an ordering query never hands out positions computed
//! against an older snapshot.

use vstd::prelude::*;
use crate::order::{
    collect_fav_indices, fav_indices, ident_seq, identity_indices, lemma_reorder_bounds,
    lemma_reorder_len, shuffle_indices, time_ordering, time_ranked,
};
use crate::nfo::{load_movie_from_nfo, spec_parse_movie};
use crate::record::{MovieData, MovieDataModel};

verus! {

/// The records one scan's discoveries add to the snapshot: each pair is a
/// discovered descriptor's path and text; every descriptor that parses
/// becomes a record stamped with the scan's start time and an unset
/// favorite flag, in discovery order; the rest contribute nothing.
pub open spec fn spec_ingest(ds: Seq<(Seq<char>, Seq<char>)>, t: u64) -> Seq<MovieDataModel>
    decreases ds.len(),
{
    if ds.len() == 0 {
        Seq::empty()
    } else {
        let prefix = spec_ingest(ds.drop_last(), t);
        match spec_parse_movie(ds.last().1) {
            Some(m) => prefix.push(
                MovieDataModel { path: ds.last().0, movie: m, added_time: t, fav: false },
            ),
            None => prefix,
        }
    }
}

/// The view of a descriptor list handed in by the caller.
pub open spec fn descriptor_views(ds: Seq<(String, String)>) -> Seq<(Seq<char>, Seq<char>)> {
    ds.map_values(|d: (String, String)| (d.0@, d.1@))
}

/// The deep views of a record sequence.
pub open spec fn movie_views(movies: Seq<MovieData>) -> Seq<MovieDataModel> {
    movies.map_values(|r: MovieData| r.deep())
}

/// The persisted snapshot: the records in discovery order, and the time of
/// the last completed scan.
#[derive(Clone)]
pub struct Config {
    pub movies: Vec<MovieData>,
    pub last_scan_time: u64,
}

impl Default for Config {
    /// An empty snapshot that has never been scanned.
    fn default() -> (r: Self)
        ensures
            r.movies@ == Seq::<MovieData>::empty(),
            r.last_scan_time == 0,
    {
        Config { movies: Vec::new(), last_scan_time: 0 }
    }
}

impl Config {
    /// Folds one scan's discoveries into the snapshot. Every handed-in pair
    /// is a discovered descriptor's path and its text; each descriptor that
    /// parses is appended as a record with `added_time` stamped from
    /// `scan_start` and the favorite flag cleared, in discovery order. A
    /// descriptor that fails to parse is skipped — it aborts neither the
    /// scan nor this fold. The records already held stay untouched, and
    /// `last_scan_time` advances to `now`.
    pub fn ingest_descriptors(
        &mut self,
        descriptors: Vec<(String, String)>,
        scan_start: u64,
        now: u64,
    )
        ensures
            movie_views(final(self).movies@) == movie_views(old(self).movies@) + spec_ingest(
                descriptor_views(descriptors@),
                scan_start,
            ),
            final(self).movies@.len() >= old(self).movies@.len(),
            forall|k: int|
                0 <= k < old(self).movies@.len() ==> final(self).movies@[k] == old(self).movies@[k],
            final(self).last_scan_time == now,
    {
        let ghost m0 = self.movies@;
        let ghost dsm = descriptor_views(descriptors@);
        let mut i: usize = 0;
        proof {
            assert(dsm.take(0) =~= Seq::<(Seq<char>, Seq<char>)>::empty());
            assert(movie_views(self.movies@) =~= movie_views(m0) + spec_ingest(
                dsm.take(0),
                scan_start,
            ));
        }
        while i < descriptors.len()
            invariant
                i <= descriptors@.len(),
                dsm == descriptor_views(descriptors@),
                self.movies@.len() >= m0.len(),
                forall|k: int| 0 <= k < m0.len() ==> self.movies@[k] == m0[k],
                movie_views(self.movies@) == movie_views(m0) + spec_ingest(
                    dsm.take(i as int),
                    scan_start,
                ),
                self.last_scan_time == old(self).last_scan_time,
            decreases descriptors@.len() - i,
        {
            let path = descriptors[i].0.clone();
            let ghost before = self.movies@;
            proof {
                assert(dsm.take(i + 1).drop_last() =~= dsm.take(i as int));
                assert(dsm.take(i + 1).last() == dsm[i as int]);
                assert(dsm[i as int] == (descriptors@[i as int].0@, descriptors@[i as int].1@));
            }
            match load_movie_from_nfo(path, descriptors[i].1.as_str(), scan_start) {
                Some(rec) => {
                    proof {
                        assert(rec.deep() =~= (MovieDataModel {
                            path: dsm[i as int].0,
                            movie: spec_parse_movie(dsm[i as int].1)->Some_0,
                            added_time: scan_start,
                            fav: false,
                        }));
                    }
                    self.movies.push(rec);
                    proof {
                        assert(movie_views(self.movies@) =~= movie_views(before).push(rec.deep()));
                        assert(movie_views(self.movies@) =~= movie_views(m0) + spec_ingest(
                            dsm.take(i + 1),
                            scan_start,
                        ));
                    }
                },
                None => {
                    proof {
                        assert(spec_ingest(dsm.take(i + 1), scan_start) == spec_ingest(
                            dsm.take(i as int),
                            scan_start,
                        ));
                    }
                },
            }
            i = i + 1;
        }
        proof {
            assert(dsm.take(descriptors@.len() as int) =~= dsm);
        }
        self.last_scan_time = now;
    }
}

/// Loading a library of freshly discovered, well-formed descriptors yields
/// one record per descriptor, in discovery order: each carries its
/// descriptor's path and movie, the favorite flag cleared, and `added_time`
/// equal to the scan's start time.
pub proof fn lemma_ingest_all_valid(ds: Seq<(Seq<char>, Seq<char>)>, t: u64)
    requires
        forall|k: int| 0 <= k < ds.len() ==> spec_parse_movie((#[trigger] ds[k]).1) is Some,
    ensures
        spec_ingest(ds, t).len() == ds.len(),
        forall|k: int|
            0 <= k < ds.len() ==> {
                let rec = #[trigger] spec_ingest(ds, t)[k];
                rec.fav == false && rec.added_time == t && rec.path == ds[k].0 && rec.movie
                    == spec_parse_movie(ds[k].1)->Some_0
            },
    decreases ds.len(),
{
    if ds.len() > 0 {
        assert(forall|k: int|
            0 <= k < ds.drop_last().len() ==> (#[trigger] ds.drop_last()[k]) == ds[k]);
        lemma_ingest_all_valid(ds.drop_last(), t);
    }
}

/// A scan that discovers nothing adds nothing: folding an empty discovery
/// list leaves the catalog's records exactly as they were.
pub proof fn lemma_ingest_empty(t: u64)
    ensures
        spec_ingest(Seq::<(Seq<char>, Seq<char>)>::empty(), t) == Seq::<MovieDataModel>::empty(),
{
}

/// Descriptors that do not parse contribute nothing at all: a scan over
/// only malformed descriptors leaves the catalog's records untouched, yet
/// completes like any other.
pub proof fn lemma_ingest_none_valid(ds: Seq<(Seq<char>, Seq<char>)>, t: u64)
    requires
        forall|k: int| 0 <= k < ds.len() ==> spec_parse_movie((#[trigger] ds[k]).1) is None,
    ensures
        spec_ingest(ds, t) == Seq::<MovieDataModel>::empty(),
    decreases ds.len(),
{
    if ds.len() > 0 {
        assert(forall|k: int|
            0 <= k < ds.drop_last().len() ==> (#[trigger] ds.drop_last()[k]) == ds[k]);
        lemma_ingest_none_valid(ds.drop_last(), t);
    }
}

/// One ordering's cache: the materialized permutation, if any, and its
/// dirty bit.
pub struct IndexCacheTable {
    pub idx: Option<Vec<u32>>,
    pub dirty: bool,
}

impl Default for IndexCacheTable {
    /// An unpopulated cache, born dirty: the first query must compute.
    fn default() -> (r: Self)
        ensures
            r.idx is None,
            r.dirty,
    {
        IndexCacheTable { idx: None, dirty: true }
    }
}

/// A lazy, single-pass walk over one ordering: positions into a record
/// slice, yielded as record references in permutation order.
pub struct DatabaseSlice<'a> {
    items: &'a [MovieData],
    index: &'a [u32],
    i: usize,
}

impl<'a> DatabaseSlice<'a> {
    /// The records the walk draws from.
    pub closed spec fn items(&self) -> Seq<MovieData> {
        self.items@
    }

    /// The permutation the walk follows.
    pub closed spec fn order(&self) -> Seq<u32> {
        self.index@
    }

    /// How many positions have been consumed.
    pub closed spec fn pos(&self) -> int {
        self.i as int
    }

    pub fn new(items: &'a [MovieData], index: &'a [u32]) -> (r: Self)
        ensures
            r.items() == items@,
            r.order() == index@,
            r.pos() == 0,
    {
        DatabaseSlice { items, index, i: 0 }
    }

    /// Yields the record at the next position, or nothing once the
    /// permutation is exhausted or the position falls outside the records.
    pub fn next(&mut self) -> (r: Option<&'a MovieData>)
        ensures
            final(self).items() == old(self).items(),
            final(self).order() == old(self).order(),
            old(self).pos() < old(self).order().len() ==> {
                &&& final(self).pos() == old(self).pos() + 1
                &&& match r {
                    Some(m) => old(self).order()[old(self).pos()] < old(self).items().len()
                        && *m == old(self).items()[old(self).order()[old(self).pos()] as int],
                    None => old(self).order()[old(self).pos()] >= old(self).items().len(),
                }
            },
            old(self).pos() >= old(self).order().len() ==> r is None && final(self).pos() == old(
                self,
            ).pos(),
    {
        if self.i < self.index.len() {
            let k = self.index[self.i];
            self.i = self.i + 1;
            if (k as usize) < self.items.len() {
                Some(&self.items[k as usize])
            } else {
                None
            }
        } else {
            None
        }
    }
}

/// The catalog store: snapshot, reference list, and one cache per ordering.
pub struct SimpleJsonDatabase {
    config: Config,
    index_ref: Vec<u32>,
    order_by_fav_index: IndexCacheTable,
    order_by_added_time_index: IndexCacheTable,
    order_by_random_index: IndexCacheTable,
}

impl SimpleJsonDatabase {
    /// The records of the current snapshot, in discovery order.
    pub closed spec fn movies(&self) -> Seq<MovieData> {
        self.config.movies@
    }

    /// The time of the last completed scan, as persisted.
    pub closed spec fn last_scan_time(&self) -> u64 {
        self.config.last_scan_time
    }

    /// The by-added-time cache is populated and its dirty bit clear.
    pub closed spec fn time_cache_valid(&self) -> bool {
        !self.order_by_added_time_index.dirty && self.order_by_added_time_index.idx is Some
    }

    /// The by-favorite cache is populated and its dirty bit clear.
    pub closed spec fn fav_cache_valid(&self) -> bool {
        !self.order_by_fav_index.dirty && self.order_by_fav_index.idx is Some
    }

    /// The by-random cache is populated and its dirty bit clear.
    pub closed spec fn random_cache_valid(&self) -> bool {
        !self.order_by_random_index.dirty && self.order_by_random_index.idx is Some
    }

    /// The by-added-time cache's permutation (empty when unpopulated).
    pub closed spec fn time_cache(&self) -> Seq<u32> {
        match self.order_by_added_time_index.idx {
            Some(v) => v@,
            None => Seq::empty(),
        }
    }

    /// The by-favorite cache's permutation (empty when unpopulated).
    pub closed spec fn fav_cache(&self) -> Seq<u32> {
        match self.order_by_fav_index.idx {
            Some(v) => v@,
            None => Seq::empty(),
        }
    }

    /// The by-random cache's permutation (empty when unpopulated).
    pub closed spec fn random_cache(&self) -> Seq<u32> {
        match self.order_by_random_index.idx {
            Some(v) => v@,
            None => Seq::empty(),
        }
    }

    #[verifier::type_invariant]
    spec fn wf(&self) -> bool {
        &&& self.config.movies@.len() <= u32::MAX
        &&& self.index_ref@ == ident_seq(self.config.movies@.len() as int)
        &&& (!self.order_by_added_time_index.dirty ==> match self.order_by_added_time_index.idx {
            Some(v) => v@.to_multiset() == ident_seq(self.config.movies@.len() as int).to_multiset()
                && time_ranked(self.config.movies@, v@) && forall|k: int|
                0 <= k < v@.len() ==> v@[k] < self.config.movies@.len(),
            None => false,
        })
        &&& (!self.order_by_fav_index.dirty ==> match self.order_by_fav_index.idx {
            Some(v) => v@ == fav_indices(self.config.movies@),
            None => false,
        })
        &&& (!self.order_by_random_index.dirty ==> match self.order_by_random_index.idx {
            Some(v) => v@.to_multiset() == ident_seq(self.config.movies@.len() as int).to_multiset()
                && forall|k: int| 0 <= k < v@.len() ==> v@[k] < self.config.movies@.len(),
            None => false,
        })
    }

    /// Builds the store around a loaded snapshot; every ordering cache
    /// starts out dirty and unpopulated.
    pub fn new(config: Config) -> (r: Self)
        requires
            config.movies@.len() <= u32::MAX,
        ensures
            r.movies() == config.movies@,
            r.last_scan_time() == config.last_scan_time,
            !r.time_cache_valid(),
            !r.fav_cache_valid(),
            !r.random_cache_valid(),
    {
        let index_ref = identity_indices(config.movies.len());
        SimpleJsonDatabase {
            config,
            index_ref,
            order_by_fav_index: IndexCacheTable::default(),
            order_by_added_time_index: IndexCacheTable::default(),
            order_by_random_index: IndexCacheTable::default(),
        }
    }

    /// Replaces the snapshot wholesale with a freshly loaded one, marking
    /// every ordering cache dirty and rebuilding the reference list — or,
    /// when the load failed and nothing was handed in, keeps the previous
    /// snapshot and every cache untouched.
    pub fn reload(&mut self, loaded: Option<Config>)
        requires
            match loaded {
                Some(c) => c.movies@.len() <= u32::MAX,
                None => true,
            },
        ensures
            match loaded {
                Some(c) => {
                    &&& final(self).movies() == c.movies@
                    &&& final(self).last_scan_time() == c.last_scan_time
                    &&& !final(self).time_cache_valid()
                    &&& !final(self).fav_cache_valid()
                    &&& !final(self).random_cache_valid()
                },
                None => *final(self) == *old(self),
            },
    {
        match loaded {
            Some(c) => {
                *self = SimpleJsonDatabase::new(c);
            },
            None => {},
        }
    }

    /// How many records the snapshot holds.
    pub fn movie_count(&self) -> (n: usize)
        ensures
            n == self.movies().len(),
    {
        self.config.movies.len()
    }

    /// The record at one position of the snapshot, in discovery order.
    pub fn record_at(&self, i: usize) -> (r: Option<&MovieData>)
        ensures
            match r {
                Some(m) => i < self.movies().len() && *m == self.movies()[i as int],
                None => i >= self.movies().len(),
            },
    {
        if i < self.config.movies.len() {
            Some(&self.config.movies[i])
        } else {
            None
        }
    }

    /// The current snapshot, for the caller to persist; reading it changes
    /// nothing.
    pub fn snapshot(&self) -> (c: &Config)
        ensures
            c.movies@ == self.movies(),
            c.last_scan_time == self.last_scan_time(),
    {
        &self.config
    }

    /// Sets one record's favorite flag, leaving every other field and every
    /// other record as it was — `added_time` never changes after discovery.
    /// Conservatively marks every ordering cache dirty. Answers whether the
    /// position named a record.
    pub fn set_favorite(&mut self, i: usize, fav: bool) -> (ok: bool)
        ensures
            ok == (i < old(self).movies().len()),
            ok ==> {
                &&& final(self).movies().len() == old(self).movies().len()
                &&& final(self).movies()[i as int].fav == fav
                &&& final(self).movies()[i as int].path == old(self).movies()[i as int].path
                &&& final(self).movies()[i as int].movie == old(self).movies()[i as int].movie
                &&& final(self).movies()[i as int].added_time == old(self).movies()[
                    i as int
                ].added_time
                &&& forall|k: int|
                    0 <= k < old(self).movies().len() && k != i ==> final(self).movies()[k] == old(
                        self,
                    ).movies()[k]
                &&& final(self).last_scan_time() == old(self).last_scan_time()
                &&& !final(self).time_cache_valid()
                &&& !final(self).fav_cache_valid()
                &&& !final(self).random_cache_valid()
            },
            !ok ==> *final(self) == *old(self),
    {
        proof {
            use_type_invariant(&*self);
        }
        if i < self.config.movies.len() {
            self.order_by_fav_index.dirty = true;
            self.order_by_added_time_index.dirty = true;
            self.order_by_random_index.dirty = true;
            self.config.movies[i].fav = fav;
            true
        } else {
            false
        }
    }

    /// The by-added-time ordering: every record's position exactly once,
    /// sorted descending by `added_time`, records with equal `added_time`
    /// in their relative insertion order. Served from the cache while it is
    /// valid, recomputed from the live reference list otherwise.
    pub fn order_by_added_time<'a>(&'a mut self) -> (r: DatabaseSlice<'a>)
        ensures
            final(self).movies() == old(self).movies(),
            final(self).last_scan_time() == old(self).last_scan_time(),
            r.items() == old(self).movies(),
            r.pos() == 0,
            r.order().to_multiset() == ident_seq(old(self).movies().len() as int).to_multiset(),
            r.order().len() == old(self).movies().len(),
            time_ranked(old(self).movies(), r.order()),
            forall|k: int| 0 <= k < r.order().len() ==> r.order()[k] < old(self).movies().len(),
            old(self).time_cache_valid() ==> r.order() == old(self).time_cache(),
            final(self).time_cache_valid() && final(self).time_cache() == r.order(),
            final(self).fav_cache_valid() == old(self).fav_cache_valid(),
            final(self).random_cache_valid() == old(self).random_cache_valid(),
    {
        proof {
            use_type_invariant(&*self);
        }
        if self.order_by_added_time_index.dirty || self.order_by_added_time_index.idx.is_none() {
            let data = time_ordering(&self.config.movies);
            self.order_by_added_time_index = IndexCacheTable { idx: Some(data), dirty: false };
        }
        proof {
            use_type_invariant(&*self);
            lemma_reorder_len(self.time_cache(), self.config.movies@.len() as int);
        }
        let idx = self.order_by_added_time_index.idx.as_ref().unwrap();
        DatabaseSlice::new(self.config.movies.as_slice(), idx.as_slice())
    }

    /// The by-favorite ordering: exactly the positions of the records whose
    /// favorite flag is set, in their relative insertion order. Served from
    /// the cache while it is valid, recomputed otherwise.
    pub fn order_by_fav<'a>(&'a mut self) -> (r: DatabaseSlice<'a>)
        ensures
            final(self).movies() == old(self).movies(),
            final(self).last_scan_time() == old(self).last_scan_time(),
            r.items() == old(self).movies(),
            r.pos() == 0,
            r.order() == fav_indices(old(self).movies()),
            final(self).fav_cache_valid() && final(self).fav_cache() == r.order(),
            final(self).time_cache_valid() == old(self).time_cache_valid(),
            final(self).random_cache_valid() == old(self).random_cache_valid(),
    {
        proof {
            use_type_invariant(&*self);
        }
        if self.order_by_fav_index.dirty || self.order_by_fav_index.idx.is_none() {
            let data = collect_fav_indices(&self.config.movies);
            self.order_by_fav_index = IndexCacheTable { idx: Some(data), dirty: false };
        }
        let idx = self.order_by_fav_index.idx.as_ref().unwrap();
        DatabaseSlice::new(self.config.movies.as_slice(), idx.as_slice())
    }

    /// The by-random ordering: every record's position exactly once, in an
    /// order drawn from `seed` when the cache is rebuilt. While the cache is
    /// valid the stored permutation is served unchanged — no reshuffle, and
    /// the seed goes unused.
    pub fn order_by_random<'a>(&'a mut self, seed: u64) -> (r: DatabaseSlice<'a>)
        ensures
            final(self).movies() == old(self).movies(),
            final(self).last_scan_time() == old(self).last_scan_time(),
            r.items() == old(self).movies(),
            r.pos() == 0,
            r.order().to_multiset() == ident_seq(old(self).movies().len() as int).to_multiset(),
            r.order().len() == old(self).movies().len(),
            forall|k: int| 0 <= k < r.order().len() ==> r.order()[k] < old(self).movies().len(),
            old(self).random_cache_valid() ==> r.order() == old(self).random_cache(),
            final(self).random_cache_valid() && final(self).random_cache() == r.order(),
            final(self).time_cache_valid() == old(self).time_cache_valid(),
            final(self).fav_cache_valid() == old(self).fav_cache_valid(),
    {
        proof {
            use_type_invariant(&*self);
        }
        if self.order_by_random_index.dirty || self.order_by_random_index.idx.is_none() {
            let idx = identity_indices(self.config.movies.len());
            let data = shuffle_indices(idx, seed);
            proof {
                lemma_reorder_bounds(data@, self.config.movies@.len() as int);
            }
            self.order_by_random_index = IndexCacheTable { idx: Some(data), dirty: false };
        }
        proof {
            use_type_invariant(&*self);
            lemma_reorder_len(self.random_cache(), self.config.movies@.len() as int);
        }
        let idx = self.order_by_random_index.idx.as_ref().unwrap();
        DatabaseSlice::new(self.config.movies.as_slice(), idx.as_slice())
    }
}

/// A fresh, empty catalog store: no records, no completed scan, every cache
/// dirty.
pub fn init() -> (r: SimpleJsonDatabase)
    ensures
        r.movies() == Seq::<MovieData>::empty(),
        r.last_scan_time() == 0,
        !r.time_cache_valid(),
        !r.fav_cache_valid(),
        !r.random_cache_valid(),
{
    SimpleJsonDatabase::new(Config::default())
}

impl SimpleJsonDatabase {
    /// The dirty bit tells the truth: an ordering cache whose dirty bit is
    /// clear holds exactly its ordering of the records the snapshot holds
    /// now, never one computed against an older snapshot. Calling this
    /// computes nothing; it hands the caller that standing fact.
    pub fn cache_coherence(&self)
        ensures
            self.time_cache_valid() ==> self.time_cache().to_multiset() == ident_seq(
                self.movies().len() as int,
            ).to_multiset() && time_ranked(self.movies(), self.time_cache()),
            self.fav_cache_valid() ==> self.fav_cache() == fav_indices(self.movies()),
            self.random_cache_valid() ==> self.random_cache().to_multiset() == ident_seq(
                self.movies().len() as int,
            ).to_multiset(),
    {
        proof {
            use_type_invariant(&*self);
        }
    }
}

} // verus!
