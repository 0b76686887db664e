use kr::init;
use kr::nfo::load_movie_from_nfo;
use kr::order::{collect_fav_indices, identity_indices, shuffle_indices, sort_by_keys, time_ordering};
use kr::paths::{known_paths_contains, known_paths_insert, known_paths_new, known_paths_of_movies};
use kr::record::{Actor, Movie, MovieData};
use kr::scanner::{
    classify_entry, is_descriptor_name, placement_order, str_ends_with, str_starts_with,
    ScanAction, ScanEntry, ScanState,
};
use kr::store::{Config, DatabaseSlice, IndexCacheTable, SimpleJsonDatabase};

fn movie(title: &str) -> Movie {
    Movie {
        title: title.to_string(),
        outline: None,
        poster: None,
        thumb: None,
        fanart: None,
        label: None,
        actor: Vec::new(),
        tag: None,
        genre: None,
        num: None,
        releasedate: None,
        cover: None,
        website: None,
    }
}

fn record(path: &str, title: &str, added_time: u64, fav: bool) -> MovieData {
    MovieData { path: path.to_string(), movie: movie(title), added_time, fav }
}

fn config(records: Vec<MovieData>, last_scan_time: u64) -> Config {
    Config { movies: records, last_scan_time }
}

fn drain_paths(mut s: DatabaseSlice<'_>) -> Vec<String> {
    let mut out = Vec::new();
    while let Some(rec) = s.next() {
        out.push(rec.path.clone());
    }
    out
}

fn entry(path: &str, file_name: &str, dir_name: &str, is_file: bool, mtime: Option<u64>) -> ScanEntry {
    ScanEntry {
        path: path.to_string(),
        file_name: file_name.to_string(),
        dir_name: dir_name.to_string(),
        is_file,
        is_dir: !is_file,
        mtime,
    }
}

#[test]
fn init_is_empty() {
    let db = init();
    assert_eq!(db.movie_count(), 0);
}

#[test]
fn defaults_are_empty_and_dirty() {
    let c = Config::default();
    assert_eq!(c.movies.len(), 0);
    assert_eq!(c.last_scan_time, 0);
    let t = IndexCacheTable::default();
    assert!(t.idx.is_none());
    assert!(t.dirty);
}

#[test]
fn order_by_added_time_sorts_descending() {
    let mut db = SimpleJsonDatabase::new(config(
        vec![
            record("/a", "A", 10, false),
            record("/b", "B", 30, false),
            record("/c", "C", 20, false),
        ],
        0,
    ));
    let paths = drain_paths(db.order_by_added_time());
    assert_eq!(paths, vec!["/b".to_string(), "/c".to_string(), "/a".to_string()]);
}

#[test]
fn equal_added_times_keep_insertion_order() {
    let mut db = SimpleJsonDatabase::new(config(
        vec![
            record("/x", "X", 7, false),
            record("/y", "Y", 7, false),
            record("/z", "Z", 9, false),
        ],
        0,
    ));
    let paths = drain_paths(db.order_by_added_time());
    // Z is newest; X and Y share a timestamp and stay in insertion order.
    assert_eq!(paths, vec!["/z".to_string(), "/x".to_string(), "/y".to_string()]);
}

#[test]
fn order_by_fav_selects_subsequence() {
    let mut db = SimpleJsonDatabase::new(config(
        vec![
            record("/a", "A", 1, true),
            record("/b", "B", 2, false),
            record("/c", "C", 3, true),
            record("/d", "D", 4, false),
        ],
        0,
    ));
    let paths = drain_paths(db.order_by_fav());
    assert_eq!(paths, vec!["/a".to_string(), "/c".to_string()]);
}

#[test]
fn set_favorite_invalidates_fav_cache() {
    let mut db = SimpleJsonDatabase::new(config(
        vec![record("/a", "A", 1, false), record("/b", "B", 2, false)],
        0,
    ));
    assert_eq!(drain_paths(db.order_by_fav()).len(), 0);
    assert!(db.set_favorite(1, true));
    let paths = drain_paths(db.order_by_fav());
    assert_eq!(paths, vec!["/b".to_string()]);
    assert!(db.set_favorite(1, false));
    assert_eq!(drain_paths(db.order_by_fav()).len(), 0);
}

#[test]
fn set_favorite_out_of_range_changes_nothing() {
    let mut db = SimpleJsonDatabase::new(config(vec![record("/a", "A", 1, false)], 0));
    assert!(!db.set_favorite(5, true));
    assert_eq!(drain_paths(db.order_by_fav()).len(), 0);
}

#[test]
fn order_by_random_is_a_permutation() {
    let mut db = SimpleJsonDatabase::new(config(
        vec![
            record("/a", "A", 1, false),
            record("/b", "B", 2, false),
            record("/c", "C", 3, false),
            record("/d", "D", 4, false),
            record("/e", "E", 5, false),
        ],
        0,
    ));
    let mut paths = drain_paths(db.order_by_random(42));
    assert_eq!(paths.len(), 5);
    paths.sort();
    assert_eq!(
        paths,
        vec!["/a".to_string(), "/b".to_string(), "/c".to_string(), "/d".to_string(), "/e".to_string()]
    );
}

#[test]
fn order_by_random_is_cached_until_invalidated() {
    let mut db = SimpleJsonDatabase::new(config(
        vec![
            record("/a", "A", 1, false),
            record("/b", "B", 2, false),
            record("/c", "C", 3, false),
            record("/d", "D", 4, false),
        ],
        0,
    ));
    let first = drain_paths(db.order_by_random(1));
    // A different seed must not reshuffle while the cache is valid.
    let second = drain_paths(db.order_by_random(999));
    assert_eq!(first, second);
}

#[test]
fn reload_replaces_snapshot_and_invalidates_orderings() {
    let mut db = SimpleJsonDatabase::new(config(
        vec![record("/a", "A", 1, false), record("/b", "B", 2, false)],
        5,
    ));
    assert_eq!(drain_paths(db.order_by_added_time()).len(), 2);
    let _ = db.order_by_random(7);
    db.reload(Some(config(
        vec![
            record("/a", "A", 1, false),
            record("/b", "B", 2, false),
            record("/n", "N", 9, true),
        ],
        6,
    )));
    assert_eq!(db.movie_count(), 3);
    // every ordering reflects the new snapshot, none serves a stale cache
    let paths = drain_paths(db.order_by_added_time());
    assert_eq!(paths, vec!["/n".to_string(), "/b".to_string(), "/a".to_string()]);
    let favs = drain_paths(db.order_by_fav());
    assert_eq!(favs, vec!["/n".to_string()]);
    assert_eq!(drain_paths(db.order_by_random(7)).len(), 3);
}

#[test]
fn reload_with_nothing_keeps_previous_snapshot() {
    let mut db = SimpleJsonDatabase::new(config(vec![record("/a", "A", 1, true)], 5));
    db.reload(None);
    assert_eq!(db.movie_count(), 1);
    let favs = drain_paths(db.order_by_fav());
    assert_eq!(favs, vec!["/a".to_string()]);
}

#[test]
fn record_at_and_count() {
    let db = SimpleJsonDatabase::new(config(
        vec![record("/a", "A", 1, false), record("/b", "B", 2, true)],
        0,
    ));
    assert_eq!(db.movie_count(), 2);
    assert_eq!(db.record_at(0).unwrap().path.as_str(), "/a");
    assert_eq!(db.record_at(1).unwrap().movie.title.as_str(), "B");
    assert!(db.record_at(2).is_none());
}

#[test]
fn snapshot_exposes_config() {
    let db = SimpleJsonDatabase::new(config(vec![record("/a", "A", 1, false)], 44));
    let c = db.snapshot();
    assert_eq!(c.movies.len(), 1);
    assert_eq!(c.last_scan_time, 44);
}

#[test]
fn database_slice_skips_out_of_range_positions() {
    let items = vec![record("/a", "A", 1, false), record("/b", "B", 2, false)];
    let index: Vec<u32> = vec![1, 7, 0];
    let mut s = DatabaseSlice::new(items.as_slice(), index.as_slice());
    assert_eq!(s.next().unwrap().path.as_str(), "/b");
    assert!(s.next().is_none()); // position 7 names no record
    assert_eq!(s.next().unwrap().path.as_str(), "/a");
    assert!(s.next().is_none()); // exhausted
    assert!(s.next().is_none()); // and stays exhausted
}

#[test]
fn ingest_appends_parsed_descriptors() {
    // a library of three directories with one valid descriptor each
    let mut c = Config::default();
    c.ingest_descriptors(
        vec![
            ("/lib/A/A.nfo".to_string(), "<movie><title>A</title></movie>".to_string()),
            ("/lib/B/B.nfo".to_string(), "<movie><title>B</title></movie>".to_string()),
            ("/lib/C/C.nfo".to_string(), "<movie><title>C</title></movie>".to_string()),
        ],
        100,
        101,
    );
    assert_eq!(c.movies.len(), 3);
    for rec in &c.movies {
        assert!(!rec.fav);
        assert_eq!(rec.added_time, 100);
    }
    assert_eq!(c.movies[0].movie.title.as_str(), "A");
    assert_eq!(c.movies[2].path.as_str(), "/lib/C/C.nfo");
    assert_eq!(c.last_scan_time, 101);
}

#[test]
fn ingest_skips_malformed_descriptor() {
    // the malformed descriptor is skipped; the scan completes
    let mut c = Config::default();
    c.ingest_descriptors(
        vec![
            ("/lib/C/C.nfo".to_string(), "<movie><title>bad".to_string()),
            ("/lib/D/D.nfo".to_string(), "<movie><title>D</title></movie>".to_string()),
        ],
        10,
        11,
    );
    assert_eq!(c.movies.len(), 1);
    assert_eq!(c.movies[0].path.as_str(), "/lib/D/D.nfo");
}

#[test]
fn ingest_nothing_changes_nothing() {
    let mut c = config(vec![record("/a", "A", 1, true)], 5);
    c.ingest_descriptors(Vec::new(), 20, 21);
    assert_eq!(c.movies.len(), 1);
    assert_eq!(c.movies[0].path.as_str(), "/a");
    assert!(c.movies[0].fav);
    assert_eq!(c.last_scan_time, 21);
}

#[test]
fn rescan_without_changes_is_idempotent() {
    // first scan discovers two descriptors
    let mut c = Config::default();
    let known = known_paths_of_movies(&c.movies);
    let e1 = entry("/lib/A/A.nfo", "A.nfo", "A", true, Some(50));
    let e2 = entry("/lib/B/B.nfo", "B.nfo", "B", true, Some(60));
    assert_eq!(classify_entry(&e1, 0, &known), ScanAction::Collect);
    assert_eq!(classify_entry(&e2, 0, &known), ScanAction::Collect);
    c.ingest_descriptors(
        vec![
            ("/lib/A/A.nfo".to_string(), "<movie><title>A</title></movie>".to_string()),
            ("/lib/B/B.nfo".to_string(), "<movie><title>B</title></movie>".to_string()),
        ],
        70,
        70,
    );
    assert_eq!(c.movies.len(), 2);
    // a rescan with no filesystem changes: both entries are gated out by the
    // scan time, and would be known even if they were not
    let known = known_paths_of_movies(&c.movies);
    assert_eq!(classify_entry(&e1, c.last_scan_time, &known), ScanAction::Skip);
    assert_eq!(classify_entry(&e2, c.last_scan_time, &known), ScanAction::Skip);
    let touched = entry("/lib/A/A.nfo", "A.nfo", "A", true, Some(99));
    assert_eq!(classify_entry(&touched, c.last_scan_time, &known), ScanAction::Skip);
    c.ingest_descriptors(Vec::new(), 80, 80);
    assert_eq!(c.movies.len(), 2);
    assert_eq!(c.movies[0].path.as_str(), "/lib/A/A.nfo");
    assert_eq!(c.movies[1].path.as_str(), "/lib/B/B.nfo");
}

#[test]
fn scan_walk_collects_only_descriptors() {
    // root holds /A with a valid descriptor and /B with a stray text file
    let known = known_paths_new();
    let mut walk = ScanState::new("/lib".to_string());
    let root = walk.next_dir().unwrap();
    assert_eq!(root.as_str(), "/lib");
    walk.on_entry(entry("/lib/A", "A", "lib", false, Some(10)), 5, &known);
    walk.on_entry(entry("/lib/B", "B", "lib", false, Some(10)), 5, &known);
    let next = walk.next_dir().unwrap();
    assert_eq!(next.as_str(), "/lib/B");
    walk.on_entry(entry("/lib/B/readme.txt", "readme.txt", "B", true, Some(10)), 5, &known);
    let next = walk.next_dir().unwrap();
    assert_eq!(next.as_str(), "/lib/A");
    walk.on_entry(entry("/lib/A/A.nfo", "A.nfo", "A", true, Some(10)), 5, &known);
    assert!(walk.next_dir().is_none());
    let found = walk.into_found();
    assert_eq!(found, vec!["/lib/A/A.nfo".to_string()]);

    // feeding the discoveries through the loader: exactly one record
    let mut c = Config::default();
    c.ingest_descriptors(
        vec![("/lib/A/A.nfo".to_string(), "<movie><title>Film A</title></movie>".to_string())],
        10,
        11,
    );
    assert_eq!(c.movies.len(), 1);
    assert_eq!(c.movies[0].path.as_str(), "/lib/A/A.nfo");
    assert_eq!(c.movies[0].movie.title.as_str(), "Film A");
}

#[test]
fn scanner_gates_by_modification_time() {
    let known = known_paths_new();
    let stale = entry("/lib/A/A.nfo", "A.nfo", "A", true, Some(5));
    assert_eq!(classify_entry(&stale, 5, &known), ScanAction::Skip);
    let unreadable = entry("/lib/A/A.nfo", "A.nfo", "A", true, None);
    assert_eq!(classify_entry(&unreadable, 5, &known), ScanAction::Skip);
    let fresh = entry("/lib/A/A.nfo", "A.nfo", "A", true, Some(6));
    assert_eq!(classify_entry(&fresh, 5, &known), ScanAction::Collect);
}

#[test]
fn scanner_requires_descriptor_shape() {
    let known = known_paths_new();
    // wrong extension
    let txt = entry("/lib/A/readme.txt", "readme.txt", "A", true, Some(9));
    assert_eq!(classify_entry(&txt, 0, &known), ScanAction::Skip);
    // not named after its directory
    let misnamed = entry("/lib/A/B.nfo", "B.nfo", "A", true, Some(9));
    assert_eq!(classify_entry(&misnamed, 0, &known), ScanAction::Skip);
    // extension with an empty stem
    let bare = entry("/lib/A/.nfo", ".nfo", "A", true, Some(9));
    assert_eq!(classify_entry(&bare, 0, &known), ScanAction::Skip);
    // a directory descends instead
    let dir = entry("/lib/A", "A", "lib", false, Some(9));
    assert_eq!(classify_entry(&dir, 0, &known), ScanAction::Descend);
}

#[test]
fn scanner_never_resurfaces_known_paths() {
    let mut known = known_paths_new();
    let e = entry("/lib/A/A.nfo", "A.nfo", "A", true, Some(9));
    assert_eq!(classify_entry(&e, 0, &known), ScanAction::Collect);
    known_paths_insert(&mut known, "/lib/A/A.nfo".to_string());
    assert!(known_paths_contains(&known, &"/lib/A/A.nfo".to_string()));
    assert!(!known_paths_contains(&known, &"/lib/B/B.nfo".to_string()));
    assert_eq!(classify_entry(&e, 0, &known), ScanAction::Skip);
}

#[test]
fn known_paths_come_from_records() {
    let movies = vec![record("/a", "A", 1, false), record("/b", "B", 2, false)];
    let known = known_paths_of_movies(&movies);
    assert!(known_paths_contains(&known, &"/a".to_string()));
    assert!(known_paths_contains(&known, &"/b".to_string()));
    assert!(!known_paths_contains(&known, &"/c".to_string()));
}

#[test]
fn placement_order_sorts_by_key_with_stable_ties() {
    let keys: Vec<u64> = vec![5, 1, 5, 0];
    let order = placement_order(&keys);
    assert_eq!(order, vec![3u32, 1, 0, 2]);
    let empty: Vec<u64> = Vec::new();
    assert_eq!(placement_order(&empty).len(), 0);
}

#[test]
fn sort_by_keys_is_stable() {
    let keys: Vec<u64> = vec![2, 2, 1];
    let idx: Vec<u32> = vec![0, 1, 2];
    assert_eq!(sort_by_keys(&keys, idx), vec![2u32, 0, 1]);
}

#[test]
fn time_ordering_prefers_newest() {
    let movies = vec![
        record("/a", "A", 100, false),
        record("/b", "B", 300, false),
        record("/c", "C", 200, false),
    ];
    assert_eq!(time_ordering(&movies), vec![1u32, 2, 0]);
}

#[test]
fn fav_indices_match_flags() {
    let movies = vec![
        record("/a", "A", 1, true),
        record("/b", "B", 2, false),
        record("/c", "C", 3, true),
    ];
    assert_eq!(collect_fav_indices(&movies), vec![0u32, 2]);
}

#[test]
fn shuffle_keeps_every_position() {
    let idx = identity_indices(6);
    let mut shuffled = shuffle_indices(idx, 1234);
    assert_eq!(shuffled.len(), 6);
    shuffled.sort();
    assert_eq!(shuffled, vec![0u32, 1, 2, 3, 4, 5]);
}

#[test]
fn string_helpers_match_their_names() {
    assert!(str_starts_with("A.nfo", "A"));
    assert!(!str_starts_with("B.nfo", "A"));
    assert!(str_starts_with("anything", ""));
    assert!(str_ends_with("A.nfo", ".nfo"));
    assert!(!str_ends_with("A.nf", ".nfo"));
    assert!(is_descriptor_name("A.nfo"));
    assert!(!is_descriptor_name(".nfo"));
    assert!(!is_descriptor_name("A.txt"));
}

#[test]
fn favorite_mutation_keeps_added_time() {
    let mut db = SimpleJsonDatabase::new(config(vec![record("/a", "A", 123, false)], 0));
    assert!(db.set_favorite(0, true));
    let rec = db.record_at(0).unwrap();
    assert_eq!(rec.added_time, 123);
    assert!(rec.fav);
    assert_eq!(rec.movie.title.as_str(), "A");
}

#[test]
fn actor_type_round_trip() {
    let a = Actor { name: "N".to_string(), role: Some("R".to_string()), thumb: None };
    assert_eq!(a.name.as_str(), "N");
    assert_eq!(a.role.as_deref(), Some("R"));
}
