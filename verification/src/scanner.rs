//! The incremental scanner's decisions.
//!
//! Walking the directory tree is the surrounding application's work; it
//! feeds every directory entry it sees into a [`ScanState`], which decides
//! whether the entry is a newly discovered descriptor, a directory worth
//! descending into, or nothing, and keeps the walk's book: the directories
//! still to visit and the descriptor paths found so far.
//!
//! An entry is a discovery when its modification time is newer than the
//! last scan, it is a file named after its directory with the descriptor
//! extension, and its path is not yet known to the catalog.

use vstd::prelude::*;
use ahash::AHashSet;
use crate::order::{ident_seq, identity_indices, ranked, sort_by_keys};
use crate::paths::{known_paths, known_paths_contains};

verus! {

/// What one directory entry looks like to the scanner: plain values read
/// off the filesystem by the caller. `dir_name` is the name of the entry's
/// parent directory; `mtime` is absent when the entry's metadata or
/// modification time cannot be read.
pub struct ScanEntry {
    pub path: String,
    pub file_name: String,
    pub dir_name: String,
    pub is_file: bool,
    pub is_dir: bool,
    pub mtime: Option<u64>,
}

/// The scanner's verdict on one directory entry.
#[derive(Clone, Copy, Debug, PartialEq, Eq, Structural)]
pub enum ScanAction {
    /// Not a new descriptor and not worth descending into.
    Skip,
    /// A newly discovered descriptor file.
    Collect,
    /// A recently modified directory: its children must be visited.
    Descend,
}

/// `p` is a prefix of `s`.
pub open spec fn seq_starts_with(s: Seq<char>, p: Seq<char>) -> bool {
    p.len() <= s.len() && s.subrange(0, p.len() as int) == p
}

/// `p` is a suffix of `s`.
pub open spec fn seq_ends_with(s: Seq<char>, p: Seq<char>) -> bool {
    p.len() <= s.len() && s.subrange(s.len() - p.len(), s.len() as int) == p
}

/// A file name in the descriptor format: the descriptor extension behind a
/// nonempty stem.
pub open spec fn descriptor_name(name: Seq<char>) -> bool {
    name.len() > ".nfo"@.len() && seq_ends_with(name, ".nfo"@)
}

pub fn str_starts_with(s: &str, p: &str) -> (r: bool)
    ensures
        r == seq_starts_with(s@, p@),
{
    let sl = s.unicode_len();
    let pl = p.unicode_len();
    if pl > sl {
        return false;
    }
    let mut i: usize = 0;
    while i < pl
        invariant
            i <= pl,
            pl == p@.len(),
            pl <= sl == s@.len(),
            forall|k: int| 0 <= k < i ==> s@[k] == p@[k],
        decreases pl - i,
    {
        if s.get_char(i) != p.get_char(i) {
            proof {
                assert(s@.subrange(0, p@.len() as int)[i as int] == s@[i as int]);
            }
            return false;
        }
        i = i + 1;
    }
    proof {
        assert(s@.subrange(0, p@.len() as int) =~= p@);
    }
    true
}

pub fn str_ends_with(s: &str, p: &str) -> (r: bool)
    ensures
        r == seq_ends_with(s@, p@),
{
    let sl = s.unicode_len();
    let pl = p.unicode_len();
    if pl > sl {
        return false;
    }
    let d = sl - pl;
    let mut i: usize = 0;
    while i < pl
        invariant
            i <= pl,
            pl == p@.len(),
            pl <= sl == s@.len(),
            d == sl - pl,
            forall|k: int| 0 <= k < i ==> s@[d + k] == p@[k],
        decreases pl - i,
    {
        if s.get_char(d + i) != p.get_char(i) {
            proof {
                assert(s@.subrange(s@.len() - p@.len(), s@.len() as int)[i as int] == s@[
                    d + i
                ]);
            }
            return false;
        }
        i = i + 1;
    }
    proof {
        assert(s@.subrange(s@.len() - p@.len(), s@.len() as int) =~= p@);
    }
    true
}

pub fn is_descriptor_name(name: &str) -> (r: bool)
    ensures
        r == descriptor_name(name@),
{
    proof {
        reveal_strlit(".nfo");
    }
    name.unicode_len() > 4 && str_ends_with(name, ".nfo")
}

/// The scanner's rule, as a value: skip anything whose modification time is
/// unreadable or no newer than the last scan; collect a not-yet-known file
/// named after its directory with the descriptor extension; descend into a
/// directory; skip the rest.
pub open spec fn spec_classify(e: ScanEntry, last_scan_time: u64, known: Set<Seq<char>>) -> ScanAction {
    match e.mtime {
        None => ScanAction::Skip,
        Some(m) => {
            if m <= last_scan_time {
                ScanAction::Skip
            } else if e.is_file && seq_starts_with(e.file_name@, e.dir_name@) && descriptor_name(
                e.file_name@,
            ) && !known.contains(e.path@) {
                ScanAction::Collect
            } else if e.is_dir {
                ScanAction::Descend
            } else {
                ScanAction::Skip
            }
        },
    }
}

pub fn classify_entry(e: &ScanEntry, last_scan_time: u64, known: &AHashSet<String>) -> (r:
    ScanAction)
    ensures
        r == spec_classify(*e, last_scan_time, known_paths(*known)),
{
    match e.mtime {
        None => ScanAction::Skip,
        Some(m) => {
            if m <= last_scan_time {
                ScanAction::Skip
            } else if e.is_file && str_starts_with(e.file_name.as_str(), e.dir_name.as_str())
                && is_descriptor_name(e.file_name.as_str()) && !known_paths_contains(
                known,
                &e.path,
            ) {
                ScanAction::Collect
            } else if e.is_dir {
                ScanAction::Descend
            } else {
                ScanAction::Skip
            }
        },
    }
}

/// An already-known path is never collected again, whatever else the entry
/// looks like: the scanner cannot re-surface a record the catalog holds.
pub proof fn lemma_known_never_collected(e: ScanEntry, last_scan_time: u64, known: Set<Seq<char>>)
    requires
        known.contains(e.path@),
    ensures
        spec_classify(e, last_scan_time, known) != ScanAction::Collect,
{
}

/// An entry no newer than the last scan is always skipped: an unchanged
/// directory tree yields no discoveries.
pub proof fn lemma_unchanged_entry_skipped(e: ScanEntry, last_scan_time: u64, known: Set<Seq<char>>)
    requires
        match e.mtime {
            Some(m) => m <= last_scan_time,
            None => true,
        },
    ensures
        spec_classify(e, last_scan_time, known) == ScanAction::Skip,
{
}

/// One walk's book-keeping: the directories still to visit and the
/// descriptor paths discovered so far, in discovery order.
pub struct ScanState {
    pub pending: Vec<String>,
    pub found: Vec<String>,
}

impl ScanState {
    /// Starts a walk at the library root.
    pub fn new(root: String) -> (s: Self)
        ensures
            s.pending@ == seq![root],
            s.found@ == Seq::<String>::empty(),
    {
        let mut pending: Vec<String> = Vec::new();
        pending.push(root);
        proof {
            assert(pending@ =~= seq![root]);
        }
        ScanState { pending, found: Vec::new() }
    }

    /// Hands out the next directory to list, if any is left.
    pub fn next_dir(&mut self) -> (r: Option<String>)
        ensures
            match r {
                Some(d) => old(self).pending@.len() > 0 && d == old(self).pending@.last()
                    && final(self).pending@ == old(self).pending@.drop_last(),
                None => old(self).pending@.len() == 0 && final(self).pending@ == old(self).pending@,
            },
            final(self).found@ == old(self).found@,
    {
        self.pending.pop()
    }

    /// Accounts one directory entry: a collected descriptor path joins the
    /// discoveries, a directory to descend into joins the queue, and a
    /// skipped entry changes nothing.
    pub fn on_entry(&mut self, e: ScanEntry, last_scan_time: u64, known: &AHashSet<String>)
        ensures
            spec_classify(e, last_scan_time, known_paths(*known)) == ScanAction::Collect ==> (
            final(self).found@ == old(self).found@ + seq![e.path] && final(self).pending@
                == old(self).pending@),
            spec_classify(e, last_scan_time, known_paths(*known)) == ScanAction::Descend ==> (
            final(self).pending@ == old(self).pending@ + seq![e.path] && final(self).found@
                == old(self).found@),
            spec_classify(e, last_scan_time, known_paths(*known)) == ScanAction::Skip ==> (
            final(self).found@ == old(self).found@ && final(self).pending@
                == old(self).pending@),
    {
        let action = classify_entry(&e, last_scan_time, known);
        match action {
            ScanAction::Collect => {
                self.found.push(e.path);
                proof {
                    assert(self.found@ =~= old(self).found@ + seq![e.path]);
                }
            },
            ScanAction::Descend => {
                self.pending.push(e.path);
                proof {
                    assert(self.pending@ =~= old(self).pending@ + seq![e.path]);
                }
            },
            ScanAction::Skip => {},
        }
    }

    /// Ends the walk, handing back the discovered descriptor paths in
    /// discovery order.
    pub fn into_found(self) -> (r: Vec<String>)
        ensures
            r@ == self.found@,
    {
        self.found
    }
}

/// The order in which one directory's entries are visited: entry positions
/// sorted ascending by each entry's placement key (a low-level filesystem
/// placement identifier, or a constant where none can be read), entries
/// with equal keys in listing order.
pub fn placement_order(keys: &Vec<u64>) -> (r: Vec<u32>)
    requires
        keys@.len() <= u32::MAX,
    ensures
        r@.to_multiset() == ident_seq(keys@.len() as int).to_multiset(),
        r@.len() == keys@.len(),
        ranked(keys@, r@),
        forall|k: int| 0 <= k < r@.len() ==> r@[k] < keys@.len(),
{
    let idx = identity_indices(keys.len());
    sort_by_keys(keys, idx)
}

} // verus!
