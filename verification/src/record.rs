//! The data model of the catalog: one movie record per descriptor file.
//!
//! The executable types hold `String` and `Vec` fields; each has a `deep`
//! spec view built from `Seq<char>`, so that contracts can speak about the
//! contents of freshly built strings (a `String` value itself is opaque to
//! the verifier, its view is not).

use vstd::prelude::*;

verus! {

/// One credited performer of a movie.
#[derive(Clone, Debug)]
pub struct Actor {
    pub name: String,
    pub role: Option<String>,
    pub thumb: Option<String>,
}

/// The metadata of one movie, as read from its descriptor file.
/// Only `title` is mandatory; every other field defaults to absent.
#[derive(Clone, Debug)]
pub struct Movie {
    pub title: String,
    pub outline: Option<String>,
    pub poster: Option<String>,
    pub thumb: Option<String>,
    pub fanart: Option<String>,
    pub label: Option<String>,
    pub actor: Vec<Actor>,
    pub tag: Option<Vec<String>>,
    pub genre: Option<Vec<String>>,
    pub num: Option<String>,
    pub releasedate: Option<String>,
    pub cover: Option<String>,
    pub website: Option<String>,
}

/// One catalog record: a movie plus its bookkeeping.
/// `path` is the record's unique key (the descriptor file's location);
/// `added_time` is stamped once, at first discovery, and never changes.
#[derive(Clone)]
pub struct MovieData {
    pub path: String,
    pub movie: Movie,
    pub added_time: u64,
    pub fav: bool,
}

/// Spec-level image of `Actor`.
#[verifier::ext_equal]
pub struct ActorModel {
    pub name: Seq<char>,
    pub role: Option<Seq<char>>,
    pub thumb: Option<Seq<char>>,
}

/// Spec-level image of `Movie`.
#[verifier::ext_equal]
pub struct MovieModel {
    pub title: Seq<char>,
    pub outline: Option<Seq<char>>,
    pub poster: Option<Seq<char>>,
    pub thumb: Option<Seq<char>>,
    pub fanart: Option<Seq<char>>,
    pub label: Option<Seq<char>>,
    pub actor: Seq<ActorModel>,
    pub tag: Option<Seq<Seq<char>>>,
    pub genre: Option<Seq<Seq<char>>>,
    pub num: Option<Seq<char>>,
    pub releasedate: Option<Seq<char>>,
    pub cover: Option<Seq<char>>,
    pub website: Option<Seq<char>>,
}

/// Spec-level image of `MovieData`.
#[verifier::ext_equal]
pub struct MovieDataModel {
    pub path: Seq<char>,
    pub movie: MovieModel,
    pub added_time: u64,
    pub fav: bool,
}

pub open spec fn opt_view(o: Option<String>) -> Option<Seq<char>> {
    match o {
        Some(s) => Some(s@),
        None => None,
    }
}

pub open spec fn opt_list_view(o: Option<Vec<String>>) -> Option<Seq<Seq<char>>> {
    match o {
        Some(v) => Some(v@.map_values(|s: String| s@)),
        None => None,
    }
}

impl Actor {
    pub open spec fn deep(self) -> ActorModel {
        ActorModel {
            name: self.name@,
            role: opt_view(self.role),
            thumb: opt_view(self.thumb),
        }
    }
}

impl Movie {
    pub open spec fn deep(self) -> MovieModel {
        MovieModel {
            title: self.title@,
            outline: opt_view(self.outline),
            poster: opt_view(self.poster),
            thumb: opt_view(self.thumb),
            fanart: opt_view(self.fanart),
            label: opt_view(self.label),
            actor: self.actor@.map_values(|a: Actor| a.deep()),
            tag: opt_list_view(self.tag),
            genre: opt_list_view(self.genre),
            num: opt_view(self.num),
            releasedate: opt_view(self.releasedate),
            cover: opt_view(self.cover),
            website: opt_view(self.website),
        }
    }
}

impl MovieData {
    pub open spec fn deep(self) -> MovieDataModel {
        MovieDataModel {
            path: self.path@,
            movie: self.movie.deep(),
            added_time: self.added_time,
            fav: self.fav,
        }
    }
}

/// Builds the record for a newly discovered descriptor: the favorite flag
/// starts cleared and `added_time` is the timestamp handed in by the caller
/// (the start of the scan that discovered the descriptor).
pub fn make_record(path: String, movie: Movie, added_time: u64) -> (r: MovieData)
    ensures
        r.path == path,
        r.movie == movie,
        r.added_time == added_time,
        r.fav == false,
{
    MovieData { path, movie, added_time, fav: false }
}

} // verus!
