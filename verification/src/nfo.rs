//! The metadata loader: parses one descriptor document into a movie record.
//!
//! A descriptor is a small markup document: optional whitespace, a `<movie>`
//! root element, then child elements, each either a scalar field — an open
//! tag, raw text up to the next `<`, and the matching close tag — or an
//! `<actor>` element holding scalar `name`, `role` and `thumb` children.
//! Tag names are lowercase letters. `tag` and `genre` children may repeat
//! and collect into lists; a repeated scalar field overwrites the earlier
//! value; an unknown child name, unbalanced markup, stray trailing text, or
//! a missing mandatory `title` make the document malformed.
//!
//! `spec_parse_movie` states the whole grammar; the executable parser
//! returns a movie exactly when that spec function does, and a malformed
//! document yields nothing rather than an error or a panic.

use vstd::prelude::*;
use crate::record::{Actor, ActorModel, Movie, MovieData, MovieModel, opt_list_view};

verus! {

/// Whitespace between elements.
pub open spec fn is_ws_char(c: char) -> bool {
    c == ' ' || c == '\n' || c == '\r' || c == '\t'
}

/// A character allowed in a tag name.
pub open spec fn is_name_char(c: char) -> bool {
    'a' <= c && c <= 'z'
}

/// The first position at or after `i` that does not hold whitespace.
pub open spec fn ws_end(s: Seq<char>, i: int) -> int
    recommends
        0 <= i <= s.len(),
    decreases s.len() - i
        when 0 <= i <= s.len()
{
    if i < s.len() && is_ws_char(s[i]) {
        ws_end(s, i + 1)
    } else {
        i
    }
}

/// The first position at or after `i` that does not hold a name character.
pub open spec fn name_end(s: Seq<char>, i: int) -> int
    recommends
        0 <= i <= s.len(),
    decreases s.len() - i
        when 0 <= i <= s.len()
{
    if i < s.len() && is_name_char(s[i]) {
        name_end(s, i + 1)
    } else {
        i
    }
}

/// The first position at or after `i` that opens a tag.
pub open spec fn text_end(s: Seq<char>, i: int) -> int
    recommends
        0 <= i <= s.len(),
    decreases s.len() - i
        when 0 <= i <= s.len()
{
    if i < s.len() && s[i] != '<' {
        text_end(s, i + 1)
    } else {
        i
    }
}

fn is_ws_char_x(c: char) -> (r: bool)
    ensures
        r == is_ws_char(c),
{
    c == ' ' || c == '\n' || c == '\r' || c == '\t'
}

fn is_name_char_x(c: char) -> (r: bool)
    ensures
        r == is_name_char(c),
{
    'a' <= c && c <= 'z'
}

fn ws_end_x(s: &str, i: usize) -> (r: usize)
    requires
        i <= s@.len(),
    ensures
        r == ws_end(s@, i as int),
        i <= r <= s@.len(),
{
    let n = s.unicode_len();
    let mut j = i;
    while j < n && is_ws_char_x(s.get_char(j))
        invariant
            i <= j <= n,
            n == s@.len(),
            ws_end(s@, i as int) == ws_end(s@, j as int),
        decreases n - j,
    {
        j = j + 1;
    }
    j
}

fn name_end_x(s: &str, i: usize) -> (r: usize)
    requires
        i <= s@.len(),
    ensures
        r == name_end(s@, i as int),
        i <= r <= s@.len(),
{
    let n = s.unicode_len();
    let mut j = i;
    while j < n && is_name_char_x(s.get_char(j))
        invariant
            i <= j <= n,
            n == s@.len(),
            name_end(s@, i as int) == name_end(s@, j as int),
        decreases n - j,
    {
        j = j + 1;
    }
    j
}

fn text_end_x(s: &str, i: usize) -> (r: usize)
    requires
        i <= s@.len(),
    ensures
        r == text_end(s@, i as int),
        i <= r <= s@.len(),
{
    let n = s.unicode_len();
    let mut j = i;
    while j < n && s.get_char(j) != '<'
        invariant
            i <= j <= n,
            n == s@.len(),
            text_end(s@, i as int) == text_end(s@, j as int),
        decreases n - j,
    {
        j = j + 1;
    }
    j
}

/// Whether the characters of `s` between `from` and `to` read exactly `p`.
fn range_eq(s: &str, from: usize, to: usize, p: &str) -> (r: bool)
    requires
        from <= to <= s@.len(),
    ensures
        r == (s@.subrange(from as int, to as int) == p@),
{
    let pl = p.unicode_len();
    if to - from != pl {
        proof {
            assert(s@.subrange(from as int, to as int).len() != p@.len());
        }
        return false;
    }
    let mut k: usize = 0;
    while k < pl
        invariant
            k <= pl,
            pl == p@.len(),
            from + pl == to,
            to <= s@.len(),
            forall|t: int| 0 <= t < k ==> s@[from + t] == p@[t],
        decreases pl - k,
    {
        if s.get_char(from + k) != p.get_char(k) {
            proof {
                assert(s@.subrange(from as int, to as int)[k as int] == s@[from + k]);
            }
            return false;
        }
        k = k + 1;
    }
    proof {
        assert(s@.subrange(from as int, to as int) =~= p@);
    }
    true
}

/// Whether two strings hold the same characters.
fn str_eq(a: &str, b: &str) -> (r: bool)
    ensures
        r == (a@ == b@),
{
    let n = a.unicode_len();
    let r = range_eq(a, 0, n, b);
    proof {
        assert(a@.subrange(0, a@.len() as int) =~= a@);
    }
    r
}

/// Reads an open tag `<name>` at `i`: the name and the position just past
/// the `>`.
pub open spec fn parse_open(s: Seq<char>, i: int) -> Option<(Seq<char>, int)> {
    if 0 <= i && i < s.len() && s[i] == '<' {
        let ne = name_end(s, i + 1);
        let name = s.subrange(i + 1, ne);
        if name.len() > 0 && ne < s.len() && s[ne] == '>' {
            Some((name, ne + 1))
        } else {
            None
        }
    } else {
        None
    }
}

/// Reads the close tag `</name>` at `i`: the position just past the `>`.
pub open spec fn close_tag_end(s: Seq<char>, i: int, name: Seq<char>) -> Option<int> {
    if 0 <= i && i + 1 < s.len() && s[i] == '<' && s[i + 1] == '/' {
        let ne = name_end(s, i + 2);
        if s.subrange(i + 2, ne) == name && ne < s.len() && s[ne] == '>' {
            Some(ne + 1)
        } else {
            None
        }
    } else {
        None
    }
}

/// A movie model with nothing set yet, accumulated as children are read.
pub open spec fn empty_movie_model() -> MovieModel {
    MovieModel {
        title: Seq::empty(),
        outline: None,
        poster: None,
        thumb: None,
        fanart: None,
        label: None,
        actor: Seq::empty(),
        tag: None,
        genre: None,
        num: None,
        releasedate: None,
        cover: None,
        website: None,
    }
}

/// An actor model with nothing set yet.
pub open spec fn empty_actor_model() -> ActorModel {
    ActorModel { name: Seq::empty(), role: None, thumb: None }
}

/// Appends one entry to an optional list, creating the list on first use.
pub open spec fn push_list(l: Option<Seq<Seq<char>>>, text: Seq<char>) -> Option<Seq<Seq<char>>> {
    match l {
        None => Some(seq![text]),
        Some(v) => Some(v.push(text)),
    }
}

/// Applies one scalar child of `<actor>` to the accumulated actor; an
/// unknown child name is malformed.
pub open spec fn apply_actor_field(
    a: ActorModel,
    has_name: bool,
    name: Seq<char>,
    text: Seq<char>,
) -> Option<(ActorModel, bool)> {
    if name == "name"@ {
        Some((ActorModel { name: text, ..a }, true))
    } else if name == "role"@ {
        Some((ActorModel { role: Some(text), ..a }, has_name))
    } else if name == "thumb"@ {
        Some((ActorModel { thumb: Some(text), ..a }, has_name))
    } else {
        None
    }
}

/// Applies one scalar child of `<movie>` to the accumulated movie; a
/// repeated scalar overwrites, `tag` and `genre` collect, and an unknown
/// child name is malformed.
pub open spec fn apply_movie_field(
    m: MovieModel,
    has_title: bool,
    name: Seq<char>,
    text: Seq<char>,
) -> Option<(MovieModel, bool)> {
    if name == "title"@ {
        Some((MovieModel { title: text, ..m }, true))
    } else if name == "outline"@ {
        Some((MovieModel { outline: Some(text), ..m }, has_title))
    } else if name == "poster"@ {
        Some((MovieModel { poster: Some(text), ..m }, has_title))
    } else if name == "thumb"@ {
        Some((MovieModel { thumb: Some(text), ..m }, has_title))
    } else if name == "fanart"@ {
        Some((MovieModel { fanart: Some(text), ..m }, has_title))
    } else if name == "label"@ {
        Some((MovieModel { label: Some(text), ..m }, has_title))
    } else if name == "num"@ {
        Some((MovieModel { num: Some(text), ..m }, has_title))
    } else if name == "releasedate"@ {
        Some((MovieModel { releasedate: Some(text), ..m }, has_title))
    } else if name == "cover"@ {
        Some((MovieModel { cover: Some(text), ..m }, has_title))
    } else if name == "website"@ {
        Some((MovieModel { website: Some(text), ..m }, has_title))
    } else if name == "tag"@ {
        Some((MovieModel { tag: push_list(m.tag, text), ..m }, has_title))
    } else if name == "genre"@ {
        Some((MovieModel { genre: push_list(m.genre, text), ..m }, has_title))
    } else {
        None
    }
}

/// Reads the children of `<actor>` up to (not past) its close tag: the
/// accumulated actor, whether a `name` child was seen, and the close tag's
/// position.
pub open spec fn parse_actor_children(
    s: Seq<char>,
    i: int,
    a: ActorModel,
    has_name: bool,
) -> Option<(ActorModel, bool, int)>
    decreases s.len() - i
        when 0 <= i <= s.len()
{
    let j = ws_end(s, i);
    if j + 1 < s.len() && s[j] == '<' && s[j + 1] == '/' {
        Some((a, has_name, j))
    } else {
        match parse_open(s, j) {
            None => None,
            Some((name, k)) => {
                if k <= i {
                    None
                } else {
                    let te = text_end(s, k);
                    let text = s.subrange(k, te);
                    match close_tag_end(s, te, name) {
                        None => None,
                        Some(nxt) => {
                            if nxt <= i {
                                None
                            } else {
                                match apply_actor_field(a, has_name, name, text) {
                                    None => None,
                                    Some((a2, h2)) => parse_actor_children(s, nxt, a2, h2),
                                }
                            }
                        },
                    }
                }
            },
        }
    }
}

/// Reads the children of `<movie>` up to (not past) its close tag: the
/// accumulated movie, whether a `title` child was seen, and the close tag's
/// position.
pub open spec fn parse_movie_children(
    s: Seq<char>,
    i: int,
    m: MovieModel,
    has_title: bool,
) -> Option<(MovieModel, bool, int)>
    decreases s.len() - i
        when 0 <= i <= s.len()
{
    let j = ws_end(s, i);
    if j + 1 < s.len() && s[j] == '<' && s[j + 1] == '/' {
        Some((m, has_title, j))
    } else {
        match parse_open(s, j) {
            None => None,
            Some((name, k)) => {
                if k <= i {
                    None
                } else if name == "actor"@ {
                    match parse_actor_children(s, k, empty_actor_model(), false) {
                        None => None,
                        Some((a, has_name, e)) => {
                            if !has_name {
                                None
                            } else {
                                match close_tag_end(s, e, "actor"@) {
                                    None => None,
                                    Some(nxt) => {
                                        if nxt <= i {
                                            None
                                        } else {
                                            parse_movie_children(
                                                s,
                                                nxt,
                                                MovieModel { actor: m.actor.push(a), ..m },
                                                has_title,
                                            )
                                        }
                                    },
                                }
                            }
                        },
                    }
                } else {
                    let te = text_end(s, k);
                    let text = s.subrange(k, te);
                    match close_tag_end(s, te, name) {
                        None => None,
                        Some(nxt) => {
                            if nxt <= i {
                                None
                            } else {
                                match apply_movie_field(m, has_title, name, text) {
                                    None => None,
                                    Some((m2, h2)) => parse_movie_children(s, nxt, m2, h2),
                                }
                            }
                        },
                    }
                }
            },
        }
    }
}

/// The whole descriptor grammar: optional whitespace, a `<movie>` element
/// holding the children, its close tag, optional trailing whitespace — and
/// a movie only when a `title` child was present.
pub open spec fn spec_parse_movie(s: Seq<char>) -> Option<MovieModel> {
    let i0 = ws_end(s, 0);
    match parse_open(s, i0) {
        None => None,
        Some((name, k)) => {
            if name == "movie"@ && 0 <= k <= s.len() {
                match parse_movie_children(s, k, empty_movie_model(), false) {
                    None => None,
                    Some((m, has_title, e)) => {
                        match close_tag_end(s, e, "movie"@) {
                            None => None,
                            Some(fin) => {
                                if has_title && ws_end(s, fin) == s.len() {
                                    Some(m)
                                } else {
                                    None
                                }
                            },
                        }
                    },
                }
            } else {
                None
            }
        },
    }
}

fn parse_open_x(s: &str, i: usize) -> (r: Option<(String, usize)>)
    requires
        i <= s@.len(),
    ensures
        r is Some <==> parse_open(s@, i as int) is Some,
        r matches Some((name, k)) ==> parse_open(s@, i as int) == Some((name@, k as int)) && i < k
            <= s@.len(),
{
    let n = s.unicode_len();
    if i < n && s.get_char(i) == '<' {
        let ne = name_end_x(s, i + 1);
        if ne > i + 1 && ne < n && s.get_char(ne) == '>' {
            let name = s.substring_char(i + 1, ne).to_owned();
            Some((name, ne + 1))
        } else {
            None
        }
    } else {
        None
    }
}

fn close_tag_x(s: &str, i: usize, name: &str) -> (r: Option<usize>)
    requires
        i <= s@.len(),
    ensures
        r is Some <==> close_tag_end(s@, i as int, name@) is Some,
        r matches Some(k) ==> close_tag_end(s@, i as int, name@) == Some(k as int) && i < k
            <= s@.len(),
{
    let n = s.unicode_len();
    if i < n && i + 1 < n && s.get_char(i) == '<' && s.get_char(i + 1) == '/' {
        let ne = name_end_x(s, i + 2);
        if range_eq(s, i + 2, ne, name) && ne < n && s.get_char(ne) == '>' {
            Some(ne + 1)
        } else {
            None
        }
    } else {
        None
    }
}

fn apply_actor_field_x(a: &mut Actor, has_name: &mut bool, name: &str, text: String) -> (ok: bool)
    ensures
        ok <==> apply_actor_field(old(a).deep(), *old(has_name), name@, text@) is Some,
        ok ==> apply_actor_field(old(a).deep(), *old(has_name), name@, text@) == Some(
            (final(a).deep(), *final(has_name)),
        ),
        !ok ==> *final(a) == *old(a) && *final(has_name) == *old(has_name),
{
    if str_eq(name, "name") {
        a.name = text;
        *has_name = true;
        true
    } else if str_eq(name, "role") {
        a.role = Some(text);
        true
    } else if str_eq(name, "thumb") {
        a.thumb = Some(text);
        true
    } else {
        false
    }
}

fn push_list_x(l: &mut Option<Vec<String>>, text: String)
    ensures
        opt_list_view(*final(l)) == push_list(opt_list_view(*old(l)), text@),
{
    let cur = l.take();
    match cur {
        None => {
            let mut v: Vec<String> = Vec::new();
            v.push(text);
            proof {
                assert(v@.map_values(|s: String| s@) =~= seq![text@]);
            }
            *l = Some(v);
        },
        Some(mut v) => {
            let ghost v0 = v@;
            v.push(text);
            proof {
                assert(v@.map_values(|s: String| s@) =~= v0.map_values(|s: String| s@).push(
                    text@,
                ));
            }
            *l = Some(v);
        },
    }
}

fn apply_movie_field_x(m: &mut Movie, has_title: &mut bool, name: &str, text: String) -> (ok: bool)
    ensures
        ok <==> apply_movie_field(old(m).deep(), *old(has_title), name@, text@) is Some,
        ok ==> apply_movie_field(old(m).deep(), *old(has_title), name@, text@) == Some(
            (final(m).deep(), *final(has_title)),
        ),
        !ok ==> *final(m) == *old(m) && *final(has_title) == *old(has_title),
{
    if str_eq(name, "title") {
        m.title = text;
        *has_title = true;
        true
    } else if str_eq(name, "outline") {
        m.outline = Some(text);
        true
    } else if str_eq(name, "poster") {
        m.poster = Some(text);
        true
    } else if str_eq(name, "thumb") {
        m.thumb = Some(text);
        true
    } else if str_eq(name, "fanart") {
        m.fanart = Some(text);
        true
    } else if str_eq(name, "label") {
        m.label = Some(text);
        true
    } else if str_eq(name, "num") {
        m.num = Some(text);
        true
    } else if str_eq(name, "releasedate") {
        m.releasedate = Some(text);
        true
    } else if str_eq(name, "cover") {
        m.cover = Some(text);
        true
    } else if str_eq(name, "website") {
        m.website = Some(text);
        true
    } else if str_eq(name, "tag") {
        push_list_x(&mut m.tag, text);
        true
    } else if str_eq(name, "genre") {
        push_list_x(&mut m.genre, text);
        true
    } else {
        false
    }
}

fn parse_actor_children_x(s: &str, start: usize) -> (r: Option<(Actor, bool, usize)>)
    requires
        start <= s@.len(),
    ensures
        r is Some <==> parse_actor_children(s@, start as int, empty_actor_model(), false) is Some,
        r matches Some((a, h, e)) ==> parse_actor_children(s@, start as int, empty_actor_model(), false)
            == Some((a.deep(), h, e as int)) && start <= e <= s@.len(),
{
    let mut a = Actor { name: String::new(), role: None, thumb: None };
    let mut h = false;
    let mut i = start;
    proof {
        assert(a.deep() =~= empty_actor_model());
    }
    loop
        invariant
            start <= i <= s@.len(),
            parse_actor_children(s@, start as int, empty_actor_model(), false)
                == parse_actor_children(s@, i as int, a.deep(), h),
        decreases s@.len() - i,
    {
        let n = s.unicode_len();
        let j = ws_end_x(s, i);
        if j < n && j + 1 < n && s.get_char(j) == '<' && s.get_char(j + 1) == '/' {
            return Some((a, h, j));
        }
        match parse_open_x(s, j) {
            None => {
                return None;
            },
            Some((name, k)) => {
                let te = text_end_x(s, k);
                let text = s.substring_char(k, te).to_owned();
                match close_tag_x(s, te, name.as_str()) {
                    None => {
                        return None;
                    },
                    Some(nxt) => {
                        if !apply_actor_field_x(&mut a, &mut h, name.as_str(), text) {
                            return None;
                        }
                        i = nxt;
                    },
                }
            },
        }
    }
}

fn parse_movie_children_x(s: &str, start: usize) -> (r: Option<(Movie, bool, usize)>)
    requires
        start <= s@.len(),
    ensures
        r is Some <==> parse_movie_children(s@, start as int, empty_movie_model(), false) is Some,
        r matches Some((m, h, e)) ==> parse_movie_children(s@, start as int, empty_movie_model(), false)
            == Some((m.deep(), h, e as int)) && start <= e <= s@.len(),
{
    let mut m = Movie {
        title: String::new(),
        outline: None,
        poster: None,
        thumb: None,
        fanart: None,
        label: None,
        actor: Vec::new(),
        tag: None,
        genre: None,
        num: None,
        releasedate: None,
        cover: None,
        website: None,
    };
    let mut h = false;
    let mut i = start;
    proof {
        assert(m.actor@.map_values(|x: Actor| x.deep()) =~= Seq::<ActorModel>::empty());
        assert(m.deep() =~= empty_movie_model());
    }
    loop
        invariant
            start <= i <= s@.len(),
            parse_movie_children(s@, start as int, empty_movie_model(), false)
                == parse_movie_children(s@, i as int, m.deep(), h),
        decreases s@.len() - i,
    {
        let n = s.unicode_len();
        let j = ws_end_x(s, i);
        if j < n && j + 1 < n && s.get_char(j) == '<' && s.get_char(j + 1) == '/' {
            return Some((m, h, j));
        }
        match parse_open_x(s, j) {
            None => {
                return None;
            },
            Some((name, k)) => {
                if str_eq(name.as_str(), "actor") {
                    match parse_actor_children_x(s, k) {
                        None => {
                            return None;
                        },
                        Some((actor_v, has_name, e)) => {
                            if !has_name {
                                return None;
                            }
                            match close_tag_x(s, e, "actor") {
                                None => {
                                    return None;
                                },
                                Some(nxt) => {
                                    let ghost m0 = m.deep();
                                    let ghost av = actor_v.deep();
                                    m.actor.push(actor_v);
                                    proof {
                                        assert(m.actor@.map_values(|x: Actor| x.deep()) =~= m0
                                            .actor.push(av));
                                        assert(m.deep() =~= MovieModel { actor: m0.actor.push(av), ..m0 });
                                    }
                                    i = nxt;
                                },
                            }
                        },
                    }
                } else {
                    let te = text_end_x(s, k);
                    let text = s.substring_char(k, te).to_owned();
                    match close_tag_x(s, te, name.as_str()) {
                        None => {
                            return None;
                        },
                        Some(nxt) => {
                            if !apply_movie_field_x(&mut m, &mut h, name.as_str(), text) {
                                return None;
                            }
                            i = nxt;
                        },
                    }
                }
            },
        }
    }
}

/// Parses one whole descriptor document: the movie it names, or nothing at
/// all when the document is malformed or the mandatory `title` is missing —
/// exactly when `spec_parse_movie` says so.
pub fn parse_movie(s: &str) -> (r: Option<Movie>)
    ensures
        r is Some <==> spec_parse_movie(s@) is Some,
        r matches Some(m) ==> spec_parse_movie(s@) == Some(m.deep()),
{
    let n = s.unicode_len();
    let i0 = ws_end_x(s, 0);
    match parse_open_x(s, i0) {
        None => None,
        Some((name, k)) => {
            if !str_eq(name.as_str(), "movie") {
                return None;
            }
            match parse_movie_children_x(s, k) {
                None => None,
                Some((m, has_title, e)) => {
                    match close_tag_x(s, e, "movie") {
                        None => None,
                        Some(fin) => {
                            if has_title && ws_end_x(s, fin) == n {
                                Some(m)
                            } else {
                                None
                            }
                        },
                    }
                },
            }
        },
    }
}

/// The metadata loader: parses one descriptor's text into a catalog record,
/// stamping the caller's timestamp (the scan's start time) as `added_time`
/// and starting the favorite flag cleared. Yields nothing when the document
/// is malformed or misses the mandatory `title`; it never fails otherwise.
pub fn load_movie_from_nfo(path: String, text: &str, added_time: u64) -> (r: Option<MovieData>)
    ensures
        r is Some <==> spec_parse_movie(text@) is Some,
        r matches Some(rec) ==> spec_parse_movie(text@) == Some(rec.movie.deep()) && rec.path
            == path && rec.added_time == added_time && rec.fav == false,
{
    match parse_movie(text) {
        None => None,
        Some(movie) => Some(crate::record::make_record(path, movie, added_time)),
    }
}

} // verus!
