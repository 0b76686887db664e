use kr::nfo::{load_movie_from_nfo, parse_movie};

#[test]
fn full_descriptor_parses() {
    let text = "<movie>\n  <title>Film A</title>\n  <outline>An outline</outline>\n  \
                <poster>p.jpg</poster>\n  <thumb>t.jpg</thumb>\n  <fanart>f.jpg</fanart>\n  \
                <label>L</label>\n  <num>ABC-123</num>\n  <releasedate>2020-01-02</releasedate>\n  \
                <cover>c.jpg</cover>\n  <website>https://example.test</website>\n  \
                <actor><name>Ann</name><role>Lead</role><thumb>a.jpg</thumb></actor>\n  \
                <actor><name>Bob</name></actor>\n  <tag>one</tag>\n  <tag>two</tag>\n  \
                <genre>drama</genre>\n</movie>\n";
    let m = parse_movie(text).expect("well-formed descriptor must parse");
    assert_eq!(m.title.as_str(), "Film A");
    assert_eq!(m.outline.as_deref(), Some("An outline"));
    assert_eq!(m.poster.as_deref(), Some("p.jpg"));
    assert_eq!(m.thumb.as_deref(), Some("t.jpg"));
    assert_eq!(m.fanart.as_deref(), Some("f.jpg"));
    assert_eq!(m.label.as_deref(), Some("L"));
    assert_eq!(m.num.as_deref(), Some("ABC-123"));
    assert_eq!(m.releasedate.as_deref(), Some("2020-01-02"));
    assert_eq!(m.cover.as_deref(), Some("c.jpg"));
    assert_eq!(m.website.as_deref(), Some("https://example.test"));
    assert_eq!(m.actor.len(), 2);
    assert_eq!(m.actor[0].name.as_str(), "Ann");
    assert_eq!(m.actor[0].role.as_deref(), Some("Lead"));
    assert_eq!(m.actor[0].thumb.as_deref(), Some("a.jpg"));
    assert_eq!(m.actor[1].name.as_str(), "Bob");
    assert_eq!(m.actor[1].role, None);
    let tags = m.tag.expect("tags were given");
    assert_eq!(tags, vec!["one".to_string(), "two".to_string()]);
    let genres = m.genre.expect("genre was given");
    assert_eq!(genres, vec!["drama".to_string()]);
}

#[test]
fn minimal_descriptor_parses() {
    let m = parse_movie("<movie><title>Only</title></movie>").expect("must parse");
    assert_eq!(m.title.as_str(), "Only");
    assert_eq!(m.outline, None);
    assert_eq!(m.actor.len(), 0);
    assert_eq!(m.tag, None);
    assert_eq!(m.genre, None);
}

#[test]
fn missing_title_is_rejected() {
    assert!(parse_movie("<movie><outline>No title here</outline></movie>").is_none());
    assert!(parse_movie("<movie></movie>").is_none());
}

#[test]
fn malformed_markup_is_rejected() {
    assert!(parse_movie("<movie><title>Unclosed</movie>").is_none());
    assert!(parse_movie("<movie><title>Mismatch</outline></movie>").is_none());
    assert!(parse_movie("not markup at all").is_none());
    assert!(parse_movie("").is_none());
    assert!(parse_movie("<movie><title>A</title>").is_none());
    assert!(parse_movie("<MOVIE><title>A</title></MOVIE>").is_none());
}

#[test]
fn unknown_child_is_rejected() {
    assert!(parse_movie("<movie><title>A</title><unknown>x</unknown></movie>").is_none());
}

#[test]
fn trailing_text_is_rejected() {
    assert!(parse_movie("<movie><title>A</title></movie>junk").is_none());
}

#[test]
fn surrounding_whitespace_is_accepted() {
    let m = parse_movie(" \r\n\t<movie>\n<title>A</title>\n</movie>\n \t").expect("must parse");
    assert_eq!(m.title.as_str(), "A");
}

#[test]
fn repeated_scalar_overwrites() {
    let m = parse_movie("<movie><title>First</title><title>Second</title></movie>")
        .expect("must parse");
    assert_eq!(m.title.as_str(), "Second");
}

#[test]
fn empty_content_is_empty_string() {
    let m = parse_movie("<movie><title></title><label></label></movie>").expect("must parse");
    assert_eq!(m.title.as_str(), "");
    assert_eq!(m.label.as_deref(), Some(""));
}

#[test]
fn actor_without_name_is_rejected() {
    assert!(parse_movie("<movie><title>A</title><actor><role>Lead</role></actor></movie>")
        .is_none());
}

#[test]
fn actor_with_unknown_child_is_rejected() {
    assert!(parse_movie("<movie><title>A</title><actor><name>N</name><age>9</age></actor></movie>")
        .is_none());
}

#[test]
fn loader_stamps_record() {
    let rec = load_movie_from_nfo(
        "/lib/A/A.nfo".to_string(),
        "<movie><title>Film A</title></movie>",
        777,
    )
    .expect("must parse");
    assert_eq!(rec.path.as_str(), "/lib/A/A.nfo");
    assert_eq!(rec.movie.title.as_str(), "Film A");
    assert_eq!(rec.added_time, 777);
    assert!(!rec.fav);
}

#[test]
fn loader_rejects_malformed() {
    assert!(load_movie_from_nfo("/lib/C/C.nfo".to_string(), "<movie><broken", 1).is_none());
}

#[test]
fn unicode_text_is_kept() {
    let m = parse_movie("<movie><title>Фильм 映画 🎬</title></movie>").expect("must parse");
    assert_eq!(m.title.as_str(), "Фильм 映画 🎬");
}
