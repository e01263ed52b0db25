use osm2lanes::{TagKey, Tags, TagsRead, TagsWrite};

#[test]
fn tag_key_composition() {
    let k = TagKey::from("cycleway").add("left").add("width");
    assert_eq!(k.as_str(), "cycleway:left:width");
    assert_eq!(TagKey::from("oneway").as_str(), "oneway");
}

#[test]
fn tags_get_is_and_is_any() {
    let tags = Tags::from_str_pairs(&[["foo", "bar"], ["abra", "cadabra"]]).unwrap();
    assert_eq!(tags.get("foo").map(|s| s.as_str()), Some("bar"));
    assert_eq!(tags.get("nope"), None);
    assert!(tags.is("abra", "cadabra"));
    assert!(!tags.is("abra", "bar"));
    assert!(tags.is_any("foo", &["x", "bar"]));
    assert!(!tags.is_any("foo", &["x", "y"]));
    assert!(!tags.is_any("missing", &["bar"]));
}

#[test]
fn tags_insert_returns_previous() {
    let mut tags = Tags::default();
    assert_eq!(tags.insert("k", "1".to_owned()), None);
    assert_eq!(tags.insert("k", "2".to_owned()), Some("1".to_owned()));
    assert_eq!(tags.get("k").map(|s| s.as_str()), Some("2"));
    assert_eq!(tags.map().len(), 1);
}

#[test]
fn tags_checked_insert_rejects_duplicate() {
    let mut tags = Tags::default();
    assert!(tags.checked_insert("k", "1".to_owned()).is_ok());
    let e = tags.checked_insert("k", "2".to_owned()).unwrap_err();
    assert_eq!(e.key, "k");
    assert_eq!(tags.get("k").map(|s| s.as_str()), Some("1"));
}

#[test]
fn tags_from_pairs_duplicate_is_error() {
    assert!(Tags::from_str_pairs(&[["a", "1"], ["a", "2"]]).is_err());
}

#[test]
fn tags_new_later_pair_wins() {
    let tags = Tags::new(vec![
        ("a".to_owned(), "1".to_owned()),
        ("b".to_owned(), "2".to_owned()),
        ("a".to_owned(), "3".to_owned()),
    ]);
    assert_eq!(tags.get("a").map(|s| s.as_str()), Some("3"));
    assert_eq!(tags.map().len(), 2);
}

#[test]
fn tags_subset_keeps_key_order() {
    let tags = Tags::from_str_pairs(&[["a", "1"], ["b", "2"], ["c", "3"]]).unwrap();
    let sub = tags.subset(&["c", "x", "a"]);
    let entries: Vec<(String, String)> = sub.map().clone();
    assert_eq!(
        entries,
        vec![("c".to_owned(), "3".to_owned()), ("a".to_owned(), "1".to_owned())]
    );
}

#[test]
fn tags_subset_repeated_absent_key() {
    let tags = Tags::from_str_pairs(&[["a", "1"]]).unwrap();
    let sub = tags.subset(&["x", "a", "x"]);
    assert_eq!(sub.map().clone(), vec![("a".to_owned(), "1".to_owned())]);
}

#[test]
fn tag_key_from_is_static() {
    assert!(matches!(TagKey::from("cycleway"), TagKey::Static("cycleway")));
    assert!(matches!(TagKey::from("a").add("b"), TagKey::String(_)));
}

#[test]
fn tags_text_parse_and_write_sorted() {
    let tags: Tags = "foo=bar\nabra=cadabra".parse().unwrap();
    assert_eq!(tags.get("foo").map(|s| s.as_str()), Some("bar"));
    assert_eq!(tags.to_text(), "abra=cadabra\nfoo=bar");
}

#[test]
fn tags_text_lines_and_values() {
    let tags = Tags::from_text("a=1\r\nb=x=y\n\nc=\n").err();
    assert_eq!(tags, Some("tag must be = separated".to_owned()));
    let tags = Tags::from_text("a=1\r\nb=x=y\nc=\na=2\n").unwrap();
    assert_eq!(tags.get("a").map(|s| s.as_str()), Some("2"));
    assert_eq!(tags.get("b").map(|s| s.as_str()), Some("x=y"));
    assert_eq!(tags.get("c").map(|s| s.as_str()), Some(""));
    assert_eq!(tags.to_text(), "a=2\nb=x=y\nc=");
}

#[test]
fn tags_text_empty_and_missing_separator() {
    assert_eq!(Tags::from_text("").unwrap().to_text(), "");
    assert!(Tags::from_text("novalue").is_err());
}
