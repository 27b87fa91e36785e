use sambanova::headers::parse_custom_headers;

#[test]
fn two_pairs() {
    let h = parse_custom_headers("a=1,b=2".to_string());
    assert_eq!(h.len(), 2);
    assert_eq!(h.get("a").unwrap(), "1");
    assert_eq!(h.get("b").unwrap(), "2");
}

#[test]
fn malformed_pair_is_dropped() {
    let h = parse_custom_headers("a=1,bad,c=3".to_string());
    assert_eq!(h.len(), 2);
    assert_eq!(h.get("a").unwrap(), "1");
    assert_eq!(h.get("c").unwrap(), "3");
    assert!(h.get("bad").is_none());
}

#[test]
fn split_at_first_equals_and_trimmed() {
    let h = parse_custom_headers("  key = a=b  ,\tx=\u{3000}y ".to_string());
    assert_eq!(h.len(), 2);
    assert_eq!(h.get("key").unwrap(), "a=b");
    assert_eq!(h.get("x").unwrap(), "y");
}

#[test]
fn empty_text_gives_no_headers() {
    let h = parse_custom_headers(String::new());
    assert_eq!(h.len(), 0);
}

#[test]
fn later_duplicate_replaces_value_and_keeps_place() {
    let h = parse_custom_headers("a=1,b=2,a=3".to_string());
    assert_eq!(h.len(), 2);
    assert_eq!(h.get("a").unwrap(), "3");
    assert_eq!(
        h.to_vec(),
        vec![("a".to_string(), "3".to_string()), ("b".to_string(), "2".to_string())]
    );
}

#[test]
fn empty_key_and_value_are_kept() {
    let h = parse_custom_headers("=,k=".to_string());
    assert_eq!(h.len(), 2);
    assert_eq!(h.get("").unwrap(), "");
    assert_eq!(h.get("k").unwrap(), "");
}
