use musicabgleich::ParameterMap;

#[test]
fn new_map_is_empty() {
    let m = ParameterMap::new();
    assert_eq!(m.len(), 0);
    assert_eq!(m.get("page"), None);
    assert_eq!(m.to_query(), "");
}

#[test]
fn insert_appends_new_keys_in_order() {
    let mut m = ParameterMap::new();
    m.insert("b", "1".to_string());
    m.insert("a", "2".to_string());
    assert_eq!(
        m.pairs(),
        vec![("b".to_string(), "1".to_string()), ("a".to_string(), "2".to_string())]
    );
}

#[test]
fn insert_replaces_in_place() {
    let mut m = ParameterMap::new();
    m.insert("a", "1".to_string());
    m.insert("b", "2".to_string());
    m.insert("a", "3".to_string());
    assert_eq!(m.len(), 2);
    assert_eq!(m.get("a"), Some("3".to_string()));
    assert_eq!(m.to_query(), "a=3&b=2");
}

#[test]
fn absent_values_leave_the_map_unchanged() {
    let mut m = ParameterMap::new();
    m.insert("page", "4".to_string());
    m.set_text("page", None);
    m.set_number("page", None);
    m.set_flag("page", None);
    m.set_text("q", None);
    assert_eq!(m.pairs(), vec![("page".to_string(), "4".to_string())]);
}

#[test]
fn present_values_are_rendered() {
    let mut m = ParameterMap::new();
    m.set_text("q", Some("x y"));
    m.set_number("page", Some(12));
    m.set_flag("f_has_lyrics", Some(true));
    m.set_flag("restricted", Some(false));
    assert_eq!(m.get("page"), Some("12".to_string()));
    assert_eq!(m.get("f_has_lyrics"), Some("true".to_string()));
    assert_eq!(m.get("restricted"), Some("false".to_string()));
    assert_eq!(m.to_query(), "q=x+y&page=12&f_has_lyrics=true&restricted=false");
}

#[test]
fn map_query_round_trip() {
    let mut m = ParameterMap::new();
    m.set_text("q_lyrics", Some("ça va?"));
    m.set_number("page_size", Some(100));
    let parsed = musicabgleich::form::parse_query_bytes(&m.to_query());
    let expected: Vec<(Vec<u8>, Vec<u8>)> = m
        .pairs()
        .into_iter()
        .map(|(k, v)| (k.into_bytes(), v.into_bytes()))
        .collect();
    assert_eq!(parsed, expected);
}
