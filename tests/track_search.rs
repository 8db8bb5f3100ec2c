use musicabgleich::{SortBy, TrackSearchQuery};

fn pairs_of(q: &TrackSearchQuery) -> Vec<(String, String)> {
    q.parameters().pairs()
}

#[test]
fn empty_query_has_no_parameters() {
    let q = TrackSearchQuery::new();
    assert_eq!(q.parameters().len(), 0);
}

#[test]
fn absent_setters_are_no_ops() {
    let q = TrackSearchQuery::new()
        .song_title(Some("Yellow"))
        .song_title(None)
        .song_artist(None)
        .lyrics_contain_word(None)
        .song_title_or_artist_contains_word(None)
        .search_writers(None)
        .search_all_contains_word(None)
        .artist_id(None)
        .music_genre_id(None)
        .lyrics_language(None)
        .has_lyrics(None)
        .track_release_group_first_release_date_min(None)
        .track_release_group_first_release_date_max(None)
        .artist_rating(None)
        .track_rating(None)
        .quorum_factor(None)
        .page(None)
        .page_size(None);
    assert_eq!(pairs_of(&q), vec![("q_track".to_string(), "Yellow".to_string())]);
}

#[test]
fn every_setter_writes_its_own_key() {
    let q = TrackSearchQuery::new()
        .song_title(Some("t"))
        .song_artist(Some("a"))
        .lyrics_contain_word(Some("l"))
        .song_title_or_artist_contains_word(Some("ta"))
        .search_writers(Some("w"))
        .search_all_contains_word(Some("all"))
        .artist_id(Some(1))
        .music_genre_id(Some(2))
        .lyrics_language(Some("en"))
        .has_lyrics(Some(true))
        .track_release_group_first_release_date_min(Some("20000101"))
        .track_release_group_first_release_date_max(Some("20201231"))
        .artist_rating(Some(SortBy::Ascending))
        .track_rating(Some(SortBy::Desecending))
        .quorum_factor(Some("0.5"))
        .page(Some(3))
        .page_size(Some(50));
    let expected = [
        ("q_track", "t"),
        ("q_artist", "a"),
        ("q_lyrics", "l"),
        ("q_track_artist", "ta"),
        ("q_writer", "w"),
        ("q", "all"),
        ("f_artist_id", "1"),
        ("f_music_genre_id", "2"),
        ("f_lyrics_language", "en"),
        ("f_has_lyrics", "true"),
        ("f_track_release_group_first_release_date_min", "20000101"),
        ("f_track_release_group_first_release_date_max", "20201231"),
        ("s_artist_rating", "asc"),
        ("s_track_rating", "desc"),
        ("quorum_factor", "0.5"),
        ("page", "3"),
        ("page_size", "50"),
    ];
    let expected: Vec<(String, String)> =
        expected.iter().map(|(k, v)| (k.to_string(), v.to_string())).collect();
    assert_eq!(pairs_of(&q), expected);
}

#[test]
fn present_setter_replaces_its_previous_value() {
    let q = TrackSearchQuery::new()
        .page(Some(1))
        .song_artist(Some("x"))
        .page(Some(2));
    assert_eq!(
        pairs_of(&q),
        vec![
            ("page".to_string(), "2".to_string()),
            ("q_artist".to_string(), "x".to_string())
        ]
    );
}

#[test]
fn numbers_at_their_limits() {
    let q = TrackSearchQuery::new().page(Some(u8::MAX)).page_size(Some(u32::MAX)).artist_id(Some(0));
    assert_eq!(q.parameters().get("page"), Some("255".to_string()));
    assert_eq!(q.parameters().get("page_size"), Some("4294967295".to_string()));
    assert_eq!(q.parameters().get("f_artist_id"), Some("0".to_string()));
}

#[test]
fn into_parameters_gives_the_map() {
    let m = TrackSearchQuery::new().has_lyrics(Some(false)).into_parameters();
    assert_eq!(m.to_query(), "f_has_lyrics=false");
}
