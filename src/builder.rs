//! The fluent builder of track-search parameters.
use vstd::prelude::*;

use crate::params::{bool_text, ParameterMap};
use crate::text::decimal_text;
use crate::tokens::SortBy;

verus! {

/// The key that [`TrackSearchQuery::song_title`] sets.
pub open spec fn song_title_key() -> Seq<char> {
    "q_track"@
}

/// The key that [`TrackSearchQuery::song_artist`] sets.
pub open spec fn song_artist_key() -> Seq<char> {
    "q_artist"@
}

/// The key that [`TrackSearchQuery::lyrics_contain_word`] sets.
pub open spec fn lyrics_contain_word_key() -> Seq<char> {
    "q_lyrics"@
}

/// The key that [`TrackSearchQuery::song_title_or_artist_contains_word`] sets.
pub open spec fn song_title_or_artist_contains_word_key() -> Seq<char> {
    "q_track_artist"@
}

/// The key that [`TrackSearchQuery::search_writers`] sets.
pub open spec fn search_writers_key() -> Seq<char> {
    "q_writer"@
}

/// The key that [`TrackSearchQuery::search_all_contains_word`] sets.
pub open spec fn search_all_contains_word_key() -> Seq<char> {
    "q"@
}

/// The key that [`TrackSearchQuery::artist_id`] sets.
pub open spec fn artist_id_key() -> Seq<char> {
    "f_artist_id"@
}

/// The key that [`TrackSearchQuery::music_genre_id`] sets.
pub open spec fn music_genre_id_key() -> Seq<char> {
    "f_music_genre_id"@
}

/// The key that [`TrackSearchQuery::lyrics_language`] sets.
pub open spec fn lyrics_language_key() -> Seq<char> {
    "f_lyrics_language"@
}

/// The key that [`TrackSearchQuery::has_lyrics`] sets.
pub open spec fn has_lyrics_key() -> Seq<char> {
    "f_has_lyrics"@
}

/// The key that [`TrackSearchQuery::track_release_group_first_release_date_min`] sets.
pub open spec fn track_release_group_first_release_date_min_key() -> Seq<char> {
    "f_track_release_group_first_release_date_min"@
}

/// The key that [`TrackSearchQuery::track_release_group_first_release_date_max`] sets.
pub open spec fn track_release_group_first_release_date_max_key() -> Seq<char> {
    "f_track_release_group_first_release_date_max"@
}

/// The key that [`TrackSearchQuery::artist_rating`] sets.
pub open spec fn artist_rating_key() -> Seq<char> {
    "s_artist_rating"@
}

/// The key that [`TrackSearchQuery::track_rating`] sets.
pub open spec fn track_rating_key() -> Seq<char> {
    "s_track_rating"@
}

/// The key that [`TrackSearchQuery::quorum_factor`] sets.
pub open spec fn quorum_factor_key() -> Seq<char> {
    "quorum_factor"@
}

/// The key that [`TrackSearchQuery::page`] sets.
pub open spec fn page_key() -> Seq<char> {
    "page"@
}

/// The key that [`TrackSearchQuery::page_size`] sets.
pub open spec fn page_size_key() -> Seq<char> {
    "page_size"@
}

/// The keys of all setters, in the order in which they are declared.
pub open spec fn track_search_keys() -> Seq<Seq<char>> {
    seq![
        song_title_key(),
        song_artist_key(),
        lyrics_contain_word_key(),
        song_title_or_artist_contains_word_key(),
        search_writers_key(),
        search_all_contains_word_key(),
        artist_id_key(),
        music_genre_id_key(),
        lyrics_language_key(),
        has_lyrics_key(),
        track_release_group_first_release_date_min_key(),
        track_release_group_first_release_date_max_key(),
        artist_rating_key(),
        track_rating_key(),
        quorum_factor_key(),
        page_key(),
        page_size_key(),
    ]
}

/// Every setter writes under a key of its own: no two setters share one.
pub proof fn lemma_track_search_keys_distinct()
    ensures
        track_search_keys().len() == 17,
        forall|i: int, j: int|
            0 <= i < j < 17 ==> #[trigger] track_search_keys()[i] != #[trigger] track_search_keys()[j],
{
    reveal_strlit("q_track");
    reveal_strlit("q_artist");
    reveal_strlit("q_lyrics");
    reveal_strlit("q_track_artist");
    reveal_strlit("q_writer");
    reveal_strlit("q");
    reveal_strlit("f_artist_id");
    reveal_strlit("f_music_genre_id");
    reveal_strlit("f_lyrics_language");
    reveal_strlit("f_has_lyrics");
    reveal_strlit("f_track_release_group_first_release_date_min");
    reveal_strlit("f_track_release_group_first_release_date_max");
    reveal_strlit("s_artist_rating");
    reveal_strlit("s_track_rating");
    reveal_strlit("quorum_factor");
    reveal_strlit("page");
    reveal_strlit("page_size");
    let ks = track_search_keys();
    assert(ks[0].len() == 7);
    assert(ks[1].len() == 8);
    assert(ks[2].len() == 8);
    assert(ks[3].len() == 14);
    assert(ks[4].len() == 8);
    assert(ks[5].len() == 1);
    assert(ks[6].len() == 11);
    assert(ks[7].len() == 16);
    assert(ks[8].len() == 17);
    assert(ks[9].len() == 12);
    assert(ks[10].len() == 44);
    assert(ks[11].len() == 44);
    assert(ks[12].len() == 15);
    assert(ks[13].len() == 14);
    assert(ks[14].len() == 13);
    assert(ks[15].len() == 4);
    assert(ks[16].len() == 9);
    assert(ks[1][2] != ks[2][2]);
    assert(ks[1][2] != ks[4][2]);
    assert(ks[2][2] != ks[4][2]);
    assert(ks[3][0] != ks[13][0]);
    assert(ks[10][42] != ks[11][42]);
    assert forall|i: int, j: int| 0 <= i < j < 17 implies #[trigger] ks[i] != #[trigger] ks[j] by {}
}

/// The parameters of a track search.
pub struct TrackSearchQuery {
    params: ParameterMap,
}

impl View for TrackSearchQuery {
    type V = Map<Seq<char>, Seq<char>>;

    open spec fn view(&self) -> Map<Seq<char>, Seq<char>> {
        self.params()@
    }
}

impl TrackSearchQuery {
    /// The parameter map.
    pub closed spec fn params(&self) -> ParameterMap {
        self.params
    }

    /// The parameter map keeps its keys unique.
    pub open spec fn wf(&self) -> bool {
        self.params().wf()
    }

    /// A query with no parameters.
    pub fn new() -> (r: Self)
        ensures
            r.wf(),
            r@ == Map::<Seq<char>, Seq<char>>::empty(),
    {
        TrackSearchQuery { params: ParameterMap::new() }
    }

    /// The parameters set so far.
    pub fn parameters(&self) -> (r: &ParameterMap)
        ensures
            *r == self.params(),
    {
        &self.params
    }

    /// The parameters set so far, taken out of the query.
    pub fn into_parameters(self) -> (r: ParameterMap)
        ensures
            r == self.params(),
    {
        self.params
    }

    /// Set the song title to search for.
    pub fn song_title(self, value: Option<&str>) -> (r: Self)
        requires
            self.wf(),
        ensures
            r.wf(),
            value is None ==> r == self,
            value matches Some(v) ==> r@ == self@.insert(song_title_key(), v@),
    {
        let mut params = self.params;
        params.set_text("q_track", value);
        TrackSearchQuery { params }
    }

    /// Set the song artist to search for.
    pub fn song_artist(self, value: Option<&str>) -> (r: Self)
        requires
            self.wf(),
        ensures
            r.wf(),
            value is None ==> r == self,
            value matches Some(v) ==> r@ == self@.insert(song_artist_key(), v@),
    {
        let mut params = self.params;
        params.set_text("q_artist", value);
        TrackSearchQuery { params }
    }

    /// Set any word to search for in the lyrics.
    pub fn lyrics_contain_word(self, value: Option<&str>) -> (r: Self)
        requires
            self.wf(),
        ensures
            r.wf(),
            value is None ==> r == self,
            value matches Some(v) ==> r@ == self@.insert(lyrics_contain_word_key(), v@),
    {
        let mut params = self.params;
        params.set_text("q_lyrics", value);
        TrackSearchQuery { params }
    }

    /// Set any word to search for in the song title or artist name.
    pub fn song_title_or_artist_contains_word(self, value: Option<&str>) -> (r: Self)
        requires
            self.wf(),
        ensures
            r.wf(),
            value is None ==> r == self,
            value matches Some(v) ==> r@ == self@.insert(song_title_or_artist_contains_word_key(), v@),
    {
        let mut params = self.params;
        params.set_text("q_track_artist", value);
        TrackSearchQuery { params }
    }

    /// Search among writers for a specific word.
    pub fn search_writers(self, value: Option<&str>) -> (r: Self)
        requires
            self.wf(),
        ensures
            r.wf(),
            value is None ==> r == self,
            value matches Some(v) ==> r@ == self@.insert(search_writers_key(), v@),
    {
        let mut params = self.params;
        params.set_text("q_writer", value);
        TrackSearchQuery { params }
    }

    /// Set any word to search for in the song title, artist name, or lyrics.
    pub fn search_all_contains_word(self, value: Option<&str>) -> (r: Self)
        requires
            self.wf(),
        ensures
            r.wf(),
            value is None ==> r == self,
            value matches Some(v) ==> r@ == self@.insert(search_all_contains_word_key(), v@),
    {
        let mut params = self.params;
        params.set_text("q", value);
        TrackSearchQuery { params }
    }

    /// Filter by the artist ID.
    pub fn artist_id(self, value: Option<u32>) -> (r: Self)
        requires
            self.wf(),
        ensures
            r.wf(),
            value is None ==> r == self,
            value matches Some(n) ==> r@ == self@.insert(artist_id_key(), decimal_text(n as nat)),
    {
        let mut params = self.params;
        let number = match value {
            Some(n) => Some(n as u64),
            None => None,
        };
        params.set_number("f_artist_id", number);
        TrackSearchQuery { params }
    }

    /// Filter by the music category ID.
    pub fn music_genre_id(self, value: Option<u32>) -> (r: Self)
        requires
            self.wf(),
        ensures
            r.wf(),
            value is None ==> r == self,
            value matches Some(n) ==> r@ == self@.insert(music_genre_id_key(), decimal_text(n as nat)),
    {
        let mut params = self.params;
        let number = match value {
            Some(n) => Some(n as u64),
            None => None,
        };
        params.set_number("f_music_genre_id", number);
        TrackSearchQuery { params }
    }

    /// Filter by the lyrics language (en, it, ...).
    pub fn lyrics_language(self, value: Option<&str>) -> (r: Self)
        requires
            self.wf(),
        ensures
            r.wf(),
            value is None ==> r == self,
            value matches Some(v) ==> r@ == self@.insert(lyrics_language_key(), v@),
    {
        let mut params = self.params;
        params.set_text("f_lyrics_language", value);
        TrackSearchQuery { params }
    }

    /// Filter only contents with lyrics when set to true.
    pub fn has_lyrics(self, value: Option<bool>) -> (r: Self)
        requires
            self.wf(),
        ensures
            r.wf(),
            value is None ==> r == self,
            value matches Some(b) ==> r@ == self@.insert(has_lyrics_key(), bool_text(b)),
    {
        let mut params = self.params;
        params.set_flag("f_has_lyrics", value);
        TrackSearchQuery { params }
    }

    /// Filter the tracks with a release date newer than the given value (format: YYYYMMDD).
    pub fn track_release_group_first_release_date_min(self, value: Option<&str>) -> (r: Self)
        requires
            self.wf(),
        ensures
            r.wf(),
            value is None ==> r == self,
            value matches Some(v) ==> r@ == self@.insert(track_release_group_first_release_date_min_key(), v@),
    {
        let mut params = self.params;
        params.set_text("f_track_release_group_first_release_date_min", value);
        TrackSearchQuery { params }
    }

    /// Filter the tracks with a release date older than the given value (format: YYYYMMDD).
    pub fn track_release_group_first_release_date_max(self, value: Option<&str>) -> (r: Self)
        requires
            self.wf(),
        ensures
            r.wf(),
            value is None ==> r == self,
            value matches Some(v) ==> r@ == self@.insert(track_release_group_first_release_date_max_key(), v@),
    {
        let mut params = self.params;
        params.set_text("f_track_release_group_first_release_date_max", value);
        TrackSearchQuery { params }
    }

    /// Sort by the popularity index of artists (asc|desc).
    pub fn artist_rating(self, value: Option<SortBy>) -> (r: Self)
        requires
            self.wf(),
        ensures
            r.wf(),
            value is None ==> r == self,
            value matches Some(d) ==> r@ == self@.insert(artist_rating_key(), d.token()),
    {
        let mut params = self.params;
        let token = match value {
            Some(d) => Some(d.as_str()),
            None => None,
        };
        params.set_text("s_artist_rating", token);
        TrackSearchQuery { params }
    }

    /// Sort by the popularity index of tracks (asc|desc).
    pub fn track_rating(self, value: Option<SortBy>) -> (r: Self)
        requires
            self.wf(),
        ensures
            r.wf(),
            value is None ==> r == self,
            value matches Some(d) ==> r@ == self@.insert(track_rating_key(), d.token()),
    {
        let mut params = self.params;
        let token = match value {
            Some(d) => Some(d.as_str()),
            None => None,
        };
        params.set_text("s_track_rating", token);
        TrackSearchQuery { params }
    }

    /// Search only a part of the given query string, given as the fraction in decimal
    /// (such as `0.5`). The service allows 0.1 to 0.9; the value is passed on as it is.
    pub fn quorum_factor(self, value: Option<&str>) -> (r: Self)
        requires
            self.wf(),
        ensures
            r.wf(),
            value is None ==> r == self,
            value matches Some(v) ==> r@ == self@.insert(quorum_factor_key(), v@),
    {
        let mut params = self.params;
        params.set_text("quorum_factor", value);
        TrackSearchQuery { params }
    }

    /// Define the page number for paginated results.
    pub fn page(self, value: Option<u8>) -> (r: Self)
        requires
            self.wf(),
        ensures
            r.wf(),
            value is None ==> r == self,
            value matches Some(n) ==> r@ == self@.insert(page_key(), decimal_text(n as nat)),
    {
        let mut params = self.params;
        let number = match value {
            Some(n) => Some(n as u64),
            None => None,
        };
        params.set_number("page", number);
        TrackSearchQuery { params }
    }

    /// Define the page size for paginated results. The service allows 1 to 100;
    /// the value is passed on as it is.
    pub fn page_size(self, value: Option<u32>) -> (r: Self)
        requires
            self.wf(),
        ensures
            r.wf(),
            value is None ==> r == self,
            value matches Some(n) ==> r@ == self@.insert(page_size_key(), decimal_text(n as nat)),
    {
        let mut params = self.params;
        let number = match value {
            Some(n) => Some(n as u64),
            None => None,
        };
        params.set_number("page_size", number);
        TrackSearchQuery { params }
    }
}

} // verus!
