//! The records that the service's payloads decode into. They are plain data:
//! the names here are the record's own, and the service's JSON names are
//! given beside each field.
use vstd::prelude::*;

verus! {

/// A name in another language.
#[derive(Clone, Debug, PartialEq)]
pub struct Translation {
    /// `language`
    pub language: String,
    /// `translation`
    pub translation: String,
}

/// An artist.
#[derive(Clone, Debug, PartialEq)]
pub struct Artist {
    /// `artist_id`
    pub id: u16,
    /// `artist_name`
    pub name: String,
    /// `artist_name_translation_list`
    pub name_translations: Vec<Translation>,
    /// `artist_comment`
    pub comment: String,
    /// `artist_country`
    pub country: String,
    /// `artist_alias_list`
    pub alias: Vec<String>,
    /// `artist_rating`
    pub rating: u8,
    /// `restricted`
    pub is_restricted: bool,
    /// `begin_date_year`
    pub begin_year: u16,
    /// `begin_date`
    pub begin_data: String,
    /// `end_date_year`
    pub end_year: u16,
    /// `end_date`
    pub end_data: String,
}

/// A track.
#[derive(Clone, Debug, PartialEq)]
pub struct Track {
    /// `track_id`
    pub id: u32,
    /// `track_name`
    pub name: String,
    /// `track_rating`
    pub rating: u32,
    /// `num_favourite`
    pub number_mal_added_to_favourite_by_music_match_users: u32,
    /// `commontrack_id`
    pub common_track_id: u32,
    /// `instrumental`
    pub is_instrumental: bool,
    /// `explicit`
    pub is_explicit: bool,
    /// `has_lyrics`
    pub has_lyrics: bool,
    /// `has_subtitles`
    pub has_subtitles: bool,
    /// `has_richsync`
    pub has_richsync: bool,
    /// `album_id`
    pub album_id: u32,
    /// `album_name`
    pub album_name: String,
    /// `artist_id`
    pub artist_id: u32,
    /// `artist_name`
    pub artist_name: String,
    /// `track_share_url`
    pub share_url: String,
    /// `track_edit_url`
    pub edit_url: String,
    /// `restricted`
    pub is_restricted: bool,
    /// `updated_time`
    pub updated_time: String,
    /// `primary_genres`
    pub genres: Vec<Genre>,
    /// `track_name_translation_list`
    pub translated_names: Vec<Translation>,
}

/// A music genre.
#[derive(Clone, Debug, PartialEq)]
pub struct Genre {
    /// `music_genre_id`
    pub id: u32,
    /// `music_genre_parent_id`
    pub parent_id: u32,
    /// `music_genre_name`
    pub name: String,
    /// `music_genre_name_extended`
    pub name_extended: String,
    /// `music_genre_vanity`
    pub vanity: String,
}

/// The lyrics of a track.
#[derive(Clone, Debug, PartialEq)]
pub struct Lyrics {
    /// `lyrics_id`
    pub id: u32,
    /// `restricted`
    pub is_restricted: bool,
    /// `instrumental`
    pub is_instrumental: bool,
    /// `explicit`
    pub is_explicit: bool,
    /// `lyrics_body`
    pub lyrics: String,
    /// `lyrics_language`
    pub language: String,
    /// `script_tracking_url`
    pub script_tracking_url: String,
    /// `pixel_tracking_url`
    pub pixel_tracking_url: String,
    /// `lyrics_copyright`
    pub copyright: String,
    /// `backlink_url`
    pub backlink_url: String,
    /// `updated_time`
    pub updated_time: String,
}

/// A snippet of lyrics.
#[derive(Clone, Debug, PartialEq)]
pub struct Snippet {
    /// `snippet_language`
    pub language: String,
    /// `snippet_id`
    pub id: u32,
    /// `restricted`
    pub is_restricted: bool,
    /// `instrumental`
    pub is_instrumental: bool,
    /// `snippet_body`
    pub snippet_body: String,
    /// `script_tracking_url`
    pub script_tracking_url: String,
    /// `pixel_tracking_url`
    pub pixel_tracking_url: String,
    /// `html_tracking_url`
    pub html_tracking_url: String,
    /// `updated_time`
    pub updated_time: String,
}

/// The subtitles of a track.
#[derive(Clone, Debug, PartialEq)]
pub struct Subtitle {
    /// `subtitle_id`
    pub subtitle_id: u32,
    /// `restricted`
    pub is_restricted: bool,
    /// `subtitle_body`
    pub subtitle_body: String,
    /// `subtitle_language`
    pub subtitle_language: String,
    /// `script_tracking_url`
    pub script_tracking_url: String,
    /// `pixel_tracking_url`
    pub pixel_tracking_url: String,
    /// `html_tracking_url`
    pub html_tracking_url: String,
    /// `lyrics_copyright`
    pub lyrics_copyright: String,
}

/// An album.
#[derive(Clone, Debug, PartialEq)]
pub struct Album {
    /// `album_id`
    pub id: u32,
    /// `album_mbid`
    pub music_brainz_identifier: Option<String>,
    /// `album_name`
    pub name: String,
    /// `album_rating`
    pub rating: u32,
    /// `album_release_date`
    pub release_date: String,
    /// `artist_id`
    pub artist_id: u32,
    /// `artist_name`
    pub artist_name: String,
    /// `album_pline`
    pub album_pline: String,
    /// `album_copyright`
    pub album_copyright: String,
    /// `album_label`
    pub album_label: String,
    /// `primary_genres`
    pub genres: Vec<Genre>,
    /// `restricted`
    pub is_restricted: bool,
    /// `external_ids`
    pub external_identities: ExternalIdentities,
    /// `updated_time`
    pub updated_time: String,
}

/// Identifiers of an album in other catalogues.
#[derive(Clone, Debug, PartialEq)]
pub struct ExternalIdentities {
    /// `spotify`
    pub spotify: Vec<String>,
    /// `itunes`
    pub itunes: Vec<String>,
    /// `amazon_music`
    pub amazon_music: Vec<String>,
}

} // verus!
