//! A typed client core for the Musixmatch music-metadata REST API.
//!
//! The library holds what a request and its answer are made of, with every
//! piece proved against its contract: the enumerated tokens that some
//! parameters take, a map of named query parameters and the fluent builder
//! for track searches over it, the form encoding of a query string with its
//! inverse, the construction of an authenticated request target, and the
//! decision that turns what came back into a delivered payload, a reported
//! application error or a hard failure.

pub mod builder;
pub mod form;
pub mod params;
pub mod pipeline;
pub mod records;
pub mod text;
pub mod tokens;

pub use builder::TrackSearchQuery;
pub use params::ParameterMap;
pub use pipeline::{resolve, ApiConfig, ApiError, Reply, Resolution};
pub use records::{
    Album, Artist, ExternalIdentities, Genre, Lyrics, Snippet, Subtitle, Track, Translation,
};
pub use tokens::{Chart, SortBy, SubtitleFormat};
