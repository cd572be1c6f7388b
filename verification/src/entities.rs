//! The typed entities the extractors produce: immutable value objects,
//! constructed only on a fully successful extraction.
use vstd::prelude::*;

verus! {

/// One row of the catalog listing.
#[derive(Debug, PartialEq, Eq)]
pub struct Anime {
    pub slug: String,
    pub title: String,
}

/// The mathematical image of an `Anime`.
pub struct AnimeV {
    pub slug: Seq<char>,
    pub title: Seq<char>,
}

impl View for Anime {
    type V = AnimeV;

    open spec fn view(&self) -> AnimeV {
        AnimeV { slug: self.slug@, title: self.title@ }
    }
}

/// One row of a search response.
#[derive(Debug, PartialEq, Eq)]
pub struct SearchResult {
    pub slug: String,
    pub title: String,
    pub cover_image_url: String,
}

/// The mathematical image of a `SearchResult`.
pub struct SearchResultV {
    pub slug: Seq<char>,
    pub title: Seq<char>,
    pub cover_image_url: Seq<char>,
}

impl View for SearchResult {
    type V = SearchResultV;

    open spec fn view(&self) -> SearchResultV {
        SearchResultV {
            slug: self.slug@,
            title: self.title@,
            cover_image_url: self.cover_image_url@,
        }
    }
}

/// Everything a title's detail page states about it.
#[derive(Debug, PartialEq, Eq)]
pub struct AnimeDetails {
    pub id: usize,
    pub title: String,
    pub cover_image_url: String,
    pub summary: String,
    pub genres: Vec<String>,
    pub release_year: usize,
    pub default_episode: usize,
    pub episode_count: usize,
}

/// The mathematical image of an `AnimeDetails`.
pub struct AnimeDetailsV {
    pub id: int,
    pub title: Seq<char>,
    pub cover_image_url: Seq<char>,
    pub summary: Seq<char>,
    pub genres: Seq<Seq<char>>,
    pub release_year: int,
    pub default_episode: int,
    pub episode_count: int,
}

impl View for AnimeDetails {
    type V = AnimeDetailsV;

    open spec fn view(&self) -> AnimeDetailsV {
        AnimeDetailsV {
            id: self.id as int,
            title: self.title@,
            cover_image_url: self.cover_image_url@,
            summary: self.summary@,
            genres: self.genres@.map_values(|g: String| g@),
            release_year: self.release_year as int,
            default_episode: self.default_episode as int,
            episode_count: self.episode_count as int,
        }
    }
}

/// The video providers an episode page offers, in document order.
#[derive(Debug, PartialEq, Eq)]
pub struct Episode {
    pub providers: Vec<(String, String)>,
}

/// The mathematical image of an `Episode`: `(provider identifier, video
/// URL)` pairs in document order.
pub struct EpisodeV {
    pub providers: Seq<(Seq<char>, Seq<char>)>,
}

impl View for Episode {
    type V = EpisodeV;

    open spec fn view(&self) -> EpisodeV {
        EpisodeV { providers: self.providers@.map_values(|p: (String, String)| (p.0@, p.1@)) }
    }
}

} // verus!
