//! The scrape orchestrator: pairs a transport outcome — an HTTP status code
//! and an optional response body — with the matching extractor. Success
//! delegates to the extractor, a plain miss becomes `NotFound` with the
//! requested identifier, and any other status a `TransportError`. The
//! transport call itself lives outside the core.
use vstd::prelude::*;
use vstd::string::*;

use crate::entities::{Anime, AnimeDetails, Episode, SearchResult};
use crate::errors::{ErrorV, ExtractionError};
use crate::extract::{
    details_post, episode_post, list_post, parse_anime_details, parse_anime_list, parse_episode,
    parse_search_result, search_post,
};
use crate::text::{dec_str, usize_to_string};

verus! {

/// The status the orchestrator takes as success.
pub const STATUS_OK: u16 = 200;

/// The status the orchestrator takes as a plain miss.
pub const STATUS_NOT_FOUND: u16 = 404;

/// Scrapes one catalog page from a transport outcome; the requested page
/// number is the identifier a miss reports.
pub fn scrape_anime_list(page: usize, status: u16, body: Option<&str>) -> (r: Result<
    Vec<Anime>,
    ExtractionError,
>)
    ensures
        status == STATUS_OK ==> (body matches Some(b) ==> list_post(b@, r)),
        status == STATUS_OK && body is None ==> (r matches Err(e) && e@
            == ErrorV::StructuralError("response body"@)),
        status == STATUS_NOT_FOUND ==> (r matches Err(e) && e@ == ErrorV::NotFound(
            dec_str(page as int),
        )),
        status != STATUS_OK && status != STATUS_NOT_FOUND ==> (r matches Err(e) && e@
            == ErrorV::TransportError(status)),
{
    if status == STATUS_OK {
        match body {
            Some(b) => parse_anime_list(b),
            None => Err(ExtractionError::StructuralError("response body".to_owned())),
        }
    } else if status == STATUS_NOT_FOUND {
        Err(ExtractionError::NotFound(usize_to_string(page)))
    } else {
        Err(ExtractionError::TransportError(status))
    }
}

/// Scrapes a search response from a transport outcome; the query text is the
/// identifier a miss reports.
pub fn scrape_search(query: &str, status: u16, body: Option<&str>) -> (r: Result<
    Vec<SearchResult>,
    ExtractionError,
>)
    ensures
        status == STATUS_OK ==> (body matches Some(b) ==> search_post(b@, r)),
        status == STATUS_OK && body is None ==> (r matches Err(e) && e@
            == ErrorV::StructuralError("response body"@)),
        status == STATUS_NOT_FOUND ==> (r matches Err(e) && e@ == ErrorV::NotFound(query@)),
        status != STATUS_OK && status != STATUS_NOT_FOUND ==> (r matches Err(e) && e@
            == ErrorV::TransportError(status)),
{
    if status == STATUS_OK {
        match body {
            Some(b) => parse_search_result(b),
            None => Err(ExtractionError::StructuralError("response body".to_owned())),
        }
    } else if status == STATUS_NOT_FOUND {
        Err(ExtractionError::NotFound(query.to_owned()))
    } else {
        Err(ExtractionError::TransportError(status))
    }
}

/// Scrapes a title's details from a transport outcome; the requested slug is
/// the identifier a miss reports.
pub fn scrape_anime_details(slug: &str, status: u16, body: Option<&str>) -> (r: Result<
    AnimeDetails,
    ExtractionError,
>)
    ensures
        status == STATUS_OK ==> (body matches Some(b) ==> details_post(b@, r)),
        status == STATUS_OK && body is None ==> (r matches Err(e) && e@
            == ErrorV::StructuralError("response body"@)),
        status == STATUS_NOT_FOUND ==> (r matches Err(e) && e@ == ErrorV::NotFound(slug@)),
        status != STATUS_OK && status != STATUS_NOT_FOUND ==> (r matches Err(e) && e@
            == ErrorV::TransportError(status)),
{
    if status == STATUS_OK {
        match body {
            Some(b) => parse_anime_details(b),
            None => Err(ExtractionError::StructuralError("response body".to_owned())),
        }
    } else if status == STATUS_NOT_FOUND {
        Err(ExtractionError::NotFound(slug.to_owned()))
    } else {
        Err(ExtractionError::TransportError(status))
    }
}

/// Scrapes an episode's providers from a transport outcome; the requested
/// title slug is the identifier a miss reports.
pub fn scrape_episode(slug: &str, status: u16, body: Option<&str>) -> (r: Result<
    Episode,
    ExtractionError,
>)
    ensures
        status == STATUS_OK ==> (body matches Some(b) ==> episode_post(b@, r)),
        status == STATUS_OK && body is None ==> (r matches Err(e) && e@
            == ErrorV::StructuralError("response body"@)),
        status == STATUS_NOT_FOUND ==> (r matches Err(e) && e@ == ErrorV::NotFound(slug@)),
        status != STATUS_OK && status != STATUS_NOT_FOUND ==> (r matches Err(e) && e@
            == ErrorV::TransportError(status)),
{
    if status == STATUS_OK {
        match body {
            Some(b) => parse_episode(b),
            None => Err(ExtractionError::StructuralError("response body".to_owned())),
        }
    } else if status == STATUS_NOT_FOUND {
        Err(ExtractionError::NotFound(slug.to_owned()))
    } else {
        Err(ExtractionError::TransportError(status))
    }
}

} // verus!
