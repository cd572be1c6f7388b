use enjoi::entities::Anime;
use enjoi::errors::ExtractionError;
use enjoi::scrape::{scrape_anime_details, scrape_anime_list, scrape_episode, scrape_search};

const LIST_FIXTURE: &str = r#"<html><body><ul class="listing">
<li><a href="/category/one-piece">One Piece</a></li>
</ul></body></html>"#;

#[test]
fn test_scrape_details_not_found() {
    assert_eq!(
        scrape_anime_details("nonexistent-title", 404, None),
        Err(ExtractionError::NotFound("nonexistent-title".to_string()))
    );
}

#[test]
fn test_scrape_details_transport_error() {
    assert_eq!(
        scrape_anime_details("some-title", 500, None),
        Err(ExtractionError::TransportError(500))
    );
}

#[test]
fn test_scrape_list_delegates_on_success() {
    let entries = scrape_anime_list(1, 200, Some(LIST_FIXTURE)).unwrap();
    assert_eq!(
        entries,
        vec![Anime { slug: "one-piece".to_string(), title: "One Piece".to_string() }]
    );
}

#[test]
fn test_scrape_list_not_found_reports_page() {
    assert_eq!(scrape_anime_list(37, 404, None), Err(ExtractionError::NotFound("37".to_string())));
}

#[test]
fn test_scrape_list_missing_body() {
    assert_eq!(
        scrape_anime_list(1, 200, None),
        Err(ExtractionError::StructuralError("response body".to_string()))
    );
}

#[test]
fn test_scrape_search_not_found_reports_query() {
    assert_eq!(
        scrape_search("naruto", 404, None),
        Err(ExtractionError::NotFound("naruto".to_string()))
    );
}

#[test]
fn test_scrape_episode_statuses() {
    assert_eq!(
        scrape_episode("one-piece", 404, None),
        Err(ExtractionError::NotFound("one-piece".to_string()))
    );
    assert_eq!(
        scrape_episode("one-piece", 503, None),
        Err(ExtractionError::TransportError(503))
    );
}
