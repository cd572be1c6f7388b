use enjoi::entities::{Anime, AnimeDetails, Episode, SearchResult};
use enjoi::errors::ExtractionError;
use enjoi::extract::{parse_anime_details, parse_anime_list, parse_episode, parse_search_result};

const LIST_FIXTURE: &str = r##"<html><body><ul class="listing">
<li><a href="/category/one-piece">One Piece</a></li>
<li><a href="/category/fullmetal-alchemist">Fullmetal Alchemist</a></li>
</ul></body></html>"##;

const DETAILS_FIXTURE: &str = r##"<html><body>
<input id="movie_id" type="hidden" value="142"/>
<input id="default_ep" type="hidden" value="0"/>
<div class="anime_info_body_bg">
<img src="https://img.example/cover.png"/>
<h1>Great Show</h1>
<p class="type"><span>Type: </span>TV Series</p>
<p class="other"><span>Language: </span>Subbed</p>
<p class="type"><span>Plot Summary: </span>A fine tale.</p>
<p class="type"><span>Genre: </span><a href="/genre/action" title="Action">Action</a><a href="/genre/comedy" title="Comedy">Comedy</a></p>
<p class="type"><span>Released: </span>2004</p>
</div>
<ul id="episode_page">
<li><a href="#" ep_start="0" ep_end="100">0-100</a></li>
<li><a href="#" ep_start="100" ep_end="142">100-142</a></li>
</ul>
</body></html>"##;

const EPISODE_FIXTURE: &str = r##"<html><body><div class="anime_muti_link"><ul>
<li class="vidcdn"><a href="#" data-video="https://v1.example/embed">VidCDN</a></li>
<li class="streamsb"><a href="#" data-video="https://v2.example/embed">StreamSB</a></li>
</ul></div></body></html>"##;

const SEARCH_FIXTURE: &str = r##"{"content":"<a href=\"\/anime\/naruto\"><div style=\"background: url('https:\/\/img.example\/naruto.png')\"><\/div>Naruto<\/a>"}"##;

#[test]
fn test_parse_anime_list() {
    let entries = parse_anime_list(LIST_FIXTURE).unwrap();
    assert_eq!(
        entries,
        vec![
            Anime { slug: "one-piece".to_string(), title: "One Piece".to_string() },
            Anime {
                slug: "fullmetal-alchemist".to_string(),
                title: "Fullmetal Alchemist".to_string(),
            },
        ]
    );
}

#[test]
fn test_parse_anime_details() {
    let details = parse_anime_details(DETAILS_FIXTURE).unwrap();
    assert_eq!(
        details,
        AnimeDetails {
            id: 142,
            title: "Great Show".to_string(),
            cover_image_url: "https://img.example/cover.png".to_string(),
            summary: "A fine tale.".to_string(),
            genres: vec!["Action".to_string(), "Comedy".to_string()],
            release_year: 2004,
            default_episode: 0,
            episode_count: 142,
        }
    );
}

#[test]
fn test_parse_episode() {
    let episode = parse_episode(EPISODE_FIXTURE).unwrap();
    assert_eq!(
        episode,
        Episode {
            providers: vec![
                ("vidcdn".to_string(), "https://v1.example/embed".to_string()),
                ("streamsb".to_string(), "https://v2.example/embed".to_string()),
            ],
        }
    );
}

#[test]
fn test_search_result() {
    let hits = parse_search_result(SEARCH_FIXTURE).unwrap();
    assert_eq!(
        hits,
        vec![SearchResult {
            slug: "naruto".to_string(),
            title: "Naruto".to_string(),
            cover_image_url: "https://img.example/naruto.png".to_string(),
        }]
    );
}

#[test]
fn test_empty_document_yields_empty_list() {
    let entries = parse_anime_list("<html><body></body></html>").unwrap();
    assert_eq!(entries, Vec::<Anime>::new());
}

#[test]
fn test_catalog_missing_href() {
    let html = r##"<html><body><ul class="listing"><li><a>No Link</a></li></ul></body></html>"##;
    assert_eq!(
        parse_anime_list(html),
        Err(ExtractionError::MissingAttribute("slug".to_string(), "href".to_string()))
    );
}

#[test]
fn test_catalog_short_href() {
    let html = r##"<html><body><ul class="listing"><li><a href="/x">Short</a></li></ul></body></html>"##;
    assert_eq!(parse_anime_list(html), Err(ExtractionError::StructuralError("href".to_string())));
}

#[test]
fn test_details_missing_id() {
    let html = DETAILS_FIXTURE.replace(r##"<input id="movie_id" type="hidden" value="142"/>"##, "");
    assert_eq!(
        parse_anime_details(&html),
        Err(ExtractionError::MissingElement("id".to_string()))
    );
}

#[test]
fn test_details_invalid_id() {
    let html = DETAILS_FIXTURE.replace(
        r##"<input id="movie_id" type="hidden" value="142"/>"##,
        r##"<input id="movie_id" type="hidden" value="abc"/>"##,
    );
    assert_eq!(
        parse_anime_details(&html),
        Err(ExtractionError::InvalidNumber("id".to_string()))
    );
}

#[test]
fn test_details_id_missing_value_attribute() {
    let html = DETAILS_FIXTURE.replace(
        r##"<input id="movie_id" type="hidden" value="142"/>"##,
        r##"<input id="movie_id" type="hidden"/>"##,
    );
    assert_eq!(
        parse_anime_details(&html),
        Err(ExtractionError::MissingAttribute("id".to_string(), "value".to_string()))
    );
}

#[test]
fn test_details_genre_missing_title() {
    let html = DETAILS_FIXTURE.replace(
        r##"<a href="/genre/comedy" title="Comedy">Comedy</a>"##,
        r##"<a href="/genre/comedy">Comedy</a>"##,
    );
    assert_eq!(
        parse_anime_details(&html),
        Err(ExtractionError::MissingAttribute("genres".to_string(), "title".to_string()))
    );
}

#[test]
fn test_details_no_episode_pages() {
    let html = DETAILS_FIXTURE
        .replace(r##"<li><a href="#" ep_start="0" ep_end="100">0-100</a></li>"##, "")
        .replace(r##"<li><a href="#" ep_start="100" ep_end="142">100-142</a></li>"##, "");
    assert_eq!(
        parse_anime_details(&html),
        Err(ExtractionError::MissingElement("episode pages".to_string()))
    );
}

#[test]
fn test_details_invalid_ep_end() {
    let html = DETAILS_FIXTURE.replace(r##"ep_end="142""##, r##"ep_end="many""##);
    assert_eq!(
        parse_anime_details(&html),
        Err(ExtractionError::InvalidNumber("ep_end".to_string()))
    );
}

#[test]
fn test_episode_missing_anchor() {
    let html = r##"<html><body><div class="anime_muti_link"><ul>
<li class="vidcdn">no anchor</li>
</ul></div></body></html>"##;
    assert_eq!(
        parse_episode(html),
        Err(ExtractionError::MissingElement("provider link".to_string()))
    );
}

#[test]
fn test_episode_missing_data_video() {
    let html = r##"<html><body><div class="anime_muti_link"><ul>
<li class="vidcdn"><a href="#">VidCDN</a></li>
</ul></div></body></html>"##;
    assert_eq!(
        parse_episode(html),
        Err(ExtractionError::MissingAttribute(
            "provider link".to_string(),
            "data-video".to_string()
        ))
    );
}

#[test]
fn test_episode_missing_class() {
    let html = r##"<html><body><div class="anime_muti_link"><ul>
<li><a href="#" data-video="https://v1.example/embed">VidCDN</a></li>
</ul></div></body></html>"##;
    assert_eq!(
        parse_episode(html),
        Err(ExtractionError::MissingAttribute("provider".to_string(), "class".to_string()))
    );
}

#[test]
fn test_episode_first_class_token_wins() {
    let html = r##"<html><body><div class="anime_muti_link"><ul>
<li class="vidcdn active"><a href="#" data-video="https://v1.example/embed">VidCDN</a></li>
</ul></div></body></html>"##;
    let episode = parse_episode(html).unwrap();
    assert_eq!(episode.providers[0].0, "vidcdn".to_string());
}

#[test]
fn test_search_envelope_too_short() {
    assert_eq!(
        parse_search_result("short"),
        Err(ExtractionError::StructuralError("search envelope".to_string()))
    );
}

#[test]
fn test_search_missing_cover_child() {
    let json = r##"{"content":"<a href=\"\/anime\/naruto\">Naruto<\/a>"}"##;
    assert_eq!(
        parse_search_result(json),
        Err(ExtractionError::MissingElement("cover image".to_string()))
    );
}

#[test]
fn test_search_keeps_document_order() {
    let json = r##"{"content":"<a href=\"\/anime\/first\"><div style=\"background: url('https:\/\/img.example\/a.png')\"><\/div>First<\/a><a href=\"\/anime\/second\"><div style=\"background: url('https:\/\/img.example\/b.png')\"><\/div>Second<\/a>"}"##;
    let hits = parse_search_result(json).unwrap();
    assert_eq!(hits.len(), 2);
    assert_eq!(hits[0].slug, "first".to_string());
    assert_eq!(hits[1].slug, "second".to_string());
}
