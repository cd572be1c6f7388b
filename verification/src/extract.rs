//! The extractors: pure functions from raw markup to one typed entity or a
//! tagged failure. Repeated fields are all-or-nothing: the first failing
//! item fails the whole extraction.
use vstd::prelude::*;
use vstd::string::*;

use crate::codec::{unwrap_envelope_v, unwrap_search_envelope};
use crate::collect::{
    lemma_map_all_err_persists, lemma_map_all_index, lemma_map_all_len, lemma_map_all_step,
    map_all,
};
use crate::document::{
    doc_select, frag_select, select_document, select_fragment, selector_ok, SEL_CATALOG_ANCHORS,
    SEL_DETAIL_COVER, SEL_DETAIL_DEFAULT_EP, SEL_DETAIL_EPISODE_PAGES, SEL_DETAIL_GENRES,
    SEL_DETAIL_ID, SEL_DETAIL_RELEASED, SEL_DETAIL_SUMMARY, SEL_DETAIL_TITLE, SEL_FRAGMENT_ANCHORS,
    SEL_PROVIDER_ITEMS,
};
use crate::dom::{attr_of, child_with_tag, elem_views, find_child, get_attr, Elem, ElemV};
use crate::entities::{
    Anime, AnimeDetails, AnimeDetailsV, AnimeV, Episode, EpisodeV, SearchResult, SearchResultV,
};
use crate::errors::{ErrorV, ExtractionError};
use crate::text::{
    dec_val, first_token, first_token_str, join_skip_first, last_path_segment, last_segment,
    parse_usize, parses_to_usize, tail_concat,
};

verus! {

/// How many characters the catalog strips from the front of each anchor's
/// `href` to obtain the slug: the length of its fixed `/category/` prefix.
/// The prefix is assumed, not verified.
pub const CATALOG_PREFIX_LEN: usize = 10;

/// Where the cover image URL starts inside a search anchor's `style`
/// attribute value: past its fixed wrapper prefix.
pub const STYLE_URL_OFFSET: usize = 17;

/// How many characters of the wrapper trail the cover image URL inside a
/// search anchor's `style` attribute value.
pub const STYLE_URL_TRAIL: usize = 2;

// ---------------------------------------------------------------------------
// Catalog list
// ---------------------------------------------------------------------------
/// The catalog entry an anchor yields: the anchor's inner markup is the
/// title; its `href`, with the fixed-length catalog prefix dropped, is the
/// slug. An `href` shorter than the prefix is a structural failure.
pub open spec fn catalog_entry_v(e: ElemV) -> Result<AnimeV, ErrorV> {
    match attr_of(e.attrs, "href"@) {
        None => Err(ErrorV::MissingAttribute("slug"@, "href"@)),
        Some(href) => if href.len() >= CATALOG_PREFIX_LEN {
            Ok(AnimeV { slug: href.skip(CATALOG_PREFIX_LEN as int), title: e.inner_html })
        } else {
            Err(ErrorV::StructuralError("href"@))
        },
    }
}

/// The whole catalog listing, first failure first.
pub open spec fn catalog_v(es: Seq<ElemV>) -> Result<Seq<AnimeV>, ErrorV> {
    map_all(es, |e: ElemV| catalog_entry_v(e))
}

fn catalog_entry(e: &Elem) -> (r: Result<Anime, ExtractionError>)
    ensures
        r matches Ok(a) ==> catalog_entry_v(e@) == Ok::<AnimeV, ErrorV>(a@),
        r matches Err(err) ==> catalog_entry_v(e@) matches Err(ev) && err@ == ev,
{
    match get_attr(&e.attrs, "href") {
        None => Err(
            ExtractionError::MissingAttribute("slug".to_owned(), "href".to_owned()),
        ),
        Some(href) => {
            let hn: usize = href.as_str().unicode_len();
            if hn >= CATALOG_PREFIX_LEN {
                let slug = href.as_str().substring_char(CATALOG_PREFIX_LEN, hn).to_owned();
                proof {
                    assert(href@.subrange(CATALOG_PREFIX_LEN as int, hn as int) =~= href@.skip(
                        CATALOG_PREFIX_LEN as int,
                    ));
                }
                Ok(Anime { slug, title: e.inner_html.clone() })
            } else {
                Err(ExtractionError::StructuralError("href".to_owned()))
            }
        },
    }
}

/// Extracts every catalog entry from the matched anchors, in document order.
pub fn anime_list_from_elems(elems: &Vec<Elem>) -> (r: Result<Vec<Anime>, ExtractionError>)
    ensures
        r matches Ok(v) ==> catalog_v(elem_views(elems@)) == Ok::<Seq<AnimeV>, ErrorV>(
            v@.map_values(|a: Anime| a@),
        ),
        r matches Err(e) ==> catalog_v(elem_views(elems@)) matches Err(ev) && e@ == ev,
{
    let ghost es = elem_views(elems@);
    let mut out: Vec<Anime> = Vec::new();
    proof {
        assert(es.take(0) =~= Seq::<ElemV>::empty());
        assert(out@.map_values(|a: Anime| a@) =~= Seq::<AnimeV>::empty());
    }
    let mut i: usize = 0;
    while i < elems.len()
        invariant
            i <= elems.len(),
            es == elem_views(elems@),
            catalog_v(es.take(i as int)) == Ok::<Seq<AnimeV>, ErrorV>(
                out@.map_values(|a: Anime| a@),
            ),
        decreases elems.len() - i,
    {
        let r = catalog_entry(&elems[i]);
        proof {
            lemma_map_all_step::<ElemV, AnimeV>(es, |e: ElemV| catalog_entry_v(e), i as int);
        }
        match r {
            Ok(a) => {
                let ghost prev = out@;
                out.push(a);
                proof {
                    assert(out@.map_values(|x: Anime| x@) =~= prev.map_values(
                        |x: Anime| x@,
                    ).push(a@));
                }
            },
            Err(e) => {
                proof {
                    lemma_map_all_err_persists::<ElemV, AnimeV>(
                        es,
                        |x: ElemV| catalog_entry_v(x),
                        i + 1,
                        es.len() as int,
                    );
                    assert(es.take(es.len() as int) =~= es);
                }
                return Err(e);
            },
        }
        i += 1;
    }
    proof {
        assert(es.take(es.len() as int) =~= es);
    }
    Ok(out)
}

/// Everything `parse_anime_list` promises of its result.
pub open spec fn list_post(html: Seq<char>, r: Result<Vec<Anime>, ExtractionError>) -> bool {
    if selector_ok(SEL_CATALOG_ANCHORS@) {
        match r {
            Ok(v) => catalog_v(doc_select(html, SEL_CATALOG_ANCHORS@)) == Ok::<
                Seq<AnimeV>,
                ErrorV,
            >(v@.map_values(|a: Anime| a@)),
            Err(e) => catalog_v(doc_select(html, SEL_CATALOG_ANCHORS@)) matches Err(ev) && e@
                == ev,
        }
    } else {
        r matches Err(e) && e@ == ErrorV::StructuralError("selector"@)
    }
}

/// Extracts the catalog listing from a catalog page.
pub fn parse_anime_list(html: &str) -> (r: Result<Vec<Anime>, ExtractionError>)
    ensures
        list_post(html@, r),
{
    match select_document(html, SEL_CATALOG_ANCHORS) {
        None => Err(ExtractionError::StructuralError("selector".to_owned())),
        Some(elems) => anime_list_from_elems(&elems),
    }
}

// ---------------------------------------------------------------------------
// Detail page
// ---------------------------------------------------------------------------
/// The title: the heading's first text node, or empty when the heading holds
/// no text at all.
pub open spec fn title_v(es: Seq<ElemV>) -> Result<Seq<char>, ErrorV> {
    if es.len() == 0 {
        Err(ErrorV::MissingElement("title"@))
    } else if es[0].texts.len() > 0 {
        Ok(es[0].texts[0])
    } else {
        Ok(Seq::empty())
    }
}

/// A numeric value carried by a hidden input's `value` attribute.
pub open spec fn hidden_input_v(es: Seq<ElemV>, field: Seq<char>) -> Result<int, ErrorV> {
    if es.len() == 0 {
        Err(ErrorV::MissingElement(field))
    } else {
        match attr_of(es[0].attrs, "value"@) {
            None => Err(ErrorV::MissingAttribute(field, "value"@)),
            Some(v) => if parses_to_usize(v) {
                Ok(dec_val(v))
            } else {
                Err(ErrorV::InvalidNumber(field))
            },
        }
    }
}

/// The cover image URL: the matched image's `src` attribute.
pub open spec fn cover_v(es: Seq<ElemV>) -> Result<Seq<char>, ErrorV> {
    if es.len() == 0 {
        Err(ErrorV::MissingElement("cover image"@))
    } else {
        match attr_of(es[0].attrs, "src"@) {
            None => Err(ErrorV::MissingAttribute("cover image"@, "src"@)),
            Some(src) => Ok(src),
        }
    }
}

/// The summary: the paragraph's text with the first child's text (its
/// caption) skipped.
pub open spec fn summary_v(es: Seq<ElemV>) -> Result<Seq<char>, ErrorV> {
    if es.len() == 0 {
        Err(ErrorV::MissingElement("summary"@))
    } else {
        Ok(tail_concat(es[0].texts))
    }
}

/// One genre: the anchor's `title` attribute.
pub open spec fn genre_v(e: ElemV) -> Result<Seq<char>, ErrorV> {
    match attr_of(e.attrs, "title"@) {
        None => Err(ErrorV::MissingAttribute("genres"@, "title"@)),
        Some(t) => Ok(t),
    }
}

/// All genres in document order, first failure first.
pub open spec fn genres_v(es: Seq<ElemV>) -> Result<Seq<Seq<char>>, ErrorV> {
    map_all(es, |e: ElemV| genre_v(e))
}

/// The release year: the paragraph's text with its caption skipped, parsed
/// as a number.
pub open spec fn release_year_v(es: Seq<ElemV>) -> Result<int, ErrorV> {
    if es.len() == 0 {
        Err(ErrorV::MissingElement("release year"@))
    } else if parses_to_usize(tail_concat(es[0].texts)) {
        Ok(dec_val(tail_concat(es[0].texts)))
    } else {
        Err(ErrorV::InvalidNumber("release year"@))
    }
}

/// One episode range: a pagination anchor's `ep_start` and `ep_end`
/// attributes, both numeric.
pub open spec fn page_range_v(e: ElemV) -> Result<(int, int), ErrorV> {
    match attr_of(e.attrs, "ep_start"@) {
        None => Err(ErrorV::MissingAttribute("episode pages"@, "ep_start"@)),
        Some(s) => if !parses_to_usize(s) {
            Err(ErrorV::InvalidNumber("ep_start"@))
        } else {
            match attr_of(e.attrs, "ep_end"@) {
                None => Err(ErrorV::MissingAttribute("episode pages"@, "ep_end"@)),
                Some(t) => if !parses_to_usize(t) {
                    Err(ErrorV::InvalidNumber("ep_end"@))
                } else {
                    Ok((dec_val(s), dec_val(t)))
                },
            }
        },
    }
}

/// All episode ranges in document order, first failure first.
pub open spec fn page_ranges_v(es: Seq<ElemV>) -> Result<Seq<(int, int)>, ErrorV> {
    map_all(es, |e: ElemV| page_range_v(e))
}

/// The detail entity assembled from the eight independent field queries, in
/// the order the fields are extracted; the episode count is the range-end of
/// the last pagination anchor, and no pagination anchor at all is a missing
/// element.
pub open spec fn details_v(
    ts: Seq<ElemV>,
    ids: Seq<ElemV>,
    cs: Seq<ElemV>,
    ss: Seq<ElemV>,
    gs: Seq<ElemV>,
    ys: Seq<ElemV>,
    ds: Seq<ElemV>,
    ps: Seq<ElemV>,
) -> Result<AnimeDetailsV, ErrorV> {
    match title_v(ts) {
        Err(e) => Err(e),
        Ok(title) => match hidden_input_v(ids, "id"@) {
            Err(e) => Err(e),
            Ok(id) => match cover_v(cs) {
                Err(e) => Err(e),
                Ok(cover) => match summary_v(ss) {
                    Err(e) => Err(e),
                    Ok(summary) => match genres_v(gs) {
                        Err(e) => Err(e),
                        Ok(genres) => match release_year_v(ys) {
                            Err(e) => Err(e),
                            Ok(year) => match hidden_input_v(ds, "default episode"@) {
                                Err(e) => Err(e),
                                Ok(dep) => match page_ranges_v(ps) {
                                    Err(e) => Err(e),
                                    Ok(pages) => if pages.len() == 0 {
                                        Err(ErrorV::MissingElement("episode pages"@))
                                    } else {
                                        Ok(
                                            AnimeDetailsV {
                                                id: id,
                                                title: title,
                                                cover_image_url: cover,
                                                summary: summary,
                                                genres: genres,
                                                release_year: year,
                                                default_episode: dep,
                                                episode_count: pages.last().1,
                                            },
                                        )
                                    },
                                },
                            },
                        },
                    },
                },
            },
        },
    }
}

fn extract_title(es: &Vec<Elem>) -> (r: Result<String, ExtractionError>)
    ensures
        r matches Ok(t) ==> title_v(elem_views(es@)) == Ok::<Seq<char>, ErrorV>(t@),
        r matches Err(e) ==> title_v(elem_views(es@)) matches Err(ev) && e@ == ev,
{
    if es.len() == 0 {
        return Err(ExtractionError::MissingElement("title".to_owned()));
    }
    if es[0].texts.len() > 0 {
        Ok(es[0].texts[0].clone())
    } else {
        let r = String::new();
        proof {
            assert(r@ =~= Seq::<char>::empty());
        }
        Ok(r)
    }
}

fn extract_hidden_input(es: &Vec<Elem>, field: &str) -> (r: Result<usize, ExtractionError>)
    ensures
        r matches Ok(v) ==> hidden_input_v(elem_views(es@), field@) == Ok::<int, ErrorV>(v as int),
        r matches Err(e) ==> hidden_input_v(elem_views(es@), field@) matches Err(ev) && e@ == ev,
{
    if es.len() == 0 {
        return Err(ExtractionError::MissingElement(field.to_owned()));
    }
    match get_attr(&es[0].attrs, "value") {
        None => Err(ExtractionError::MissingAttribute(field.to_owned(), "value".to_owned())),
        Some(v) => match parse_usize(v.as_str()) {
            Some(n) => Ok(n),
            None => Err(ExtractionError::InvalidNumber(field.to_owned())),
        },
    }
}

fn extract_cover(es: &Vec<Elem>) -> (r: Result<String, ExtractionError>)
    ensures
        r matches Ok(c) ==> cover_v(elem_views(es@)) == Ok::<Seq<char>, ErrorV>(c@),
        r matches Err(e) ==> cover_v(elem_views(es@)) matches Err(ev) && e@ == ev,
{
    if es.len() == 0 {
        return Err(ExtractionError::MissingElement("cover image".to_owned()));
    }
    match get_attr(&es[0].attrs, "src") {
        None => Err(
            ExtractionError::MissingAttribute("cover image".to_owned(), "src".to_owned()),
        ),
        Some(src) => Ok(src),
    }
}

fn extract_summary(es: &Vec<Elem>) -> (r: Result<String, ExtractionError>)
    ensures
        r matches Ok(s) ==> summary_v(elem_views(es@)) == Ok::<Seq<char>, ErrorV>(s@),
        r matches Err(e) ==> summary_v(elem_views(es@)) matches Err(ev) && e@ == ev,
{
    if es.len() == 0 {
        return Err(ExtractionError::MissingElement("summary".to_owned()));
    }
    Ok(join_skip_first(&es[0].texts))
}

fn extract_genres(es: &Vec<Elem>) -> (r: Result<Vec<String>, ExtractionError>)
    ensures
        r matches Ok(v) ==> genres_v(elem_views(es@)) == Ok::<Seq<Seq<char>>, ErrorV>(
            v@.map_values(|g: String| g@),
        ),
        r matches Err(e) ==> genres_v(elem_views(es@)) matches Err(ev) && e@ == ev,
{
    let ghost es_v = elem_views(es@);
    let mut out: Vec<String> = Vec::new();
    proof {
        assert(es_v.take(0) =~= Seq::<ElemV>::empty());
        assert(out@.map_values(|g: String| g@) =~= Seq::<Seq<char>>::empty());
    }
    let mut i: usize = 0;
    while i < es.len()
        invariant
            i <= es.len(),
            es_v == elem_views(es@),
            genres_v(es_v.take(i as int)) == Ok::<Seq<Seq<char>>, ErrorV>(
                out@.map_values(|g: String| g@),
            ),
        decreases es.len() - i,
    {
        proof {
            lemma_map_all_step::<ElemV, Seq<char>>(es_v, |e: ElemV| genre_v(e), i as int);
        }
        match get_attr(&es[i].attrs, "title") {
            None => {
                proof {
                    lemma_map_all_err_persists::<ElemV, Seq<char>>(
                        es_v,
                        |e: ElemV| genre_v(e),
                        i + 1,
                        es_v.len() as int,
                    );
                    assert(es_v.take(es_v.len() as int) =~= es_v);
                }
                return Err(
                    ExtractionError::MissingAttribute("genres".to_owned(), "title".to_owned()),
                );
            },
            Some(t) => {
                let ghost prev = out@;
                out.push(t);
                proof {
                    assert(out@.map_values(|g: String| g@) =~= prev.map_values(
                        |g: String| g@,
                    ).push(out@.last()@));
                }
            },
        }
        i += 1;
    }
    proof {
        assert(es_v.take(es_v.len() as int) =~= es_v);
    }
    Ok(out)
}

fn extract_release_year(es: &Vec<Elem>) -> (r: Result<usize, ExtractionError>)
    ensures
        r matches Ok(y) ==> release_year_v(elem_views(es@)) == Ok::<int, ErrorV>(y as int),
        r matches Err(e) ==> release_year_v(elem_views(es@)) matches Err(ev) && e@ == ev,
{
    if es.len() == 0 {
        return Err(ExtractionError::MissingElement("release year".to_owned()));
    }
    let joined = join_skip_first(&es[0].texts);
    match parse_usize(joined.as_str()) {
        Some(y) => Ok(y),
        None => Err(ExtractionError::InvalidNumber("release year".to_owned())),
    }
}

fn page_range(e: &Elem) -> (r: Result<(usize, usize), ExtractionError>)
    ensures
        r matches Ok(p) ==> page_range_v(e@) == Ok::<(int, int), ErrorV>((p.0 as int, p.1 as int)),
        r matches Err(err) ==> page_range_v(e@) matches Err(ev) && err@ == ev,
{
    let start = match get_attr(&e.attrs, "ep_start") {
        None => {
            return Err(
                ExtractionError::MissingAttribute("episode pages".to_owned(), "ep_start".to_owned()),
            );
        },
        Some(s) => match parse_usize(s.as_str()) {
            None => {
                return Err(ExtractionError::InvalidNumber("ep_start".to_owned()));
            },
            Some(n) => n,
        },
    };
    let end = match get_attr(&e.attrs, "ep_end") {
        None => {
            return Err(
                ExtractionError::MissingAttribute("episode pages".to_owned(), "ep_end".to_owned()),
            );
        },
        Some(s) => match parse_usize(s.as_str()) {
            None => {
                return Err(ExtractionError::InvalidNumber("ep_end".to_owned()));
            },
            Some(n) => n,
        },
    };
    Ok((start, end))
}

fn extract_page_ranges(es: &Vec<Elem>) -> (r: Result<Vec<(usize, usize)>, ExtractionError>)
    ensures
        r matches Ok(v) ==> page_ranges_v(elem_views(es@)) == Ok::<Seq<(int, int)>, ErrorV>(
            v@.map_values(|p: (usize, usize)| (p.0 as int, p.1 as int)),
        ),
        r matches Err(e) ==> page_ranges_v(elem_views(es@)) matches Err(ev) && e@ == ev,
{
    let ghost es_v = elem_views(es@);
    let mut out: Vec<(usize, usize)> = Vec::new();
    proof {
        assert(es_v.take(0) =~= Seq::<ElemV>::empty());
        assert(out@.map_values(|p: (usize, usize)| (p.0 as int, p.1 as int)) =~= Seq::<
            (int, int),
        >::empty());
    }
    let mut i: usize = 0;
    while i < es.len()
        invariant
            i <= es.len(),
            es_v == elem_views(es@),
            page_ranges_v(es_v.take(i as int)) == Ok::<Seq<(int, int)>, ErrorV>(
                out@.map_values(|p: (usize, usize)| (p.0 as int, p.1 as int)),
            ),
        decreases es.len() - i,
    {
        let r = page_range(&es[i]);
        proof {
            lemma_map_all_step::<ElemV, (int, int)>(es_v, |e: ElemV| page_range_v(e), i as int);
        }
        match r {
            Ok(p) => {
                let ghost prev = out@;
                out.push(p);
                proof {
                    assert(out@.map_values(|q: (usize, usize)| (q.0 as int, q.1 as int))
                        =~= prev.map_values(|q: (usize, usize)| (q.0 as int, q.1 as int)).push(
                        (p.0 as int, p.1 as int),
                    ));
                }
            },
            Err(e) => {
                proof {
                    lemma_map_all_err_persists::<ElemV, (int, int)>(
                        es_v,
                        |x: ElemV| page_range_v(x),
                        i + 1,
                        es_v.len() as int,
                    );
                    assert(es_v.take(es_v.len() as int) =~= es_v);
                }
                return Err(e);
            },
        }
        i += 1;
    }
    proof {
        assert(es_v.take(es_v.len() as int) =~= es_v);
    }
    Ok(out)
}

/// Assembles the detail entity from the eight field queries' matched
/// elements, failing on the first field that cannot be extracted.
pub fn details_from_elems(
    ts: &Vec<Elem>,
    ids: &Vec<Elem>,
    cs: &Vec<Elem>,
    ss: &Vec<Elem>,
    gs: &Vec<Elem>,
    ys: &Vec<Elem>,
    ds: &Vec<Elem>,
    ps: &Vec<Elem>,
) -> (r: Result<AnimeDetails, ExtractionError>)
    ensures
        r matches Ok(d) ==> details_v(
            elem_views(ts@),
            elem_views(ids@),
            elem_views(cs@),
            elem_views(ss@),
            elem_views(gs@),
            elem_views(ys@),
            elem_views(ds@),
            elem_views(ps@),
        ) == Ok::<AnimeDetailsV, ErrorV>(d@),
        r matches Err(e) ==> details_v(
            elem_views(ts@),
            elem_views(ids@),
            elem_views(cs@),
            elem_views(ss@),
            elem_views(gs@),
            elem_views(ys@),
            elem_views(ds@),
            elem_views(ps@),
        ) matches Err(ev) && e@ == ev,
{
    let title = match extract_title(ts) {
        Ok(t) => t,
        Err(e) => {
            return Err(e);
        },
    };
    let id = match extract_hidden_input(ids, "id") {
        Ok(v) => v,
        Err(e) => {
            return Err(e);
        },
    };
    let cover_image_url = match extract_cover(cs) {
        Ok(c) => c,
        Err(e) => {
            return Err(e);
        },
    };
    let summary = match extract_summary(ss) {
        Ok(s) => s,
        Err(e) => {
            return Err(e);
        },
    };
    let genres = match extract_genres(gs) {
        Ok(g) => g,
        Err(e) => {
            return Err(e);
        },
    };
    let release_year = match extract_release_year(ys) {
        Ok(y) => y,
        Err(e) => {
            return Err(e);
        },
    };
    let default_episode = match extract_hidden_input(ds, "default episode") {
        Ok(v) => v,
        Err(e) => {
            return Err(e);
        },
    };
    let pages = match extract_page_ranges(ps) {
        Ok(p) => p,
        Err(e) => {
            return Err(e);
        },
    };
    if pages.len() == 0 {
        proof {
            lemma_map_all_len::<ElemV, (int, int)>(elem_views(ps@), |e: ElemV| page_range_v(e));
        }
        return Err(ExtractionError::MissingElement("episode pages".to_owned()));
    }
    let episode_count = pages[pages.len() - 1].1;
    proof {
        lemma_map_all_len::<ElemV, (int, int)>(elem_views(ps@), |e: ElemV| page_range_v(e));
    }
    Ok(
        AnimeDetails {
            id,
            title,
            cover_image_url,
            summary,
            genres,
            release_year,
            default_episode,
            episode_count,
        },
    )
}

/// All eight detail-page selector literals compile.
pub open spec fn detail_selectors_ok() -> bool {
    selector_ok(SEL_DETAIL_TITLE@) && selector_ok(SEL_DETAIL_ID@) && selector_ok(SEL_DETAIL_COVER@)
        && selector_ok(SEL_DETAIL_SUMMARY@) && selector_ok(SEL_DETAIL_GENRES@) && selector_ok(
        SEL_DETAIL_RELEASED@,
    ) && selector_ok(SEL_DETAIL_DEFAULT_EP@) && selector_ok(SEL_DETAIL_EPISODE_PAGES@)
}

/// Everything `parse_anime_details` promises of its result.
pub open spec fn details_post(html: Seq<char>, r: Result<AnimeDetails, ExtractionError>) -> bool {
    if detail_selectors_ok() {
        match r {
            Ok(d) => details_v(
                doc_select(html, SEL_DETAIL_TITLE@),
                doc_select(html, SEL_DETAIL_ID@),
                doc_select(html, SEL_DETAIL_COVER@),
                doc_select(html, SEL_DETAIL_SUMMARY@),
                doc_select(html, SEL_DETAIL_GENRES@),
                doc_select(html, SEL_DETAIL_RELEASED@),
                doc_select(html, SEL_DETAIL_DEFAULT_EP@),
                doc_select(html, SEL_DETAIL_EPISODE_PAGES@),
            ) == Ok::<AnimeDetailsV, ErrorV>(d@),
            Err(e) => details_v(
                doc_select(html, SEL_DETAIL_TITLE@),
                doc_select(html, SEL_DETAIL_ID@),
                doc_select(html, SEL_DETAIL_COVER@),
                doc_select(html, SEL_DETAIL_SUMMARY@),
                doc_select(html, SEL_DETAIL_GENRES@),
                doc_select(html, SEL_DETAIL_RELEASED@),
                doc_select(html, SEL_DETAIL_DEFAULT_EP@),
                doc_select(html, SEL_DETAIL_EPISODE_PAGES@),
            ) matches Err(ev) && e@ == ev,
        }
    } else {
        r matches Err(e) && e@ == ErrorV::StructuralError("selector"@)
    }
}

/// Extracts a title's details from its detail page.
pub fn parse_anime_details(html: &str) -> (r: Result<AnimeDetails, ExtractionError>)
    ensures
        details_post(html@, r),
{
    let ts = match select_document(html, SEL_DETAIL_TITLE) {
        Some(v) => v,
        None => {
            return Err(ExtractionError::StructuralError("selector".to_owned()));
        },
    };
    let ids = match select_document(html, SEL_DETAIL_ID) {
        Some(v) => v,
        None => {
            return Err(ExtractionError::StructuralError("selector".to_owned()));
        },
    };
    let cs = match select_document(html, SEL_DETAIL_COVER) {
        Some(v) => v,
        None => {
            return Err(ExtractionError::StructuralError("selector".to_owned()));
        },
    };
    let ss = match select_document(html, SEL_DETAIL_SUMMARY) {
        Some(v) => v,
        None => {
            return Err(ExtractionError::StructuralError("selector".to_owned()));
        },
    };
    let gs = match select_document(html, SEL_DETAIL_GENRES) {
        Some(v) => v,
        None => {
            return Err(ExtractionError::StructuralError("selector".to_owned()));
        },
    };
    let ys = match select_document(html, SEL_DETAIL_RELEASED) {
        Some(v) => v,
        None => {
            return Err(ExtractionError::StructuralError("selector".to_owned()));
        },
    };
    let ds = match select_document(html, SEL_DETAIL_DEFAULT_EP) {
        Some(v) => v,
        None => {
            return Err(ExtractionError::StructuralError("selector".to_owned()));
        },
    };
    let ps = match select_document(html, SEL_DETAIL_EPISODE_PAGES) {
        Some(v) => v,
        None => {
            return Err(ExtractionError::StructuralError("selector".to_owned()));
        },
    };
    details_from_elems(&ts, &ids, &cs, &ss, &gs, &ys, &ds, &ps)
}

// ---------------------------------------------------------------------------
// Episode sources
// ---------------------------------------------------------------------------
/// One provider: the list item's single child anchor carries the video URL
/// in `data-video`, and the item's first class token is the provider
/// identifier. A missing anchor, attribute or class token fails the item.
pub open spec fn provider_v(e: ElemV) -> Result<(Seq<char>, Seq<char>), ErrorV> {
    match child_with_tag(e.children, "a"@) {
        None => Err(ErrorV::MissingElement("provider link"@)),
        Some(a) => match attr_of(a.attrs, "data-video"@) {
            None => Err(ErrorV::MissingAttribute("provider link"@, "data-video"@)),
            Some(url) => match attr_of(e.attrs, "class"@) {
                None => Err(ErrorV::MissingAttribute("provider"@, "class"@)),
                Some(cls) => match first_token(cls) {
                    None => Err(ErrorV::StructuralError("provider class"@)),
                    Some(tok) => Ok((tok, url)),
                },
            },
        },
    }
}

/// All providers in document order, first failure first.
pub open spec fn providers_v(es: Seq<ElemV>) -> Result<Seq<(Seq<char>, Seq<char>)>, ErrorV> {
    map_all(es, |e: ElemV| provider_v(e))
}

fn provider_item(e: &Elem) -> (r: Result<(String, String), ExtractionError>)
    ensures
        r matches Ok(p) ==> provider_v(e@) == Ok::<(Seq<char>, Seq<char>), ErrorV>((p.0@, p.1@)),
        r matches Err(err) ==> provider_v(e@) matches Err(ev) && err@ == ev,
{
    let anchor = match find_child(&e.children, "a") {
        None => {
            return Err(ExtractionError::MissingElement("provider link".to_owned()));
        },
        Some(a) => a,
    };
    let url = match get_attr(&anchor.attrs, "data-video") {
        None => {
            return Err(
                ExtractionError::MissingAttribute(
                    "provider link".to_owned(),
                    "data-video".to_owned(),
                ),
            );
        },
        Some(u) => u,
    };
    let cls = match get_attr(&e.attrs, "class") {
        None => {
            return Err(
                ExtractionError::MissingAttribute("provider".to_owned(), "class".to_owned()),
            );
        },
        Some(c) => c,
    };
    match first_token_str(cls.as_str()) {
        None => Err(ExtractionError::StructuralError("provider class".to_owned())),
        Some(tok) => Ok((tok, url)),
    }
}

/// Extracts every provider from the matched list items, in document order.
pub fn episode_from_elems(elems: &Vec<Elem>) -> (r: Result<Episode, ExtractionError>)
    ensures
        r matches Ok(ep) ==> providers_v(elem_views(elems@)) == Ok::<
            Seq<(Seq<char>, Seq<char>)>,
            ErrorV,
        >(ep@.providers),
        r matches Err(e) ==> providers_v(elem_views(elems@)) matches Err(ev) && e@ == ev,
{
    let ghost es = elem_views(elems@);
    let mut out: Vec<(String, String)> = Vec::new();
    proof {
        assert(es.take(0) =~= Seq::<ElemV>::empty());
        assert(out@.map_values(|p: (String, String)| (p.0@, p.1@)) =~= Seq::<
            (Seq<char>, Seq<char>),
        >::empty());
    }
    let mut i: usize = 0;
    while i < elems.len()
        invariant
            i <= elems.len(),
            es == elem_views(elems@),
            providers_v(es.take(i as int)) == Ok::<Seq<(Seq<char>, Seq<char>)>, ErrorV>(
                out@.map_values(|p: (String, String)| (p.0@, p.1@)),
            ),
        decreases elems.len() - i,
    {
        let r = provider_item(&elems[i]);
        proof {
            lemma_map_all_step::<ElemV, (Seq<char>, Seq<char>)>(
                es,
                |e: ElemV| provider_v(e),
                i as int,
            );
        }
        match r {
            Ok(p) => {
                let ghost prev = out@;
                let ghost pv = (p.0@, p.1@);
                out.push(p);
                proof {
                    assert(out@.map_values(|q: (String, String)| (q.0@, q.1@)) =~= prev.map_values(
                        |q: (String, String)| (q.0@, q.1@),
                    ).push(pv));
                }
            },
            Err(e) => {
                proof {
                    lemma_map_all_err_persists::<ElemV, (Seq<char>, Seq<char>)>(
                        es,
                        |x: ElemV| provider_v(x),
                        i + 1,
                        es.len() as int,
                    );
                    assert(es.take(es.len() as int) =~= es);
                }
                return Err(e);
            },
        }
        i += 1;
    }
    proof {
        assert(es.take(es.len() as int) =~= es);
    }
    Ok(Episode { providers: out })
}

/// Everything `parse_episode` promises of its result.
pub open spec fn episode_post(html: Seq<char>, r: Result<Episode, ExtractionError>) -> bool {
    if selector_ok(SEL_PROVIDER_ITEMS@) {
        match r {
            Ok(ep) => providers_v(doc_select(html, SEL_PROVIDER_ITEMS@)) == Ok::<
                Seq<(Seq<char>, Seq<char>)>,
                ErrorV,
            >(ep@.providers),
            Err(e) => providers_v(doc_select(html, SEL_PROVIDER_ITEMS@)) matches Err(ev) && e@
                == ev,
        }
    } else {
        r matches Err(e) && e@ == ErrorV::StructuralError("selector"@)
    }
}

/// Extracts an episode page's video providers.
pub fn parse_episode(html: &str) -> (r: Result<Episode, ExtractionError>)
    ensures
        episode_post(html@, r),
{
    match select_document(html, SEL_PROVIDER_ITEMS) {
        None => Err(ExtractionError::StructuralError("selector".to_owned())),
        Some(elems) => episode_from_elems(&elems),
    }
}

// ---------------------------------------------------------------------------
// Search results
// ---------------------------------------------------------------------------
/// One search hit from an anchor: the cover image URL sits at a fixed offset
/// inside the `style` attribute of the anchor's first child element, the
/// title is the anchor's first text node, and the slug is the last
/// `/`-separated segment of its `href`. A `style` value shorter than the
/// wrapper is a structural failure.
pub open spec fn search_hit_v(e: ElemV) -> Result<SearchResultV, ErrorV> {
    if e.children.len() == 0 {
        Err(ErrorV::MissingElement("cover image"@))
    } else {
        match attr_of(e.children[0].attrs, "style"@) {
            None => Err(ErrorV::MissingAttribute("cover image"@, "style"@)),
            Some(style) => if style.len() < STYLE_URL_OFFSET + STYLE_URL_TRAIL {
                Err(ErrorV::StructuralError("cover image"@))
            } else if e.texts.len() == 0 {
                Err(ErrorV::MissingElement("title"@))
            } else {
                match attr_of(e.attrs, "href"@) {
                    None => Err(ErrorV::MissingAttribute("slug"@, "href"@)),
                    Some(href) => Ok(
                        SearchResultV {
                            slug: last_segment(href),
                            title: e.texts[0],
                            cover_image_url: style.subrange(
                                STYLE_URL_OFFSET as int,
                                style.len() - STYLE_URL_TRAIL,
                            ),
                        },
                    ),
                }
            },
        }
    }
}

/// All search hits in document order, first failure first.
pub open spec fn search_hits_v(es: Seq<ElemV>) -> Result<Seq<SearchResultV>, ErrorV> {
    map_all(es, |e: ElemV| search_hit_v(e))
}

fn search_hit(e: &Elem) -> (r: Result<SearchResult, ExtractionError>)
    ensures
        r matches Ok(h) ==> search_hit_v(e@) == Ok::<SearchResultV, ErrorV>(h@),
        r matches Err(err) ==> search_hit_v(e@) matches Err(ev) && err@ == ev,
{
    if e.children.len() == 0 {
        return Err(ExtractionError::MissingElement("cover image".to_owned()));
    }
    let style = match get_attr(&e.children[0].attrs, "style") {
        None => {
            return Err(
                ExtractionError::MissingAttribute("cover image".to_owned(), "style".to_owned()),
            );
        },
        Some(s) => s,
    };
    let sn: usize = style.as_str().unicode_len();
    if sn < STYLE_URL_OFFSET + STYLE_URL_TRAIL {
        return Err(ExtractionError::StructuralError("cover image".to_owned()));
    }
    let cover_image_url = style.as_str().substring_char(
        STYLE_URL_OFFSET,
        sn - STYLE_URL_TRAIL,
    ).to_owned();
    if e.texts.len() == 0 {
        return Err(ExtractionError::MissingElement("title".to_owned()));
    }
    let title = e.texts[0].clone();
    match get_attr(&e.attrs, "href") {
        None => Err(ExtractionError::MissingAttribute("slug".to_owned(), "href".to_owned())),
        Some(href) => {
            let slug = last_path_segment(href.as_str());
            Ok(SearchResult { slug, title, cover_image_url })
        },
    }
}

/// Extracts every search hit from the matched anchors, in document order.
pub fn search_results_from_elems(elems: &Vec<Elem>) -> (r: Result<
    Vec<SearchResult>,
    ExtractionError,
>)
    ensures
        r matches Ok(v) ==> search_hits_v(elem_views(elems@)) == Ok::<Seq<SearchResultV>, ErrorV>(
            v@.map_values(|h: SearchResult| h@),
        ),
        r matches Err(e) ==> search_hits_v(elem_views(elems@)) matches Err(ev) && e@ == ev,
{
    let ghost es = elem_views(elems@);
    let mut out: Vec<SearchResult> = Vec::new();
    proof {
        assert(es.take(0) =~= Seq::<ElemV>::empty());
        assert(out@.map_values(|h: SearchResult| h@) =~= Seq::<SearchResultV>::empty());
    }
    let mut i: usize = 0;
    while i < elems.len()
        invariant
            i <= elems.len(),
            es == elem_views(elems@),
            search_hits_v(es.take(i as int)) == Ok::<Seq<SearchResultV>, ErrorV>(
                out@.map_values(|h: SearchResult| h@),
            ),
        decreases elems.len() - i,
    {
        let r = search_hit(&elems[i]);
        proof {
            lemma_map_all_step::<ElemV, SearchResultV>(es, |e: ElemV| search_hit_v(e), i as int);
        }
        match r {
            Ok(h) => {
                let ghost prev = out@;
                let ghost hv = h@;
                out.push(h);
                proof {
                    assert(out@.map_values(|x: SearchResult| x@) =~= prev.map_values(
                        |x: SearchResult| x@,
                    ).push(hv));
                }
            },
            Err(e) => {
                proof {
                    lemma_map_all_err_persists::<ElemV, SearchResultV>(
                        es,
                        |x: ElemV| search_hit_v(x),
                        i + 1,
                        es.len() as int,
                    );
                    assert(es.take(es.len() as int) =~= es);
                }
                return Err(e);
            },
        }
        i += 1;
    }
    proof {
        assert(es.take(es.len() as int) =~= es);
    }
    Ok(out)
}

/// Everything `parse_search_result` promises of its result.
pub open spec fn search_post(json: Seq<char>, r: Result<Vec<SearchResult>, ExtractionError>) -> bool {
    match unwrap_envelope_v(json) {
        Err(ev) => r matches Err(e) && e@ == ev,
        Ok(frag) => if selector_ok(SEL_FRAGMENT_ANCHORS@) {
            match r {
                Ok(v) => search_hits_v(frag_select(frag, SEL_FRAGMENT_ANCHORS@)) == Ok::<
                    Seq<SearchResultV>,
                    ErrorV,
                >(v@.map_values(|h: SearchResult| h@)),
                Err(e) => search_hits_v(frag_select(frag, SEL_FRAGMENT_ANCHORS@)) matches Err(ev2)
                    && e@ == ev2,
            }
        } else {
            r matches Err(e) && e@ == ErrorV::StructuralError("selector"@)
        },
    }
}

/// Extracts the search hits from the search endpoint's JSON envelope.
pub fn parse_search_result(json: &str) -> (r: Result<Vec<SearchResult>, ExtractionError>)
    ensures
        search_post(json@, r),
{
    let html = match unwrap_search_envelope(json) {
        Ok(h) => h,
        Err(e) => {
            return Err(e);
        },
    };
    match select_fragment(html.as_str(), SEL_FRAGMENT_ANCHORS) {
        None => Err(ExtractionError::StructuralError("selector".to_owned())),
        Some(elems) => search_results_from_elems(&elems),
    }
}

} // verus!
