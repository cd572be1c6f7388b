//! The document model's boundary and the selector registry: the fixed
//! selector literals, and the trusted queries that parse raw markup and run
//! a selector over it through the `scraper` crate.
use vstd::prelude::*;

use crate::dom::{elem_views, Elem, ElemChild, ElemV};

verus! {

/// The catalog listing's anchors.
pub const SEL_CATALOG_ANCHORS: &'static str = ".listing li a";

/// The detail page's hidden title identifier input.
pub const SEL_DETAIL_ID: &'static str = "#movie_id";

/// The detail page's heading.
pub const SEL_DETAIL_TITLE: &'static str = ".anime_info_body_bg > h1:nth-child(2)";

/// The detail page's cover image.
pub const SEL_DETAIL_COVER: &'static str = ".anime_info_body_bg > img:nth-child(1)";

/// The detail page's summary paragraph.
pub const SEL_DETAIL_SUMMARY: &'static str = "p.type:nth-child(5)";

/// The detail page's genre anchors.
pub const SEL_DETAIL_GENRES: &'static str = "p.type:nth-child(6) > a";

/// The detail page's release-year paragraph.
pub const SEL_DETAIL_RELEASED: &'static str = "p.type:nth-child(7)";

/// The detail page's hidden default-episode input.
pub const SEL_DETAIL_DEFAULT_EP: &'static str = "#default_ep";

/// The detail page's episode-range pagination anchors.
pub const SEL_DETAIL_EPISODE_PAGES: &'static str = "#episode_page li a";

/// The episode page's provider list items.
pub const SEL_PROVIDER_ITEMS: &'static str = ".anime_muti_link > ul > li";

/// Every anchor of a search fragment.
pub const SEL_FRAGMENT_ANCHORS: &'static str = "a";

/// Whether a selector literal compiles; a function of the literal alone.
pub uninterp spec fn selector_ok(sel: Seq<char>) -> bool;

/// The elements the selector matches in the markup parsed as a document, in
/// document order.
pub uninterp spec fn doc_select(html: Seq<char>, sel: Seq<char>) -> Seq<ElemV>;

/// The elements the selector matches in the markup parsed as a fragment, in
/// document order.
pub uninterp spec fn frag_select(html: Seq<char>, sel: Seq<char>) -> Seq<ElemV>;

#[verifier::external_type_specification]
#[verifier::external_body]
pub struct ExElementRef<'a>(scraper::ElementRef<'a>);

/// Relies on scraper's element accessors `name` and `attrs`: copies one
/// child element's tag name and attributes into plain values.
#[verifier::external_body]
fn child_of(c: scraper::ElementRef<'_>) -> ElemChild {
    ElemChild {
        tag: c.value().name().to_string(),
        attrs: c.value().attrs().map(|(k, v)| (k.to_string(), v.to_string())).collect(),
    }
}

/// Relies on scraper's element accessors `attrs`, `text`, `inner_html`,
/// `children` and `ElementRef::wrap`: copies one matched element — its
/// attributes, descendant text nodes in document order, serialised inner
/// markup, and child elements — into plain values.
#[verifier::external_body]
fn elem_of(e: scraper::ElementRef<'_>) -> Elem {
    Elem {
        attrs: e.value().attrs().map(|(k, v)| (k.to_string(), v.to_string())).collect(),
        texts: e.text().map(|t| t.to_string()).collect(),
        inner_html: e.inner_html(),
        children: e.children().filter_map(scraper::ElementRef::wrap).map(child_of).collect(),
    }
}

/// Relies on `scraper::Selector::parse`, `scraper::Html::parse_document` and
/// `scraper::Html::select`: whether a selector compiles depends on the
/// selector literal alone, and the matched elements are a function of the
/// markup and the selector alone, in document order.
#[verifier::external_body]
pub(crate) fn select_document(html: &str, sel: &str) -> (r: Option<Vec<Elem>>)
    ensures
        r is Some <==> selector_ok(sel@),
        r matches Some(v) ==> elem_views(v@) == doc_select(html@, sel@),
{
    let parsed = match scraper::Selector::parse(sel) {
        Ok(p) => p,
        Err(_) => return None,
    };
    let doc = scraper::Html::parse_document(html);
    Some(doc.select(&parsed).map(elem_of).collect())
}

/// Relies on `scraper::Selector::parse`, `scraper::Html::parse_fragment` and
/// `scraper::Html::select`, exactly as `select_document` does, with the
/// markup parsed as a fragment instead of a document.
#[verifier::external_body]
pub(crate) fn select_fragment(html: &str, sel: &str) -> (r: Option<Vec<Elem>>)
    ensures
        r is Some <==> selector_ok(sel@),
        r matches Some(v) ==> elem_views(v@) == frag_select(html@, sel@),
{
    let parsed = match scraper::Selector::parse(sel) {
        Ok(p) => p,
        Err(_) => return None,
    };
    let doc = scraper::Html::parse_fragment(html);
    Some(doc.select(&parsed).map(elem_of).collect())
}

} // verus!
