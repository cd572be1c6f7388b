//! Laws relating the extractors' contracts: what holds of every successful
//! extraction, proved once and for all inputs.
use vstd::prelude::*;

use crate::collect::{lemma_map_all_index, lemma_map_all_len};
use crate::dom::{attr_of, ElemV};
use crate::entities::AnimeV;
use crate::extract::{
    catalog_entry_v, catalog_v, details_v, genre_v, genres_v, page_range_v, provider_v,
    providers_v, CATALOG_PREFIX_LEN,
};
use crate::text::first_token;

verus! {

/// Law: in a successfully extracted catalog listing, every entry's title is
/// its anchor's inner markup, and its slug is the anchor's `href` with the
/// ten-character catalog prefix removed — prefixing the slug with
/// `/category/` gives the `href` back whenever the `href` carries that
/// prefix.
pub proof fn lemma_catalog_slug_strips_prefix(es: Seq<ElemV>, i: int)
    requires
        catalog_v(es) is Ok,
        0 <= i < es.len(),
        attr_of(es[i].attrs, "href"@) matches Some(h) && h.take(CATALOG_PREFIX_LEN as int)
            == "/category/"@,
    ensures
        catalog_v(es)->Ok_0.len() == es.len(),
        catalog_v(es)->Ok_0[i].title == es[i].inner_html,
        "/category/"@ + catalog_v(es)->Ok_0[i].slug == attr_of(es[i].attrs, "href"@)->Some_0,
{
    lemma_map_all_len::<ElemV, AnimeV>(es, |e: ElemV| catalog_entry_v(e));
    lemma_map_all_index::<ElemV, AnimeV>(es, |e: ElemV| catalog_entry_v(e), i);
    let h = attr_of(es[i].attrs, "href"@)->Some_0;
    reveal_strlit("/category/");
    assert(h.len() >= CATALOG_PREFIX_LEN);
    assert(h.take(CATALOG_PREFIX_LEN as int) + h.skip(CATALOG_PREFIX_LEN as int) =~= h);
}

/// Law: a successfully extracted detail page has at least one pagination
/// range, and its episode count equals the `ep_end` value of the last
/// pagination anchor in document order.
pub proof fn lemma_episode_count_is_last_range_end(
    ts: Seq<ElemV>,
    ids: Seq<ElemV>,
    cs: Seq<ElemV>,
    ss: Seq<ElemV>,
    gs: Seq<ElemV>,
    ys: Seq<ElemV>,
    ds: Seq<ElemV>,
    ps: Seq<ElemV>,
)
    requires
        details_v(ts, ids, cs, ss, gs, ys, ds, ps) is Ok,
    ensures
        ps.len() > 0,
        page_range_v(ps.last()) is Ok,
        details_v(ts, ids, cs, ss, gs, ys, ds, ps)->Ok_0.episode_count == page_range_v(
            ps.last(),
        )->Ok_0.1,
{
    lemma_map_all_len::<ElemV, (int, int)>(ps, |e: ElemV| page_range_v(e));
    lemma_map_all_index::<ElemV, (int, int)>(ps, |e: ElemV| page_range_v(e), ps.len() - 1);
}

/// Law: a successfully extracted genre list has one genre per matched
/// anchor, in document order: the genre at each position is the `title`
/// attribute of the anchor at that position.
pub proof fn lemma_genres_keep_document_order(es: Seq<ElemV>, i: int)
    requires
        genres_v(es) is Ok,
        0 <= i < es.len(),
    ensures
        genres_v(es)->Ok_0.len() == es.len(),
        attr_of(es[i].attrs, "title"@) is Some,
        genres_v(es)->Ok_0[i] == attr_of(es[i].attrs, "title"@)->Some_0,
{
    lemma_map_all_len::<ElemV, Seq<char>>(es, |e: ElemV| genre_v(e));
    lemma_map_all_index::<ElemV, Seq<char>>(es, |e: ElemV| genre_v(e), i);
}

/// Law: a successfully extracted provider list has one provider per matched
/// list item, in document order: at each position the provider identifier is
/// the item's first class token and the video URL its anchor's `data-video`
/// attribute.
pub proof fn lemma_providers_keep_document_order(es: Seq<ElemV>, i: int)
    requires
        providers_v(es) is Ok,
        0 <= i < es.len(),
    ensures
        providers_v(es)->Ok_0.len() == es.len(),
        provider_v(es[i]) is Ok,
        providers_v(es)->Ok_0[i].0 == first_token(
            attr_of(es[i].attrs, "class"@)->Some_0,
        )->Some_0,
        providers_v(es)->Ok_0[i].1 == attr_of(
            crate::dom::child_with_tag(es[i].children, "a"@)->Some_0.attrs,
            "data-video"@,
        )->Some_0,
{
    lemma_map_all_len::<ElemV, (Seq<char>, Seq<char>)>(es, |e: ElemV| provider_v(e));
    lemma_map_all_index::<ElemV, (Seq<char>, Seq<char>)>(es, |e: ElemV| provider_v(e), i);
}

} // verus!
