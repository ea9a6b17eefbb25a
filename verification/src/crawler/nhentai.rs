//! The NHentai site: where its pages keep the titles, the tags, the link
//! to the first page, the image and the link to the next page; its links
//! are relative to the site.
use vstd::prelude::*;

use super::{meta_from, read_meta, HxMeta};
use crate::html::{first_selected, HtmlDoc, Selector, SelectorView};
use crate::text::concat_str;

verus! {

/// The crawler for NHentai galleries.
pub struct NHentaiCrawler {}

/// The address of the site, which its links are relative to.
pub open spec fn site_base() -> Seq<char> {
    "https://nhentai.net"@
}

/// The absolute address of a link `s` relative to the site.
pub fn resolve_url(s: &str) -> (r: String)
    ensures
        r@ == site_base() + s@,
{
    concat_str("https://nhentai.net", s)
}

impl NHentaiCrawler {
    pub fn new() -> (c: Self) {
        NHentaiCrawler {  }
    }

    /// `h1.title`: the title.
    pub open spec fn title_spec() -> SelectorView {
        SelectorView::And(Box::new(SelectorView::Name("h1"@)), Box::new(SelectorView::Class("title"@)))
    }

    /// `h2.title`: the Japanese title.
    pub open spec fn title_ja_spec() -> SelectorView {
        SelectorView::And(Box::new(SelectorView::Name("h2"@)), Box::new(SelectorView::Class("title"@)))
    }

    /// `.tag .name`: the tags.
    pub open spec fn tags_spec() -> SelectorView {
        SelectorView::Descendant(Box::new(SelectorView::Class("tag"@)), Box::new(SelectorView::Class("name"@)))
    }

    /// `.gallerythumb`: the link to the first page (its `href`).
    pub open spec fn first_page_spec() -> SelectorView {
        SelectorView::Class("gallerythumb"@)
    }

    /// `#image-container a img`: the image of a page (its `src`).
    pub open spec fn image_spec() -> SelectorView {
        SelectorView::Descendant(
            Box::new(
                SelectorView::Descendant(
                    Box::new(SelectorView::Attr("id"@, "image-container"@)),
                    Box::new(SelectorView::Name("a"@)),
                ),
            ),
            Box::new(SelectorView::Name("img"@)),
        )
    }

    /// `.next:not(.invisible)`: the link to the next page (its `href`); the
    /// last page has none.
    pub open spec fn next_spec() -> SelectorView {
        SelectorView::And(
            Box::new(SelectorView::Class("next"@)),
            Box::new(SelectorView::Not(Box::new(SelectorView::Class("invisible"@)))),
        )
    }

    pub fn title_selector() -> (s: Selector)
        ensures
            s@ == Self::title_spec(),
    {
        Selector::and(Selector::name("h1"), Selector::class("title"))
    }

    pub fn title_ja_selector() -> (s: Selector)
        ensures
            s@ == Self::title_ja_spec(),
    {
        Selector::and(Selector::name("h2"), Selector::class("title"))
    }

    pub fn tags_selector() -> (s: Selector)
        ensures
            s@ == Self::tags_spec(),
    {
        Selector::descendant(Selector::class("tag"), Selector::class("name"))
    }

    pub fn first_page_selector() -> (s: Selector)
        ensures
            s@ == Self::first_page_spec(),
    {
        Selector::class("gallerythumb")
    }

    pub fn image_selector() -> (s: Selector)
        ensures
            s@ == Self::image_spec(),
    {
        Selector::descendant(
            Selector::descendant(Selector::attr("id", "image-container"), Selector::name("a")),
            Selector::name("img"),
        )
    }

    pub fn next_selector() -> (s: Selector)
        ensures
            s@ == Self::next_spec(),
    {
        Selector::and(Selector::class("next"), Selector::not(Selector::class("invisible")))
    }

    /// Reads the gallery's metadata off its index page. (The titles must be
    /// on the page.)
    pub fn parse_meta(&self, doc: &HtmlDoc) -> (m: HxMeta)
        requires
            doc.wf(),
            first_selected(doc@, Self::title_spec()) is Some,
            first_selected(doc@, Self::title_ja_spec()) is Some,
        ensures
            m@ == meta_from(doc@, Self::title_spec(), Self::title_ja_spec(), Self::tags_spec()),
            m.wf(),
    {
        read_meta(doc, &Self::title_selector(), &Self::title_ja_selector(), &Self::tags_selector())
    }
}

} // verus!
