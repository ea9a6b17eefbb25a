//! The E-Hentai site: where its pages keep the titles, the tags, the link
//! to the first page, the image and the link to the next page.
use vstd::prelude::*;

use super::{meta_from, read_meta, HxMeta};
use crate::html::{first_selected, HtmlDoc, Selector, SelectorView};

verus! {

/// The crawler for E-Hentai galleries.
pub struct EHentaiCrawler {}

impl EHentaiCrawler {
    pub fn new() -> (c: Self) {
        EHentaiCrawler {  }
    }

    /// `#gd2 #gn`: the title.
    pub open spec fn title_spec() -> SelectorView {
        SelectorView::Descendant(
            Box::new(SelectorView::Attr("id"@, "gd2"@)),
            Box::new(SelectorView::Attr("id"@, "gn"@)),
        )
    }

    /// `#gd2 #gj`: the Japanese title.
    pub open spec fn title_ja_spec() -> SelectorView {
        SelectorView::Descendant(
            Box::new(SelectorView::Attr("id"@, "gd2"@)),
            Box::new(SelectorView::Attr("id"@, "gj"@)),
        )
    }

    /// `.gtl`: the tags.
    pub open spec fn tags_spec() -> SelectorView {
        SelectorView::Class("gtl"@)
    }

    /// `.gdtm a`: the link to the first page (its `href`).
    pub open spec fn first_page_spec() -> SelectorView {
        SelectorView::Descendant(Box::new(SelectorView::Class("gdtm"@)), Box::new(SelectorView::Name("a"@)))
    }

    /// `#img`: the image of a page (its `src`).
    pub open spec fn image_spec() -> SelectorView {
        SelectorView::Attr("id"@, "img"@)
    }

    /// `#next`: the link to the next page (its `href`; the last page links to itself).
    pub open spec fn next_spec() -> SelectorView {
        SelectorView::Attr("id"@, "next"@)
    }

    pub fn title_selector() -> (s: Selector)
        ensures
            s@ == Self::title_spec(),
    {
        Selector::descendant(Selector::attr("id", "gd2"), Selector::attr("id", "gn"))
    }

    pub fn title_ja_selector() -> (s: Selector)
        ensures
            s@ == Self::title_ja_spec(),
    {
        Selector::descendant(Selector::attr("id", "gd2"), Selector::attr("id", "gj"))
    }

    pub fn tags_selector() -> (s: Selector)
        ensures
            s@ == Self::tags_spec(),
    {
        Selector::class("gtl")
    }

    pub fn first_page_selector() -> (s: Selector)
        ensures
            s@ == Self::first_page_spec(),
    {
        Selector::descendant(Selector::class("gdtm"), Selector::name("a"))
    }

    pub fn image_selector() -> (s: Selector)
        ensures
            s@ == Self::image_spec(),
    {
        Selector::attr("id", "img")
    }

    pub fn next_selector() -> (s: Selector)
        ensures
            s@ == Self::next_spec(),
    {
        Selector::attr("id", "next")
    }

    /// Reads the gallery's metadata off its index page. (The titles must be
    /// on the page.)
    pub fn parse_meta(&self, doc: &HtmlDoc) -> (m: HxMeta)
        requires
            doc.wf(),
            first_selected(doc@, Self::title_spec()) is Some,
            first_selected(doc@, Self::title_ja_spec()) is Some,
        ensures
            m@ == meta_from(doc@, Self::title_spec(), Self::title_ja_spec(), Self::tags_spec()),
            m.wf(),
    {
        read_meta(doc, &Self::title_selector(), &Self::title_ja_selector(), &Self::tags_selector())
    }
}

} // verus!
