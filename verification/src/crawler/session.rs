//! The download of one gallery as a state machine. The caller performs the
//! requests (fetching pages and images, looking at and writing files) and
//! hands back what they gave; every decision — what to read off a page,
//! whether the gallery is already there, which page comes next, when to
//! stop, and where the crawler gives up — is taken here.
use vstd::prelude::*;

use super::ehentai::EHentaiCrawler;
use super::nhentai::{resolve_url, site_base, NHentaiCrawler};
use super::{meta_from, HxMeta, HxMetaView, NextPageStatus};
use crate::html::{
    attr_of, first_selected, lemma_first_selected_is_earliest, selects, lookup_attr, parse_html, parsed_html, HtmlDoc, Lookup, LookupView, NodeModel,
    Selector, SelectorView,
};
use crate::text::{concat_str, contains_seq, format_decimal, owned, signed_decimal, str_contains};

verus! {

// ----------------------------------------------------------------------------
// Sites
// ----------------------------------------------------------------------------

/// A supported site.
#[derive(Clone, Copy)]
pub enum Site {
    EHentai,
    NHentai,
}

/// The site a gallery address belongs to: E-Hentai when it mentions
/// `e-hentai.org`, otherwise NHentai when it mentions `nhentai.net`.
pub open spec fn site_of(url: Seq<char>) -> Option<Site> {
    if contains_seq(url, "e-hentai.org"@) {
        Some(Site::EHentai)
    } else if contains_seq(url, "nhentai.net"@) {
        Some(Site::NHentai)
    } else {
        None
    }
}

/// Which supported site, if any, `url` belongs to.
pub fn site_for_url(url: &str) -> (r: Option<Site>)
    ensures
        r == site_of(url@),
{
    if str_contains(url, "e-hentai.org") {
        Some(Site::EHentai)
    } else if str_contains(url, "nhentai.net") {
        Some(Site::NHentai)
    } else {
        None
    }
}

pub open spec fn title_sel(site: Site) -> SelectorView {
    match site {
        Site::EHentai => EHentaiCrawler::title_spec(),
        Site::NHentai => NHentaiCrawler::title_spec(),
    }
}

pub open spec fn title_ja_sel(site: Site) -> SelectorView {
    match site {
        Site::EHentai => EHentaiCrawler::title_ja_spec(),
        Site::NHentai => NHentaiCrawler::title_ja_spec(),
    }
}

pub open spec fn tags_sel(site: Site) -> SelectorView {
    match site {
        Site::EHentai => EHentaiCrawler::tags_spec(),
        Site::NHentai => NHentaiCrawler::tags_spec(),
    }
}

pub open spec fn first_page_sel(site: Site) -> SelectorView {
    match site {
        Site::EHentai => EHentaiCrawler::first_page_spec(),
        Site::NHentai => NHentaiCrawler::first_page_spec(),
    }
}

pub open spec fn image_sel(site: Site) -> SelectorView {
    match site {
        Site::EHentai => EHentaiCrawler::image_spec(),
        Site::NHentai => NHentaiCrawler::image_spec(),
    }
}

pub open spec fn next_sel(site: Site) -> SelectorView {
    match site {
        Site::EHentai => EHentaiCrawler::next_spec(),
        Site::NHentai => NHentaiCrawler::next_spec(),
    }
}

/// The headers sent with the request for a gallery's index page: E-Hentai
/// gets the cookie that selects its full listing.
pub open spec fn index_headers(site: Site) -> Seq<(Seq<char>, Seq<char>)> {
    match site {
        Site::EHentai => seq![("Cookie"@, "sl=dm_1; nw=1"@)],
        Site::NHentai => seq![],
    }
}

// ----------------------------------------------------------------------------
// Requests, events, stages
// ----------------------------------------------------------------------------

/// What the caller is asked to do next.
pub enum Request {
    /// Fetch the page at `url` (with `headers`) and answer with its HTML.
    FetchPage { url: String, headers: Vec<(String, String)> },
    /// Tell whether the gallery titled `title` is already downloaded.
    CheckFinished { title: String },
    /// Create the directory of the gallery titled `title`; acknowledge.
    CreateDir { title: String },
    /// Tell whether the image of page `page` is already stored.
    CheckImage { title: String, page: i32 },
    /// Fetch the data at `url` and answer with it.
    FetchData { url: String },
    /// Store `data` as the image of page `page`; acknowledge.
    WriteImage { title: String, page: i32, data: Vec<u8> },
    /// Store the gallery's metadata; acknowledge.
    SaveMeta { meta: HxMeta },
    /// The download is complete.
    Done,
    /// The download cannot go on; `reason` says why.
    Abort { reason: String },
}

/// What the caller hands back.
pub enum Event {
    /// The download starts.
    Begin,
    /// The HTML of the page that was fetched.
    Html(String),
    /// The answer to a yes/no request.
    Answer(bool),
    /// The data that was fetched.
    Data(Vec<u8>),
    /// The requested change was made.
    Ack,
}

/// One step's result: a line to print first, if any, and the request.
pub struct Output {
    pub notice: Option<String>,
    pub request: Request,
}

/// Where a download stands.
pub enum Stage {
    Start,
    AwaitIndex,
    AwaitFinished { meta: HxMeta, first_link: Lookup },
    AwaitDirCreated { meta: HxMeta, first_url: String },
    AwaitPage { meta: HxMeta, page: i32, url: String },
    AwaitImageCheck { meta: HxMeta, page: i32, url: String, doc: HtmlDoc },
    AwaitImageData { meta: HxMeta, page: i32, url: String, doc: HtmlDoc },
    AwaitImageWritten { meta: HxMeta, page: i32, url: String, doc: HtmlDoc },
    AwaitMetaSaved,
    Finished,
    Aborted,
}

pub enum RequestView {
    FetchPage { url: Seq<char>, headers: Seq<(Seq<char>, Seq<char>)> },
    CheckFinished { title: Seq<char> },
    CreateDir { title: Seq<char> },
    CheckImage { title: Seq<char>, page: int },
    FetchData { url: Seq<char> },
    WriteImage { title: Seq<char>, page: int, data: Seq<u8> },
    SaveMeta { meta: HxMetaView },
    Done,
    Abort { reason: Seq<char> },
}

pub enum EventView {
    Begin,
    Html(Seq<char>),
    Answer(bool),
    Data(Seq<u8>),
    Ack,
}

pub struct OutputView {
    pub notice: Option<Seq<char>>,
    pub request: RequestView,
}

pub enum StageView {
    Start,
    AwaitIndex,
    AwaitFinished { meta: HxMetaView, first_link: LookupView },
    AwaitDirCreated { meta: HxMetaView, first_url: Seq<char> },
    AwaitPage { meta: HxMetaView, page: int, url: Seq<char> },
    AwaitImageCheck { meta: HxMetaView, page: int, url: Seq<char>, doc: Seq<NodeModel> },
    AwaitImageData { meta: HxMetaView, page: int, url: Seq<char>, doc: Seq<NodeModel> },
    AwaitImageWritten { meta: HxMetaView, page: int, url: Seq<char>, doc: Seq<NodeModel> },
    AwaitMetaSaved,
    Finished,
    Aborted,
}

pub open spec fn headers_view(h: Seq<(String, String)>) -> Seq<(Seq<char>, Seq<char>)> {
    h.map_values(|p: (String, String)| (p.0@, p.1@))
}

impl View for Request {
    type V = RequestView;

    open spec fn view(&self) -> RequestView {
        match self {
            Request::FetchPage { url, headers } => RequestView::FetchPage {
                url: url@,
                headers: headers_view(headers@),
            },
            Request::CheckFinished { title } => RequestView::CheckFinished { title: title@ },
            Request::CreateDir { title } => RequestView::CreateDir { title: title@ },
            Request::CheckImage { title, page } => RequestView::CheckImage {
                title: title@,
                page: *page as int,
            },
            Request::FetchData { url } => RequestView::FetchData { url: url@ },
            Request::WriteImage { title, page, data } => RequestView::WriteImage {
                title: title@,
                page: *page as int,
                data: data@,
            },
            Request::SaveMeta { meta } => RequestView::SaveMeta { meta: meta@ },
            Request::Done => RequestView::Done,
            Request::Abort { reason } => RequestView::Abort { reason: reason@ },
        }
    }
}

impl View for Event {
    type V = EventView;

    open spec fn view(&self) -> EventView {
        match self {
            Event::Begin => EventView::Begin,
            Event::Html(h) => EventView::Html(h@),
            Event::Answer(b) => EventView::Answer(*b),
            Event::Data(d) => EventView::Data(d@),
            Event::Ack => EventView::Ack,
        }
    }
}

impl View for Output {
    type V = OutputView;

    open spec fn view(&self) -> OutputView {
        OutputView {
            notice: match self.notice {
                Some(n) => Some(n@),
                None => None,
            },
            request: self.request@,
        }
    }
}

impl View for Stage {
    type V = StageView;

    open spec fn view(&self) -> StageView {
        match self {
            Stage::Start => StageView::Start,
            Stage::AwaitIndex => StageView::AwaitIndex,
            Stage::AwaitFinished { meta, first_link } => StageView::AwaitFinished {
                meta: meta@,
                first_link: first_link@,
            },
            Stage::AwaitDirCreated { meta, first_url } => StageView::AwaitDirCreated {
                meta: meta@,
                first_url: first_url@,
            },
            Stage::AwaitPage { meta, page, url } => StageView::AwaitPage {
                meta: meta@,
                page: *page as int,
                url: url@,
            },
            Stage::AwaitImageCheck { meta, page, url, doc } => StageView::AwaitImageCheck {
                meta: meta@,
                page: *page as int,
                url: url@,
                doc: doc@,
            },
            Stage::AwaitImageData { meta, page, url, doc } => StageView::AwaitImageData {
                meta: meta@,
                page: *page as int,
                url: url@,
                doc: doc@,
            },
            Stage::AwaitImageWritten { meta, page, url, doc } => StageView::AwaitImageWritten {
                meta: meta@,
                page: *page as int,
                url: url@,
                doc: doc@,
            },
            Stage::AwaitMetaSaved => StageView::AwaitMetaSaved,
            Stage::Finished => StageView::Finished,
            Stage::Aborted => StageView::Aborted,
        }
    }
}

/// The pages a stage may hold are well formed, and its metadata lists each
/// tag once.
pub open spec fn stage_wf(s: StageView) -> bool {
    match s {
        StageView::AwaitFinished { meta, .. } => meta.tags.no_duplicates(),
        StageView::AwaitDirCreated { meta, .. } => meta.tags.no_duplicates(),
        StageView::AwaitPage { meta, .. } => meta.tags.no_duplicates(),
        StageView::AwaitImageCheck { meta, doc, .. } => meta.tags.no_duplicates() && crate::html::doc_wf(
            doc,
        ),
        StageView::AwaitImageData { meta, doc, .. } => meta.tags.no_duplicates() && crate::html::doc_wf(
            doc,
        ),
        StageView::AwaitImageWritten { meta, doc, .. } => meta.tags.no_duplicates()
            && crate::html::doc_wf(doc),
        _ => true,
    }
}

// ----------------------------------------------------------------------------
// The transition relation
// ----------------------------------------------------------------------------

/// The panic message of `Option::unwrap` on `None`.
pub open spec fn unwrap_none_msg() -> Seq<char> {
    "called `Option::unwrap()` on a `None` value"@
}

/// The panic message of an `i32` addition that overflows.
pub open spec fn add_overflow_msg() -> Seq<char> {
    "attempt to add with overflow"@
}

/// The line printed after each page: `Image: {title} / {page}`.
pub open spec fn image_notice(title: Seq<char>, page: int) -> Seq<char> {
    "Image: "@ + title + " / "@ + signed_decimal(page)
}

pub open spec fn stop(notice: Option<Seq<char>>, reason: Seq<char>) -> (StageView, OutputView) {
    (StageView::Aborted, OutputView { notice, request: RequestView::Abort { reason } })
}

pub open spec fn ask(s: StageView, notice: Option<Seq<char>>, r: RequestView) -> (StageView, OutputView) {
    (s, OutputView { notice, request: r })
}

/// Where the link to the first page leads, as read off the index page
/// (NHentai's links are made absolute).
pub open spec fn first_link_of(site: Site, doc: Seq<NodeModel>) -> LookupView {
    let l = lookup_attr(doc, first_page_sel(site), "href"@);
    match site {
        Site::EHentai => l,
        Site::NHentai => match l {
            LookupView::Found(h) => LookupView::Found(site_base() + h),
            _ => l,
        },
    }
}

/// What follows a page, as read off it: the next page's number and address,
/// the end of the gallery, or the reason the crawler gives up.
pub enum NextView {
    Next(int, Seq<char>),
    Last,
    Fail(Seq<char>),
}

pub open spec fn advance_to(page: int, url: Seq<char>) -> NextView {
    if page == 0x7fff_ffff {
        NextView::Fail(add_overflow_msg())
    } else {
        NextView::Next(page + 1, url)
    }
}

/// E-Hentai: the next-page link must exist and have an address; the page
/// linking to itself is the last. NHentai: no visible next-page link
/// means the last page; a link without address is an error.
pub open spec fn next_of(site: Site, doc: Seq<NodeModel>, page: int, url: Seq<char>) -> NextView {
    let l = lookup_attr(doc, next_sel(site), "href"@);
    match site {
        Site::EHentai => match l {
            LookupView::NoElement => NextView::Fail("No next button"@),
            LookupView::NoAttribute => NextView::Fail("URL href is empty"@),
            LookupView::Found(h) => if h == url {
                NextView::Last
            } else {
                advance_to(page, h)
            },
        },
        Site::NHentai => match l {
            LookupView::NoElement => NextView::Last,
            LookupView::NoAttribute => NextView::Fail("href not found"@),
            LookupView::Found(h) => advance_to(page, site_base() + h),
        },
    }
}

/// After a page's image is in place: print the page line, then go on to
/// the next page, or save the metadata after the last one.
pub open spec fn after_page(
    site: Site,
    meta: HxMetaView,
    page: int,
    url: Seq<char>,
    doc: Seq<NodeModel>,
) -> (StageView, OutputView) {
    let notice = Some(image_notice(meta.title, page));
    match next_of(site, doc, page, url) {
        NextView::Fail(reason) => stop(notice, reason),
        NextView::Last => ask(StageView::AwaitMetaSaved, notice, RequestView::SaveMeta { meta }),
        NextView::Next(p, u) => ask(
            StageView::AwaitPage { meta, page: p, url: u },
            notice,
            RequestView::FetchPage { url: u, headers: seq![] },
        ),
    }
}

/// What the index page leads to: both titles must be there; then the
/// title is printed and the crawler asks whether the gallery is done.
pub open spec fn after_index(site: Site, doc: Seq<NodeModel>) -> (StageView, OutputView) {
    if first_selected(doc, title_sel(site)) is None {
        stop(None, "Title Element not found"@)
    } else if first_selected(doc, title_ja_sel(site)) is None {
        stop(None, "Title JA Element not found"@)
    } else {
        let meta = meta_from(doc, title_sel(site), title_ja_sel(site), tags_sel(site));
        ask(
            StageView::AwaitFinished { meta, first_link: first_link_of(site, doc) },
            Some(meta.title),
            RequestView::CheckFinished { title: meta.title },
        )
    }
}

/// A finished gallery is skipped; otherwise the first page's link must be
/// there, and the gallery's directory is created.
pub open spec fn after_finished_check(meta: HxMetaView, first_link: LookupView, finished: bool) -> (
    StageView,
    OutputView,
) {
    if finished {
        ask(StageView::Finished, None, RequestView::Done)
    } else {
        match first_link {
            LookupView::NoElement => stop(None, "Cannot find 1st page."@),
            LookupView::NoAttribute => stop(None, unwrap_none_msg()),
            LookupView::Found(u) => ask(
                StageView::AwaitDirCreated { meta, first_url: u },
                None,
                RequestView::CreateDir { title: meta.title },
            ),
        }
    }
}

/// A stored image is not fetched again; a missing one is fetched from the
/// address the page gives for it, which must be there.
pub open spec fn after_image_check(
    site: Site,
    meta: HxMetaView,
    page: int,
    url: Seq<char>,
    doc: Seq<NodeModel>,
    exists: bool,
) -> (StageView, OutputView) {
    if exists {
        after_page(site, meta, page, url, doc)
    } else {
        match lookup_attr(doc, image_sel(site), "src"@) {
            LookupView::NoElement => stop(None, "Failed to find image."@),
            LookupView::NoAttribute => stop(None, unwrap_none_msg()),
            LookupView::Found(src) => ask(
                StageView::AwaitImageData { meta, page, url, doc },
                None,
                RequestView::FetchData { url: src },
            ),
        }
    }
}

/// One step of the download of the gallery at `index_url` on `site`.
pub open spec fn transition(site: Site, index_url: Seq<char>, stage: StageView, event: EventView) -> (
    StageView,
    OutputView,
) {
    match (stage, event) {
        (StageView::Start, EventView::Begin) => ask(
            StageView::AwaitIndex,
            None,
            RequestView::FetchPage { url: index_url, headers: index_headers(site) },
        ),
        (StageView::AwaitIndex, EventView::Html(h)) => after_index(site, parsed_html(h)),
        (StageView::AwaitFinished { meta, first_link }, EventView::Answer(f)) => after_finished_check(
            meta,
            first_link,
            f,
        ),
        (StageView::AwaitDirCreated { meta, first_url }, EventView::Ack) => ask(
            StageView::AwaitPage { meta, page: 0, url: first_url },
            None,
            RequestView::FetchPage { url: first_url, headers: seq![] },
        ),
        (StageView::AwaitPage { meta, page, url }, EventView::Html(h)) => ask(
            StageView::AwaitImageCheck { meta, page, url, doc: parsed_html(h) },
            None,
            RequestView::CheckImage { title: meta.title, page },
        ),
        (StageView::AwaitImageCheck { meta, page, url, doc }, EventView::Answer(e)) => after_image_check(
            site,
            meta,
            page,
            url,
            doc,
            e,
        ),
        (StageView::AwaitImageData { meta, page, url, doc }, EventView::Data(d)) => ask(
            StageView::AwaitImageWritten { meta, page, url, doc },
            None,
            RequestView::WriteImage { title: meta.title, page, data: d },
        ),
        (StageView::AwaitImageWritten { meta, page, url, doc }, EventView::Ack) => after_page(
            site,
            meta,
            page,
            url,
            doc,
        ),
        (StageView::AwaitMetaSaved, EventView::Ack) => ask(StageView::Finished, None, RequestView::Done),
        _ => stop(None, "unexpected event"@),
    }
}

// ----------------------------------------------------------------------------
// The executable steps
// ----------------------------------------------------------------------------

fn title_query(site: Site) -> (s: Selector)
    ensures
        s@ == title_sel(site),
{
    match site {
        Site::EHentai => EHentaiCrawler::title_selector(),
        Site::NHentai => NHentaiCrawler::title_selector(),
    }
}

fn title_ja_query(site: Site) -> (s: Selector)
    ensures
        s@ == title_ja_sel(site),
{
    match site {
        Site::EHentai => EHentaiCrawler::title_ja_selector(),
        Site::NHentai => NHentaiCrawler::title_ja_selector(),
    }
}

fn first_page_query(site: Site) -> (s: Selector)
    ensures
        s@ == first_page_sel(site),
{
    match site {
        Site::EHentai => EHentaiCrawler::first_page_selector(),
        Site::NHentai => NHentaiCrawler::first_page_selector(),
    }
}

fn image_query(site: Site) -> (s: Selector)
    ensures
        s@ == image_sel(site),
{
    match site {
        Site::EHentai => EHentaiCrawler::image_selector(),
        Site::NHentai => NHentaiCrawler::image_selector(),
    }
}

fn next_query(site: Site) -> (s: Selector)
    ensures
        s@ == next_sel(site),
{
    match site {
        Site::EHentai => EHentaiCrawler::next_selector(),
        Site::NHentai => NHentaiCrawler::next_selector(),
    }
}

fn headers_for(site: Site) -> (h: Vec<(String, String)>)
    ensures
        headers_view(h@) == index_headers(site),
{
    let mut h: Vec<(String, String)> = Vec::new();
    match site {
        Site::EHentai => {
            h.push((owned("Cookie"), owned("sl=dm_1; nw=1")));
            assert(headers_view(h@) =~= index_headers(site));
        },
        Site::NHentai => {
            assert(headers_view(h@) =~= index_headers(site));
        },
    }
    h
}

fn halt(notice: Option<String>, reason: &str) -> (r: (Stage, Output))
    ensures
        (r.0@, r.1@) == stop(opt_view(notice), reason@),
{
    (Stage::Aborted, Output { notice, request: Request::Abort { reason: owned(reason) } })
}

pub open spec fn opt_view(o: Option<String>) -> Option<Seq<char>> {
    match o {
        Some(s) => Some(s@),
        None => None,
    }
}

fn image_line(title: &String, page: i32) -> (s: String)
    ensures
        s@ == image_notice(title@, page as int),
{
    let head = concat_str("Image: ", title.as_str());
    let mid = concat_str(head.as_str(), " / ");
    let num = format_decimal(page);
    concat_str(mid.as_str(), num.as_str())
}

fn first_link(site: Site, doc: &HtmlDoc) -> (l: Lookup)
    requires
        doc.wf(),
    ensures
        l@ == first_link_of(site, doc@),
{
    let href = "href";
    let l = doc.lookup(&first_page_query(site), href);
    match site {
        Site::EHentai => l,
        Site::NHentai => match l {
            Lookup::Found(h) => Lookup::Found(resolve_url(h.as_str())),
            other => other,
        },
    }
}

/// Reads off a page what follows it (see `next_of`): the next page, the
/// end, or, as the error, the reason the crawler gives up.
pub fn next_page(site: Site, doc: &HtmlDoc, page: i32, url: &String) -> (r: Result<NextPageStatus, String>)
    requires
        doc.wf(),
    ensures
        match (r, next_of(site, doc@, page as int, url@)) {
            (Ok(NextPageStatus::HasNext { page: p, url: u }), NextView::Next(sp, su)) => p as int == sp
                && u@ == su,
            (Ok(NextPageStatus::LastPage), NextView::Last) => true,
            (Err(reason), NextView::Fail(sr)) => reason@ == sr,
            _ => false,
        },
{
    let l = doc.lookup(&next_query(site), "href");
    let target = match site {
        Site::EHentai => match l {
            Lookup::NoElement => {
                return Err(owned("No next button"));
            },
            Lookup::NoAttribute => {
                return Err(owned("URL href is empty"));
            },
            Lookup::Found(h) => {
                if h == *url {
                    return Ok(NextPageStatus::LastPage);
                }
                h
            },
        },
        Site::NHentai => match l {
            Lookup::NoElement => {
                return Ok(NextPageStatus::LastPage);
            },
            Lookup::NoAttribute => {
                return Err(owned("href not found"));
            },
            Lookup::Found(h) => resolve_url(h.as_str()),
        },
    };
    if page == i32::MAX {
        Err(owned("attempt to add with overflow"))
    } else {
        Ok(NextPageStatus::HasNext { page: page + 1, url: target })
    }
}

fn finish_page(site: Site, meta: HxMeta, page: i32, url: String, doc: HtmlDoc) -> (r: (Stage, Output))
    requires
        doc.wf(),
        meta.wf(),
    ensures
        (r.0@, r.1@) == after_page(site, meta@, page as int, url@, doc@),
        stage_wf(r.0@),
{
    let notice = Some(image_line(meta.title(), page));
    match next_page(site, &doc, page, &url) {
        Err(reason) => halt(notice, reason.as_str()),
        Ok(NextPageStatus::LastPage) => (
            Stage::AwaitMetaSaved,
            Output { notice, request: Request::SaveMeta { meta } },
        ),
        Ok(NextPageStatus::HasNext { page: p, url: u }) => {
            let fetch = Request::FetchPage { url: u.clone(), headers: Vec::new() };
            assert(headers_view(Seq::<(String, String)>::empty()) =~= Seq::<(Seq<char>, Seq<char>)>::empty());
            (Stage::AwaitPage { meta, page: p, url: u }, Output { notice, request: fetch })
        },
    }
}

fn read_index(site: Site, html: String) -> (r: (Stage, Output))
    ensures
        (r.0@, r.1@) == after_index(site, parsed_html(html@)),
        stage_wf(r.0@),
{
    let doc = parse_html(html.as_str());
    let t = title_query(site);
    let tj = title_ja_query(site);
    if doc.find_first(&t).is_none() {
        return halt(None, "Title Element not found");
    }
    if doc.find_first(&tj).is_none() {
        return halt(None, "Title JA Element not found");
    }
    let meta = match site {
        Site::EHentai => EHentaiCrawler::new().parse_meta(&doc),
        Site::NHentai => NHentaiCrawler::new().parse_meta(&doc),
    };
    let link = first_link(site, &doc);
    let title = meta.title().clone();
    let notice = Some(meta.title().clone());
    (Stage::AwaitFinished { meta, first_link: link }, Output { notice, request: Request::CheckFinished { title } })
}

fn check_finished(meta: HxMeta, link: Lookup, finished: bool) -> (r: (Stage, Output))
    requires
        meta.wf(),
    ensures
        (r.0@, r.1@) == after_finished_check(meta@, link@, finished),
        stage_wf(r.0@),
{
    if finished {
        return (Stage::Finished, Output { notice: None, request: Request::Done });
    }
    match link {
        Lookup::NoElement => halt(None, "Cannot find 1st page."),
        Lookup::NoAttribute => halt(None, "called `Option::unwrap()` on a `None` value"),
        Lookup::Found(u) => {
            let title = meta.title().clone();
            (Stage::AwaitDirCreated { meta, first_url: u }, Output { notice: None, request: Request::CreateDir { title } })
        },
    }
}

fn check_image(site: Site, meta: HxMeta, page: i32, url: String, doc: HtmlDoc, exists: bool) -> (r: (
    Stage,
    Output,
))
    requires
        doc.wf(),
        meta.wf(),
    ensures
        (r.0@, r.1@) == after_image_check(site, meta@, page as int, url@, doc@, exists),
        stage_wf(r.0@),
{
    if exists {
        return finish_page(site, meta, page, url, doc);
    }
    match doc.lookup(&image_query(site), "src") {
        Lookup::NoElement => halt(None, "Failed to find image."),
        Lookup::NoAttribute => halt(None, "called `Option::unwrap()` on a `None` value"),
        Lookup::Found(src) => (
            Stage::AwaitImageData { meta, page, url, doc },
            Output { notice: None, request: Request::FetchData { url: src } },
        ),
    }
}

/// One step: from the stage and what the caller handed back, the next
/// stage and the next request.
pub fn advance(site: Site, index_url: &String, stage: Stage, event: Event) -> (r: (Stage, Output))
    requires
        stage_wf(stage@),
    ensures
        (r.0@, r.1@) == transition(site, index_url@, stage@, event@),
        stage_wf(r.0@),
{
    match stage {
        Stage::Start => match event {
            Event::Begin => (
                Stage::AwaitIndex,
                Output {
                    notice: None,
                    request: Request::FetchPage { url: index_url.clone(), headers: headers_for(site) },
                },
            ),
            _ => halt(None, "unexpected event"),
        },
        Stage::AwaitIndex => match event {
            Event::Html(h) => read_index(site, h),
            _ => halt(None, "unexpected event"),
        },
        Stage::AwaitFinished { meta, first_link } => match event {
            Event::Answer(f) => check_finished(meta, first_link, f),
            _ => halt(None, "unexpected event"),
        },
        Stage::AwaitDirCreated { meta, first_url } => match event {
            Event::Ack => {
                let fetch = Request::FetchPage { url: first_url.clone(), headers: Vec::new() };
                assert(headers_view(Seq::<(String, String)>::empty()) =~= Seq::<
                    (Seq<char>, Seq<char>),
                >::empty());
                (Stage::AwaitPage { meta, page: 0, url: first_url }, Output { notice: None, request: fetch })
            },
            _ => halt(None, "unexpected event"),
        },
        Stage::AwaitPage { meta, page, url } => match event {
            Event::Html(h) => {
                let doc = parse_html(h.as_str());
                let title = meta.title().clone();
                (
                    Stage::AwaitImageCheck { meta, page, url, doc },
                    Output { notice: None, request: Request::CheckImage { title, page } },
                )
            },
            _ => halt(None, "unexpected event"),
        },
        Stage::AwaitImageCheck { meta, page, url, doc } => match event {
            Event::Answer(e) => check_image(site, meta, page, url, doc, e),
            _ => halt(None, "unexpected event"),
        },
        Stage::AwaitImageData { meta, page, url, doc } => match event {
            Event::Data(d) => {
                let title = meta.title().clone();
                (
                    Stage::AwaitImageWritten { meta, page, url, doc },
                    Output { notice: None, request: Request::WriteImage { title, page, data: d } },
                )
            },
            _ => halt(None, "unexpected event"),
        },
        Stage::AwaitImageWritten { meta, page, url, doc } => match event {
            Event::Ack => finish_page(site, meta, page, url, doc),
            _ => halt(None, "unexpected event"),
        },
        Stage::AwaitMetaSaved => match event {
            Event::Ack => (Stage::Finished, Output { notice: None, request: Request::Done }),
            _ => halt(None, "unexpected event"),
        },
        Stage::Finished => halt(None, "unexpected event"),
        Stage::Aborted => halt(None, "unexpected event"),
    }
}

// ----------------------------------------------------------------------------
// A download
// ----------------------------------------------------------------------------

/// The download of the gallery at one address.
pub struct Download {
    site: Site,
    url: String,
    stage: Stage,
}

impl Download {
    pub closed spec fn site_spec(&self) -> Site {
        self.site
    }

    pub closed spec fn url_spec(&self) -> Seq<char> {
        self.url@
    }

    pub closed spec fn stage_spec(&self) -> StageView {
        self.stage@
    }

    pub closed spec fn wf(&self) -> bool {
        stage_wf(self.stage@)
    }

    /// A download of the gallery at `url` on `site`, not yet begun.
    pub fn new(site: Site, url: String) -> (d: Download)
        ensures
            d.site_spec() == site,
            d.url_spec() == url@,
            d.stage_spec() == StageView::Start,
            d.wf(),
    {
        Download { site, url, stage: Stage::Start }
    }

    /// Takes one step (see `transition`) with what the caller handed back.
    pub fn step(&mut self, event: Event) -> (out: Output)
        requires
            old(self).wf(),
        ensures
            final(self).wf(),
            final(self).site_spec() == old(self).site_spec(),
            final(self).url_spec() == old(self).url_spec(),
            (final(self).stage_spec(), out@) == transition(
                old(self).site_spec(),
                old(self).url_spec(),
                old(self).stage_spec(),
                event@,
            ),
    {
        let mut stage = Stage::Aborted;
        std::mem::swap(&mut stage, &mut self.stage);
        let (next, out) = advance(self.site, &self.url, stage, event);
        self.stage = next;
        out
    }

    /// Whether the download has ended, completed or given up.
    pub fn is_over(&self) -> (b: bool)
        ensures
            b == (self.stage_spec() is Finished || self.stage_spec() is Aborted),
    {
        match self.stage {
            Stage::Finished => true,
            Stage::Aborted => true,
            _ => false,
        }
    }
}

// ----------------------------------------------------------------------------
// Laws of a download
// ----------------------------------------------------------------------------

/// Pages are fetched in order: the first page asked for is page 0, and
/// every later page is the one after the page just finished.
pub proof fn lemma_pages_in_order(site: Site, index_url: Seq<char>, stage: StageView, event: EventView)
    ensures
        transition(site, index_url, stage, event).0 matches StageView::AwaitPage { page: p, .. } ==> (
        stage is AwaitDirCreated && p == 0) || (match stage {
            StageView::AwaitImageCheck { page, .. } => p == page + 1,
            StageView::AwaitImageWritten { page, .. } => p == page + 1,
            _ => false,
        }),
{
}

/// The metadata is saved only after the last page, as that page shows.
pub proof fn lemma_meta_saved_after_last_page(
    site: Site,
    index_url: Seq<char>,
    stage: StageView,
    event: EventView,
)
    ensures
        transition(site, index_url, stage, event).1.request is SaveMeta ==> match stage {
            StageView::AwaitImageCheck { page, url, doc, .. } => next_of(site, doc, page, url) is Last,
            StageView::AwaitImageWritten { page, url, doc, .. } => next_of(site, doc, page, url) is Last,
            _ => false,
        },
{
}

/// A gallery found already downloaded ends the download at once.
pub proof fn lemma_finished_gallery_skipped(
    site: Site,
    index_url: Seq<char>,
    meta: HxMetaView,
    first_link: LookupView,
)
    ensures
        transition(site, index_url, StageView::AwaitFinished { meta, first_link }, EventView::Answer(true))
            == ask(StageView::Finished, None, RequestView::Done),
{
}

/// An image is written only when the caller said it was not stored yet and
/// its data was fetched: the data written is the data handed back, under
/// the page and title of the stage.
pub proof fn lemma_image_written_after_fetch(
    site: Site,
    index_url: Seq<char>,
    stage: StageView,
    event: EventView,
)
    ensures
        transition(site, index_url, stage, event).1.request matches RequestView::WriteImage {
            title,
            page,
            data,
        } ==> (stage matches StageView::AwaitImageData { meta, page: p, .. } && title == meta.title
            && page == p && event == EventView::Data(data)),
{
}

/// An image is fetched only when the caller said it was not stored yet.
pub proof fn lemma_image_fetched_only_when_missing(
    site: Site,
    index_url: Seq<char>,
    stage: StageView,
    event: EventView,
)
    ensures
        transition(site, index_url, stage, event).1.request is FetchData ==> (stage is AwaitImageCheck
            && event == EventView::Answer(false)),
{
}

/// Once a download has ended, it asks for nothing more: any further event
/// gives up.
pub proof fn lemma_over_is_final(site: Site, index_url: Seq<char>, stage: StageView, event: EventView)
    requires
        stage is Finished || stage is Aborted,
    ensures
        transition(site, index_url, stage, event).0 is Aborted,
        transition(site, index_url, stage, event).1.request is Abort,
{
}

/// The metadata a download carries stays the one read off the index page:
/// every stage after the index keeps it, and the titles in the requests
/// are its title.
pub proof fn lemma_meta_kept(site: Site, index_url: Seq<char>, stage: StageView, event: EventView)
    ensures
        ({
            let (next, out) = transition(site, index_url, stage, event);
            (stage_meta(stage) is Some && stage_meta(next) is Some ==> stage_meta(next) == stage_meta(stage))
                && (out.request matches RequestView::CreateDir { title } ==> stage_meta(next)
                matches Some(m) && title == m.title) && (out.request matches RequestView::CheckImage {
                title,
                ..
            } ==> stage_meta(next) matches Some(m) && title == m.title) && (out.request
                matches RequestView::SaveMeta { meta } ==> stage_meta(stage) == Some(meta))
        }),
{
}

/// A missing image is always fetched, on every page: when the caller says
/// the image of a page is not stored yet, the crawler asks for the data at
/// the `src` of the first node the image selector picks on that page.
pub proof fn lemma_missing_image_is_fetched(
    site: Site,
    index_url: Seq<char>,
    meta: HxMetaView,
    page: int,
    url: Seq<char>,
    doc: Seq<NodeModel>,
    k: int,
    src: Seq<char>,
)
    requires
        0 <= k < doc.len(),
        selects(doc, k, image_sel(site)),
        forall|j: int| 0 <= j < k ==> !#[trigger] selects(doc, j, image_sel(site)),
        attr_of(doc[k], "src"@) == Some(src),
    ensures
        transition(
            site,
            index_url,
            StageView::AwaitImageCheck { meta, page, url, doc },
            EventView::Answer(false),
        ) == (StageView::AwaitImageData { meta, page, url, doc }, OutputView {
            notice: None,
            request: RequestView::FetchData { url: src },
        }),
{
    lemma_first_selected_is_earliest(doc, image_sel(site), k);
}

/// The download starts at the first page the index links to: after the
/// index page (with both titles) and the answer that the gallery is not
/// there yet, the directory is created and then the page fetched is the
/// `href` of the first node in document order that the first-page selector
/// picks (on NHentai, made absolute).
pub proof fn lemma_download_starts_at_first_link(
    site: Site,
    index_url: Seq<char>,
    html: Seq<char>,
    k: int,
    href: Seq<char>,
)
    requires
        first_selected(parsed_html(html), title_sel(site)) is Some,
        first_selected(parsed_html(html), title_ja_sel(site)) is Some,
        0 <= k < parsed_html(html).len(),
        selects(parsed_html(html), k, first_page_sel(site)),
        forall|j: int| 0 <= j < k ==> !#[trigger] selects(parsed_html(html), j, first_page_sel(site)),
        attr_of(parsed_html(html)[k], "href"@) == Some(href),
    ensures
        ({
            let doc = parsed_html(html);
            let first = match site {
                Site::EHentai => href,
                Site::NHentai => "https://nhentai.net"@ + href,
            };
            let meta = meta_from(doc, title_sel(site), title_ja_sel(site), tags_sel(site));
            let s1 = transition(site, index_url, StageView::AwaitIndex, EventView::Html(html)).0;
            let s2 = transition(site, index_url, s1, EventView::Answer(false)).0;
            &&& s2 == StageView::AwaitDirCreated { meta, first_url: first }
            &&& transition(site, index_url, s2, EventView::Ack) == (
                StageView::AwaitPage { meta, page: 0, url: first },
                OutputView {
                    notice: None,
                    request: RequestView::FetchPage { url: first, headers: seq![] },
                },
            )
        }),
{
    let doc = parsed_html(html);
    lemma_first_selected_is_earliest(doc, first_page_sel(site), k);
}

/// The metadata a stage carries, if any.
pub open spec fn stage_meta(s: StageView) -> Option<HxMetaView> {
    match s {
        StageView::AwaitFinished { meta, .. } => Some(meta),
        StageView::AwaitDirCreated { meta, .. } => Some(meta),
        StageView::AwaitPage { meta, .. } => Some(meta),
        StageView::AwaitImageCheck { meta, .. } => Some(meta),
        StageView::AwaitImageData { meta, .. } => Some(meta),
        StageView::AwaitImageWritten { meta, .. } => Some(meta),
        _ => None,
    }
}

} // verus!
