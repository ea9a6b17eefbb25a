use hxdown::crawler::ehentai::EHentaiCrawler;
use hxdown::crawler::nhentai::NHentaiCrawler;
use hxdown::crawler::session::{next_page, site_for_url, Download, Event, Output, Request, Site};
use hxdown::crawler::NextPageStatus;
use hxdown::html::parse_html;

const EH_INDEX: &str = r#"<html><body>
<div id="gd2"><h1 id="gn">My Gallery</h1><h1 id="gj">私のギャラリー</h1></div>
<div id="taglist"><div class="gtl">tag one</div><div class="gt gtl">tag two</div><div class="gtl">tag one</div></div>
<div class="gdtm"><div><a href="https://e-hentai.org/s/abc/1-1">p1</a></div></div>
</body></html>"#;

const EH_PAGE0: &str = r#"<html><body><img id="img" src="https://img.example/1.jpg">
<a id="next" href="https://e-hentai.org/s/abc/1-2">next</a></body></html>"#;

const EH_PAGE1: &str = r#"<html><body><img id="img" src="https://img.example/2.jpg">
<a id="next" href="https://e-hentai.org/s/abc/1-2">next</a></body></html>"#;

const NH_INDEX: &str = r#"<html><body>
<h1 class="title">Title EN</h1><h2 class="title">Title JA</h2>
<section id="tags"><a class="tag"><span class="name">alpha</span><span class="count">5</span></a>
<a class="tag"><span class="name">beta</span></a></section>
<a class="gallerythumb" href="/g/9/1/">thumb</a>
</body></html>"#;

const NH_PAGE0: &str = r#"<html><body><section id="image-container"><a href="/g/9/2/"><img src="https://i.nhentai.net/9/1.jpg"></a></section>
<a class="next" href="/g/9/2/">next</a></body></html>"#;

const NH_PAGE1: &str = r#"<html><body><section id="image-container"><a href="/g/9/3/"><img src="https://i.nhentai.net/9/2.jpg"></a></section>
<a class="next invisible" href="/g/9/3/">next</a></body></html>"#;

fn notice(o: &Output) -> Option<&str> {
    o.notice.as_deref()
}

#[test]
fn sites_by_address() {
    assert!(matches!(site_for_url("https://e-hentai.org/g/1741679/e33add3ab7/"), Some(Site::EHentai)));
    assert!(matches!(site_for_url("https://nhentai.net/g/1/"), Some(Site::NHentai)));
    assert!(site_for_url("https://example.com/").is_none());
}

#[test]
fn ehentai_meta() {
    let doc = parse_html(EH_INDEX);
    let m = EHentaiCrawler::new().parse_meta(&doc);
    assert_eq!(m.title(), "My Gallery");
    assert_eq!(m.title_ja(), "私のギャラリー");
    assert_eq!(m.tags(), &vec!["tag one".to_string(), "tag two".to_string()]);
}

#[test]
fn nhentai_meta() {
    let doc = parse_html(NH_INDEX);
    let m = NHentaiCrawler::new().parse_meta(&doc);
    assert_eq!(m.title(), "Title EN");
    assert_eq!(m.title_ja(), "Title JA");
    assert_eq!(m.tags(), &vec!["alpha".to_string(), "beta".to_string()]);
}

#[test]
fn next_page_status() {
    let doc = parse_html(EH_PAGE0);
    match next_page(Site::EHentai, &doc, 0, &"https://e-hentai.org/s/abc/1-1".to_string()) {
        Ok(NextPageStatus::HasNext { page, url }) => {
            assert_eq!(page, 1);
            assert_eq!(url, "https://e-hentai.org/s/abc/1-2");
        },
        _ => panic!("expected a next page"),
    }
    let doc = parse_html(EH_PAGE1);
    assert!(matches!(
        next_page(Site::EHentai, &doc, 1, &"https://e-hentai.org/s/abc/1-2".to_string()),
        Ok(NextPageStatus::LastPage)
    ));
    match next_page(Site::EHentai, &parse_html(EH_PAGE0), i32::MAX, &"x".to_string()) {
        Err(reason) => assert_eq!(reason, "attempt to add with overflow"),
        _ => panic!("expected the overflow"),
    }
    match next_page(Site::EHentai, &parse_html("<p>nothing</p>"), 0, &"x".to_string()) {
        Err(reason) => assert_eq!(reason, "No next button"),
        _ => panic!("expected a missing button"),
    }
    match next_page(Site::NHentai, &parse_html(NH_PAGE0), 0, &"x".to_string()) {
        Ok(NextPageStatus::HasNext { page, url }) => {
            assert_eq!(page, 1);
            assert_eq!(url, "https://nhentai.net/g/9/2/");
        },
        _ => panic!("expected a next page"),
    }
    assert!(matches!(
        next_page(Site::NHentai, &parse_html(NH_PAGE1), 1, &"x".to_string()),
        Ok(NextPageStatus::LastPage)
    ));
}

#[test]
fn ehentai_download_runs_to_the_end() {
    let index = "https://e-hentai.org/g/1/abc/".to_string();
    let mut d = Download::new(Site::EHentai, index.clone());
    let o = d.step(Event::Begin);
    match &o.request {
        Request::FetchPage { url, headers } => {
            assert_eq!(url, &index);
            assert_eq!(headers, &vec![("Cookie".to_string(), "sl=dm_1; nw=1".to_string())]);
        },
        _ => panic!("expected the index fetch"),
    }
    let o = d.step(Event::Html(EH_INDEX.to_string()));
    assert_eq!(notice(&o), Some("My Gallery"));
    assert!(matches!(&o.request, Request::CheckFinished { title } if title == "My Gallery"));
    let o = d.step(Event::Answer(false));
    assert!(matches!(&o.request, Request::CreateDir { title } if title == "My Gallery"));
    let o = d.step(Event::Ack);
    assert!(matches!(&o.request, Request::FetchPage { url, headers } if url == "https://e-hentai.org/s/abc/1-1" && headers.is_empty()));
    let o = d.step(Event::Html(EH_PAGE0.to_string()));
    assert!(matches!(&o.request, Request::CheckImage { title, page: 0 } if title == "My Gallery"));
    let o = d.step(Event::Answer(false));
    assert!(matches!(&o.request, Request::FetchData { url } if url == "https://img.example/1.jpg"));
    let o = d.step(Event::Data(vec![1, 2, 3]));
    assert!(matches!(&o.request, Request::WriteImage { title, page: 0, data } if title == "My Gallery" && data == &vec![1u8, 2, 3]));
    let o = d.step(Event::Ack);
    assert_eq!(notice(&o), Some("Image: My Gallery / 0"));
    assert!(matches!(&o.request, Request::FetchPage { url, .. } if url == "https://e-hentai.org/s/abc/1-2"));
    let o = d.step(Event::Html(EH_PAGE1.to_string()));
    assert!(matches!(&o.request, Request::CheckImage { page: 1, .. }));
    let o = d.step(Event::Answer(true));
    assert_eq!(notice(&o), Some("Image: My Gallery / 1"));
    match &o.request {
        Request::SaveMeta { meta } => {
            assert_eq!(meta.title(), "My Gallery");
            assert_eq!(meta.tags().len(), 2);
        },
        _ => panic!("expected the metadata to be saved"),
    }
    assert!(!d.is_over());
    let o = d.step(Event::Ack);
    assert!(matches!(o.request, Request::Done));
    assert!(d.is_over());
    let o = d.step(Event::Ack);
    assert!(matches!(&o.request, Request::Abort { reason } if reason == "unexpected event"));
}

#[test]
fn nhentai_download_runs_to_the_end() {
    let mut d = Download::new(Site::NHentai, "https://nhentai.net/g/9/".to_string());
    let o = d.step(Event::Begin);
    assert!(matches!(&o.request, Request::FetchPage { headers, .. } if headers.is_empty()));
    let o = d.step(Event::Html(NH_INDEX.to_string()));
    assert_eq!(notice(&o), Some("Title EN"));
    let _ = d.step(Event::Answer(false));
    let o = d.step(Event::Ack);
    assert!(matches!(&o.request, Request::FetchPage { url, .. } if url == "https://nhentai.net/g/9/1/"));
    let _ = d.step(Event::Html(NH_PAGE0.to_string()));
    let o = d.step(Event::Answer(false));
    assert!(matches!(&o.request, Request::FetchData { url } if url == "https://i.nhentai.net/9/1.jpg"));
    let _ = d.step(Event::Data(vec![9]));
    let o = d.step(Event::Ack);
    assert!(matches!(&o.request, Request::FetchPage { url, .. } if url == "https://nhentai.net/g/9/2/"));
    let _ = d.step(Event::Html(NH_PAGE1.to_string()));
    let o = d.step(Event::Answer(true));
    assert_eq!(notice(&o), Some("Image: Title EN / 1"));
    assert!(matches!(&o.request, Request::SaveMeta { .. }));
    let o = d.step(Event::Ack);
    assert!(matches!(o.request, Request::Done));
}

#[test]
fn finished_gallery_is_skipped() {
    let mut d = Download::new(Site::EHentai, "https://e-hentai.org/g/1/abc/".to_string());
    let _ = d.step(Event::Begin);
    let _ = d.step(Event::Html(EH_INDEX.to_string()));
    let o = d.step(Event::Answer(true));
    assert!(matches!(o.request, Request::Done));
    assert!(d.is_over());
}

#[test]
fn missing_elements_abort() {
    let mut d = Download::new(Site::EHentai, "u".to_string());
    let _ = d.step(Event::Begin);
    let o = d.step(Event::Html("<p>no gallery</p>".to_string()));
    assert!(matches!(&o.request, Request::Abort { reason } if reason == "Title Element not found"));

    let mut d = Download::new(Site::EHentai, "u".to_string());
    let _ = d.step(Event::Begin);
    let o = d.step(Event::Html(r#"<div id="gd2"><h1 id="gn">T</h1></div>"#.to_string()));
    assert!(matches!(&o.request, Request::Abort { reason } if reason == "Title JA Element not found"));

    let mut d = Download::new(Site::EHentai, "u".to_string());
    let _ = d.step(Event::Begin);
    let _ = d.step(Event::Html(r#"<div id="gd2"><h1 id="gn">T</h1><h1 id="gj">J</h1></div>"#.to_string()));
    let o = d.step(Event::Answer(false));
    assert!(matches!(&o.request, Request::Abort { reason } if reason == "Cannot find 1st page."));

    let mut d = Download::new(Site::NHentai, "u".to_string());
    let _ = d.step(Event::Begin);
    let _ = d.step(Event::Html(NH_INDEX.to_string()));
    let _ = d.step(Event::Answer(false));
    let _ = d.step(Event::Ack);
    let _ = d.step(Event::Html("<p>empty</p>".to_string()));
    let o = d.step(Event::Answer(false));
    assert!(matches!(&o.request, Request::Abort { reason } if reason == "Failed to find image."));
}

#[test]
fn wrong_event_aborts() {
    let mut d = Download::new(Site::NHentai, "u".to_string());
    let o = d.step(Event::Ack);
    assert!(matches!(&o.request, Request::Abort { reason } if reason == "unexpected event"));
    assert!(d.is_over());
}
