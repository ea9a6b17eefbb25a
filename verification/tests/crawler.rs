use hxdown::crawler::progress::{HxCrawlerPage, HxCrawlerStatus, HxStatus};
use std::collections::{HashMap, VecDeque};
use hxdown::crawler::nhentai::resolve_url;
use hxdown::crawler::safe_name::to_safe_str;
use hxdown::crawler::{
    dedup_strings, finished_probe, gallery_dir, image_file_name, is_finished, meta_file_name,
    HxMeta, RetryDecision, RetryState, MAX_ATTEMPTS, RETRY_DELAY_SECS,
};

#[test]
fn safe_str_deletes_refused_characters() {
    assert_eq!(to_safe_str("a<b>c:d\"e/f|g?h*i"), "abcdefghi");
    assert_eq!(to_safe_str("back\\slash stays"), "back\\slash stays");
    assert_eq!(to_safe_str(""), "");
    assert_eq!(to_safe_str("<>:\"/|?*"), "");
    assert_eq!(to_safe_str("[C86] 作品 / Title?"), "[C86] 作品  Title");
}

#[test]
fn safe_str_is_idempotent() {
    for s in ["a/b", "x:y:z", "plain", "?*?", "日本語/タイトル"] {
        let once = to_safe_str(s);
        assert_eq!(to_safe_str(&once), once);
    }
}

#[test]
fn image_names() {
    assert_eq!(image_file_name(0), "000000.jpg");
    assert_eq!(image_file_name(12), "000012.jpg");
    assert_eq!(image_file_name(1234567), "1234567.jpg");
    assert_eq!(image_file_name(-3), "-00003.jpg");
}

#[test]
fn image_names_are_distinct() {
    let names: Vec<String> = (0..200).map(image_file_name).collect();
    for i in 0..names.len() {
        for j in (i + 1)..names.len() {
            assert_ne!(names[i], names[j]);
        }
    }
}

#[test]
fn gallery_files() {
    assert_eq!(meta_file_name(), "meta.json");
    assert_eq!(gallery_dir("A/B: C"), "AB C");
    let p = finished_probe("A/B");
    assert_eq!(p.dir, "A/B");
    assert_eq!(p.file_dir, "AB");
    assert_eq!(p.file, "A/B/meta.json");
    assert!(is_finished(true, true));
    assert!(!is_finished(true, false));
    assert!(!is_finished(false, true));
}

#[test]
fn nhentai_links_are_absolute() {
    assert_eq!(resolve_url("/g/123/1/"), "https://nhentai.net/g/123/1/");
    assert_eq!(resolve_url(""), "https://nhentai.net");
}

#[test]
fn meta_keeps_each_tag_once() {
    let tags = vec!["a".to_string(), "b".to_string(), "a".to_string(), "c".to_string(), "b".to_string()];
    let m = HxMeta::new("T".to_string(), "J".to_string(), tags);
    assert_eq!(m.title(), "T");
    assert_eq!(m.title_ja(), "J");
    assert_eq!(m.tags(), &vec!["a".to_string(), "b".to_string(), "c".to_string()]);
    let c = m.clone_meta();
    assert_eq!(c.tags(), m.tags());
    assert_eq!(dedup_strings(vec![]), Vec::<String>::new());
}

#[test]
fn retry_gives_up_after_thirty_failures() {
    assert_eq!(MAX_ATTEMPTS, 30);
    assert_eq!(RETRY_DELAY_SECS, 10);
    let mut r = RetryState::new();
    for k in 1..30 {
        assert!(matches!(r.on_failure(), RetryDecision::Retry));
        assert_eq!(r.failures(), k);
    }
    assert!(matches!(r.on_failure(), RetryDecision::GiveUp));
    assert_eq!(r.failures(), 30);
}

#[test]
fn progress_records() {
    let p = HxCrawlerPage::new("https://x/1".to_string(), "https://x/2".to_string());
    assert_eq!(p.url(), "https://x/1");
    assert_eq!(p.next_url(), "https://x/2");
    let mut status = HashMap::new();
    status.insert("https://x/".to_string(), HxCrawlerStatus::Done);
    let mut queue = VecDeque::new();
    queue.push_back("https://y/".to_string());
    let (status, queue) = HxStatus::new(status, queue).into_parts();
    assert!(matches!(status.get("https://x/"), Some(HxCrawlerStatus::Done)));
    assert_eq!(queue.front().map(|s| s.as_str()), Some("https://y/"));
}
