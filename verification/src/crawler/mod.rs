//! The crawling logic shared by the supported sites: the metadata kept for
//! a gallery, where a gallery's files go, how a page ends, and the retry
//! policy for requests.
use vstd::prelude::*;

use crate::html::{first_selected, selected, HtmlDoc, NodeModel, Selector, SelectorView};
use crate::text::{concat_str, format_zero_padded, owned, zero_padded};

pub mod ehentai;
pub mod nhentai;
pub mod progress;
pub mod safe_name;
pub mod session;

pub use safe_name::to_safe_str;

verus! {

// ----------------------------------------------------------------------------
// Gallery metadata
// ----------------------------------------------------------------------------

/// `s` with repeated entries dropped, keeping the first occurrence of each,
/// in order.
pub open spec fn dedup(s: Seq<Seq<char>>) -> Seq<Seq<char>>
    decreases s.len(),
{
    if s.len() == 0 {
        seq![]
    } else {
        let d = dedup(s.drop_last());
        if d.contains(s.last()) {
            d
        } else {
            d.push(s.last())
        }
    }
}

/// The metadata saved with a downloaded gallery: its title, its Japanese
/// title, and its tags (each once).
pub struct HxMeta {
    title: String,
    title_ja: String,
    tags: Vec<String>,
}

pub struct HxMetaView {
    pub title: Seq<char>,
    pub title_ja: Seq<char>,
    pub tags: Seq<Seq<char>>,
}

pub open spec fn strings_view(v: Seq<String>) -> Seq<Seq<char>> {
    v.map_values(|s: String| s@)
}

impl View for HxMeta {
    type V = HxMetaView;

    closed spec fn view(&self) -> HxMetaView {
        HxMetaView { title: self.title@, title_ja: self.title_ja@, tags: strings_view(self.tags@) }
    }
}

fn seq_contains_string(v: &Vec<String>, s: &String) -> (b: bool)
    ensures
        b == strings_view(v@).contains(s@),
{
    let mut i: usize = 0;
    while i < v.len()
        invariant
            i <= v.len(),
            forall|j: int| 0 <= j < i ==> v@[j]@ != s@,
        decreases v.len() - i,
    {
        if v[i] == *s {
            assert(strings_view(v@)[i as int] == s@);
            return true;
        }
        i = i + 1;
    }
    proof {
        if strings_view(v@).contains(s@) {
            let k = choose|k: int| 0 <= k < strings_view(v@).len() && strings_view(v@)[k] == s@;
            assert(v@[k]@ == s@);
        }
    }
    false
}

/// `v` with repeated entries dropped, keeping the first of each, in order.
pub fn dedup_strings(v: Vec<String>) -> (r: Vec<String>)
    ensures
        strings_view(r@) == dedup(strings_view(v@)),
{
    let ghost all = strings_view(v@);
    let mut r: Vec<String> = Vec::new();
    let mut i: usize = 0;
    assert(all.take(0) =~= Seq::<Seq<char>>::empty());
    while i < v.len()
        invariant
            all == strings_view(v@),
            i <= v.len(),
            strings_view(r@) == dedup(all.take(i as int)),
        decreases v.len() - i,
    {
        let s = v[i].clone();
        assert(all.take(i + 1).drop_last() =~= all.take(i as int));
        assert(all.take(i + 1).last() == s@);
        if !seq_contains_string(&r, &s) {
            let ghost before = r@;
            r.push(s);
            assert(strings_view(r@) =~= strings_view(before).push(v@[i as int]@));
        }
        i = i + 1;
    }
    assert(all.take(v.len() as int) =~= all);
    r
}

impl HxMeta {
    /// The tags are listed once each.
    pub open spec fn wf(&self) -> bool {
        self@.tags.no_duplicates()
    }

    /// Metadata with the given titles and tags; repeated tags are kept once.
    pub fn new(title: String, title_ja: String, tags: Vec<String>) -> (m: HxMeta)
        ensures
            m@ == (HxMetaView {
                title: title@,
                title_ja: title_ja@,
                tags: dedup(strings_view(tags@)),
            }),
            m.wf(),
    {
        let ghost given = strings_view(tags@);
        let tags = dedup_strings(tags);
        proof {
            lemma_dedup_no_duplicates(given);
        }
        HxMeta { title, title_ja, tags }
    }

    pub fn title(&self) -> (t: &String)
        ensures
            t@ == self@.title,
    {
        &self.title
    }

    pub fn title_ja(&self) -> (t: &String)
        ensures
            t@ == self@.title_ja,
    {
        &self.title_ja
    }

    pub fn tags(&self) -> (t: &Vec<String>)
        ensures
            strings_view(t@) == self@.tags,
    {
        &self.tags
    }

    pub fn clone_meta(&self) -> (m: HxMeta)
        ensures
            m@ == self@,
    {
        let mut tags: Vec<String> = Vec::new();
        let mut i: usize = 0;
        while i < self.tags.len()
            invariant
                i <= self.tags.len(),
                strings_view(tags@) == strings_view(self.tags@).take(i as int),
            decreases self.tags.len() - i,
        {
            let ghost before = tags@;
            tags.push(self.tags[i].clone());
            assert(strings_view(tags@) =~= strings_view(before).push(self.tags@[i as int]@));
            assert(strings_view(self.tags@).take(i + 1) =~= strings_view(self.tags@).take(
                i as int,
            ).push(self.tags@[i as int]@));
            i = i + 1;
        }
        assert(strings_view(self.tags@).take(self.tags.len() as int) =~= strings_view(self.tags@));
        HxMeta { title: self.title.clone(), title_ja: self.title_ja.clone(), tags }
    }
}

/// The metadata read off a gallery's index page: the text of the first node
/// each title selector picks, and the texts of all nodes the tag selector
/// picks, each once.
pub open spec fn meta_from(
    doc: Seq<NodeModel>,
    title: SelectorView,
    title_ja: SelectorView,
    tags: SelectorView,
) -> HxMetaView {
    HxMetaView {
        title: doc[first_selected(doc, title)->0].text,
        title_ja: doc[first_selected(doc, title_ja)->0].text,
        tags: dedup(selected(doc, tags).map_values(|i: int| doc[i].text)),
    }
}

/// Reads the metadata off an index page with the given selectors.
pub fn read_meta(doc: &HtmlDoc, title: &Selector, title_ja: &Selector, tags: &Selector) -> (m: HxMeta)
    requires
        doc.wf(),
        first_selected(doc@, title@) is Some,
        first_selected(doc@, title_ja@) is Some,
    ensures
        m@ == meta_from(doc@, title@, title_ja@, tags@),
        m.wf(),
{
    proof {
        crate::html::lemma_first_selected(doc@, title@);
        crate::html::lemma_first_selected(doc@, title_ja@);
        crate::html::lemma_selected_below_facts(doc@, tags@, doc@.len());
    }
    let t = doc.find_first(title).unwrap();
    let tj = doc.find_first(title_ja).unwrap();
    let title_text = doc.text_of(t);
    let title_ja_text = doc.text_of(tj);
    let found = doc.find_all(tags);
    let ghost picked = selected(doc@, tags@);
    let mut texts: Vec<String> = Vec::new();
    let mut i: usize = 0;
    while i < found.len()
        invariant
            doc.wf(),
            i <= found.len(),
            found@.map_values(|k: usize| k as int) == picked,
            forall|k: int| 0 <= k < picked.len() ==> 0 <= #[trigger] picked[k] < doc@.len(),
            strings_view(texts@) == picked.take(i as int).map_values(|k: int| doc@[k].text),
        decreases found.len() - i,
    {
        assert(picked[i as int] == found@[i as int] as int);
        let ghost before = texts@;
        texts.push(doc.text_of(found[i]));
        assert(strings_view(texts@) =~= strings_view(before).push(doc@[found@[i as int] as int].text));
        assert(picked.take(i + 1) =~= picked.take(i as int).push(picked[i as int]));
        assert(picked.take(i + 1).map_values(|k: int| doc@[k].text) =~= picked.take(
            i as int,
        ).map_values(|k: int| doc@[k].text).push(doc@[picked[i as int]].text));
        i = i + 1;
    }
    assert(picked.take(found.len() as int) =~= picked);
    HxMeta::new(title_text, title_ja_text, texts)
}

/// A deduplicated list has no repeated entries.
pub proof fn lemma_dedup_no_duplicates(s: Seq<Seq<char>>)
    ensures
        dedup(s).no_duplicates(),
    decreases s.len(),
{
    if s.len() > 0 {
        lemma_dedup_no_duplicates(s.drop_last());
    }
}

/// Deduplicating keeps exactly the entries that occur.
pub proof fn lemma_dedup_same_entries(s: Seq<Seq<char>>, x: Seq<char>)
    ensures
        dedup(s).contains(x) <==> s.contains(x),
    decreases s.len(),
{
    if s.len() > 0 {
        lemma_dedup_same_entries(s.drop_last(), x);
        let d = dedup(s.drop_last());
        if s.drop_last().contains(x) {
            let k = choose|k: int| 0 <= k < s.drop_last().len() && s.drop_last()[k] == x;
            assert(s[k] == x);
        }
        if s.contains(x) && !s.drop_last().contains(x) {
            let k = choose|k: int| 0 <= k < s.len() && s[k] == x;
            if k < s.len() - 1 {
                assert(s.drop_last()[k] == x);
            }
        }
        if !d.contains(s.last()) {
            if d.push(s.last()).contains(x) && x != s.last() {
                let k = choose|k: int| 0 <= k < d.push(s.last()).len() && d.push(s.last())[k] == x;
                assert(d[k] == x);
            }
            if d.contains(x) {
                let k = choose|k: int| 0 <= k < d.len() && d[k] == x;
                assert(d.push(s.last())[k] == x);
            }
            assert(d.push(s.last())[d.len() as int] == s.last());
        }
    }
}

// ----------------------------------------------------------------------------
// How a page ends
// ----------------------------------------------------------------------------

/// What follows a downloaded page: another page, with its number and
/// address, or nothing.
pub enum NextPageStatus {
    HasNext { page: i32, url: String },
    LastPage,
}

// ----------------------------------------------------------------------------
// Where a gallery's files go
// ----------------------------------------------------------------------------

/// The name under which page `page` is stored: the page number padded with
/// zeros to six characters, then `.jpg`.
pub open spec fn image_file_spec(page: int) -> Seq<char> {
    zero_padded(page, 6) + seq!['.', 'j', 'p', 'g']
}

/// The file name of the image of page `page` (`format!("{:06}.jpg", page)`).
pub fn image_file_name(page: i32) -> (s: String)
    ensures
        s@ == image_file_spec(page as int),
{
    let digits = format_zero_padded(page, 6);
    let ext = ".jpg";
    proof {
        reveal_strlit(".jpg");
        assert(ext@ =~= seq!['.', 'j', 'p', 'g']);
    }
    concat_str(digits.as_str(), ext)
}

/// The name of the file the metadata is saved in.
pub open spec fn meta_file_spec() -> Seq<char> {
    seq!['m', 'e', 't', 'a', '.', 'j', 's', 'o', 'n']
}

pub fn meta_file_name() -> (s: String)
    ensures
        s@ == meta_file_spec(),
{
    let name = "meta.json";
    proof {
        reveal_strlit("meta.json");
        assert(name@ =~= meta_file_spec());
    }
    owned(name)
}

/// The directory a gallery titled `title` is stored in: its safe form.
pub fn gallery_dir(title: &str) -> (s: String)
    ensures
        s@ == safe_name::safe_name(title@),
{
    to_safe_str(title)
}

/// What is looked up to decide whether a gallery was already downloaded.
pub struct FinishedProbe {
    /// Must be a directory (the title as it is, not its safe form).
    pub dir: String,
    /// Together with `file`, must be a file: the gallery directory...
    pub file_dir: String,
    /// ...and, inside it, the title followed by `/meta.json`.
    pub file: String,
}

/// The lookups that decide whether the gallery titled `title` is finished:
/// a directory named `title`, and a file `{title}/meta.json` inside the
/// gallery directory.
pub fn finished_probe(title: &str) -> (p: FinishedProbe)
    ensures
        p.dir@ == title@,
        p.file_dir@ == safe_name::safe_name(title@),
        p.file@ == title@ + seq!['/'] + meta_file_spec(),
{
    let sep = "/meta.json";
    proof {
        reveal_strlit("/meta.json");
        assert(sep@ =~= seq!['/'] + meta_file_spec());
    }
    FinishedProbe { dir: owned(title), file_dir: to_safe_str(title), file: concat_str(title, sep) }
}

/// A gallery counts as finished when both lookups succeed.
pub fn is_finished(is_dir: bool, has_meta: bool) -> (b: bool)
    ensures
        b == (is_dir && has_meta),
{
    is_dir && has_meta
}

// ----------------------------------------------------------------------------
// Retrying requests
// ----------------------------------------------------------------------------

/// How many times a request is tried before the crawler gives up.
pub const MAX_ATTEMPTS: u32 = 30;

/// How long the crawler waits after a failed attempt, in seconds.
pub const RETRY_DELAY_SECS: u64 = 10;

/// What to do after a failed attempt (having waited `RETRY_DELAY_SECS`).
pub enum RetryDecision {
    Retry,
    GiveUp,
}

/// The failed attempts of one request so far.
pub struct RetryState {
    failures: u32,
}

impl RetryState {
    pub closed spec fn failures_spec(&self) -> nat {
        self.failures as nat
    }

    pub fn new() -> (s: RetryState)
        ensures
            s.failures_spec() == 0,
    {
        RetryState { failures: 0 }
    }

    pub fn failures(&self) -> (n: u32)
        ensures
            n == self.failures_spec(),
    {
        self.failures
    }

    /// Records a failed attempt: retry while fewer than `MAX_ATTEMPTS`
    /// attempts have failed, give up at the last one.
    pub fn on_failure(&mut self) -> (d: RetryDecision)
        requires
            old(self).failures_spec() < MAX_ATTEMPTS,
        ensures
            final(self).failures_spec() == old(self).failures_spec() + 1,
            (d is GiveUp) <==> final(self).failures_spec() == MAX_ATTEMPTS,
    {
        self.failures = self.failures + 1;
        if self.failures < MAX_ATTEMPTS {
            RetryDecision::Retry
        } else {
            RetryDecision::GiveUp
        }
    }
}

// ----------------------------------------------------------------------------
// Laws
// ----------------------------------------------------------------------------

/// Distinct pages are stored under distinct file names.
pub proof fn lemma_image_file_injective(a: int, b: int)
    requires
        image_file_spec(a) == image_file_spec(b),
    ensures
        a == b,
{
    let ext = seq!['.', 'j', 'p', 'g'];
    let pa = zero_padded(a, 6);
    let pb = zero_padded(b, 6);
    let fa = image_file_spec(a);
    assert(fa == pa + ext);
    assert(image_file_spec(b) == pb + ext);
    assert(fa.len() == pa.len() + 4);
    assert(pa.len() == pb.len());
    assert forall|i: int| 0 <= i < pa.len() implies pa[i] == pb[i] by {
        assert(fa[i] == pa[i]);
        assert(image_file_spec(b)[i] == pb[i]);
    }
    assert(pa =~= pb);
    crate::text::lemma_zero_padded_injective(a, b, 6);
}

/// The image file of a page names that page: reading the digits back
/// gives the page number.
pub proof fn lemma_image_file_names_page(page: int)
    ensures
        crate::text::signed_value(image_file_spec(page).subrange(0, image_file_spec(page).len() - 4))
            == page,
{
    assert(image_file_spec(page).subrange(0, image_file_spec(page).len() - 4) =~= zero_padded(page, 6));
    crate::text::lemma_zero_padded_round_trip(page, 6);
}

/// The tags read off a page are exactly the texts of the nodes the tag
/// selector picks, each once: every picked node's text is a tag, and every
/// tag is the text of a picked node.
pub proof fn lemma_meta_tags_are_picked_texts(
    doc: Seq<NodeModel>,
    title: SelectorView,
    title_ja: SelectorView,
    tags: SelectorView,
)
    ensures
        forall|i: int|
            0 <= i < doc.len() && #[trigger] crate::html::selects(doc, i, tags) ==> meta_from(
                doc,
                title,
                title_ja,
                tags,
            ).tags.contains(doc[i].text),
        forall|t: Seq<char>|
            #[trigger] meta_from(doc, title, title_ja, tags).tags.contains(t) ==> exists|i: int|
                0 <= i < doc.len() && crate::html::selects(doc, i, tags) && #[trigger] doc[i].text == t,
        meta_from(doc, title, title_ja, tags).tags.no_duplicates(),
{
    let picked = selected(doc, tags);
    let texts = picked.map_values(|i: int| doc[i].text);
    crate::html::lemma_selected_below_facts(doc, tags, doc.len());
    lemma_dedup_no_duplicates(texts);
    assert forall|i: int|
        0 <= i < doc.len() && #[trigger] crate::html::selects(doc, i, tags) implies meta_from(
        doc,
        title,
        title_ja,
        tags,
    ).tags.contains(doc[i].text) by {
        assert(picked.contains(i));
        let k = choose|k: int| 0 <= k < picked.len() && picked[k] == i;
        assert(texts[k] == doc[i].text);
        lemma_dedup_same_entries(texts, doc[i].text);
    }
    assert forall|t: Seq<char>| #[trigger]
        meta_from(doc, title, title_ja, tags).tags.contains(t) implies exists|i: int|
        0 <= i < doc.len() && crate::html::selects(doc, i, tags) && #[trigger] doc[i].text == t by {
        lemma_dedup_same_entries(texts, t);
        let k = choose|k: int| 0 <= k < texts.len() && texts[k] == t;
        let i = picked[k];
        assert(0 <= i < doc.len() && crate::html::selects(doc, i, tags));
        assert(doc[i].text == t);
    }
}

/// The titles read off a page are the texts of the earliest nodes the title
/// selectors pick.
pub proof fn lemma_meta_titles_are_first_texts(
    doc: Seq<NodeModel>,
    title: SelectorView,
    title_ja: SelectorView,
    tags: SelectorView,
    k: int,
    kj: int,
)
    requires
        0 <= k < doc.len(),
        crate::html::selects(doc, k, title),
        forall|j: int| 0 <= j < k ==> !#[trigger] crate::html::selects(doc, j, title),
        0 <= kj < doc.len(),
        crate::html::selects(doc, kj, title_ja),
        forall|j: int| 0 <= j < kj ==> !#[trigger] crate::html::selects(doc, j, title_ja),
    ensures
        meta_from(doc, title, title_ja, tags).title == doc[k].text,
        meta_from(doc, title, title_ja, tags).title_ja == doc[kj].text,
{
    crate::html::lemma_first_selected_is_earliest(doc, title, k);
    crate::html::lemma_first_selected_is_earliest(doc, title_ja, kj);
}

} // verus!
