//! The progress record of a download queue: for each gallery address, its
//! state, and the addresses still to download.
use vstd::prelude::*;

use super::HxMeta;
use std::collections::{HashMap, VecDeque};

verus! {

/// The states of the galleries and the queue of addresses to download.
pub struct HxStatus {
    status: HashMap<String, HxCrawlerStatus>,
    queue: VecDeque<String>,
}

/// The state of one gallery: being downloaded, done, or given up.
pub enum HxCrawlerStatus {
    Downloading { url: String, meta: HxMeta, pages: HashMap<i32, HxCrawlerPage> },
    Done,
    Dead { url: String, meta: HxMeta, pages: HashMap<i32, HxCrawlerPage> },
}

/// One page of a gallery: its address and the address of the next.
pub struct HxCrawlerPage {
    url: String,
    next_url: String,
}

impl HxStatus {
    pub closed spec fn status_spec(&self) -> HashMap<String, HxCrawlerStatus> {
        self.status
    }

    pub closed spec fn queue_spec(&self) -> VecDeque<String> {
        self.queue
    }

    /// A record with the given states and queue.
    pub fn new(status: HashMap<String, HxCrawlerStatus>, queue: VecDeque<String>) -> (s: HxStatus)
        ensures
            s.status_spec() == status,
            s.queue_spec() == queue,
    {
        HxStatus { status, queue }
    }

    /// The states and the queue, taken out of the record.
    pub fn into_parts(self) -> (r: (HashMap<String, HxCrawlerStatus>, VecDeque<String>))
        ensures
            r.0 == self.status_spec(),
            r.1 == self.queue_spec(),
    {
        (self.status, self.queue)
    }
}

impl HxCrawlerPage {
    pub closed spec fn url_spec(&self) -> Seq<char> {
        self.url@
    }

    pub closed spec fn next_url_spec(&self) -> Seq<char> {
        self.next_url@
    }

    /// A page at `url` whose next page is at `next_url`.
    pub fn new(url: String, next_url: String) -> (p: HxCrawlerPage)
        ensures
            p.url_spec() == url@,
            p.next_url_spec() == next_url@,
    {
        HxCrawlerPage { url, next_url }
    }

    pub fn url(&self) -> (u: &String)
        ensures
            u@ == self.url_spec(),
    {
        &self.url
    }

    pub fn next_url(&self) -> (u: &String)
        ensures
            u@ == self.next_url_spec(),
    {
        &self.next_url
    }
}

} // verus!
