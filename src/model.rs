//! Records of one thread page.
use vstd::prelude::*;
use crate::reply_model::NodeType;

verus! {

/// The thread identifier taken from the query of a reply page's address.
pub struct UrlQueryItem {
    pub message: String,
}

/// One reply: its author, its raw publication time and its body.
pub struct ShowReplyItem {
    pub userid: String,
    pub username: String,
    pub published_at: String,
    pub body: Vec<NodeType>,
}

/// One page of a thread. A page with `max_page == 0` holds nothing yet.
pub struct ShowItem {
    pub url_query: UrlQueryItem,
    pub replies: Vec<ShowReplyItem>,
    pub page: usize,
    pub max_page: usize,
    pub reply_count: String,
    pub title: String,
}

impl ShowItem {
    /// A page with pages counts among them.
    pub open spec fn wf(&self) -> bool {
        self.max_page > 0 ==> 1 <= self.page <= self.max_page
    }

    /// The page that stands for "nothing loaded".
    pub fn empty() -> (r: ShowItem)
        ensures
            r.wf(),
            r.replies@.len() == 0,
            r.page == 0,
            r.max_page == 0,
            r.title@.len() == 0,
            r.reply_count@.len() == 0,
            r.url_query.message@.len() == 0,
    {
        ShowItem {
            url_query: UrlQueryItem { message: String::new() },
            replies: Vec::new(),
            page: 0,
            max_page: 0,
            reply_count: String::new(),
            title: String::new(),
        }
    }
}

} // verus!
