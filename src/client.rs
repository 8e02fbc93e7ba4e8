//! What a background fetch hands back to the screen loop.
use vstd::prelude::*;

pub use crate::web_resource::WebResource;

verus! {

/// Which screen a fetched page is for.
#[derive(Clone)]
pub enum ChannelItemType {
    Show(ChannelShowItem),
    Index(ChannelIndexItem),
}

/// The topic index.
#[derive(Clone)]
pub struct ChannelIndexItem {}

/// Page `page` of the thread `postid`.
#[derive(Clone)]
pub struct ChannelShowItem {
    pub postid: String,
    pub page: usize,
}

/// A fetched page and what it is for.
pub struct ChannelItem {
    pub extra: ChannelItemType,
    pub result: String,
}

impl ChannelItem {
    /// The topic index, fetched as `result`.
    pub fn index(result: String) -> (r: ChannelItem)
        ensures
            r.extra is Index,
            r.result@ == result@,
    {
        ChannelItem { extra: ChannelItemType::Index(ChannelIndexItem {  }), result }
    }

    /// Page `page` of the thread `postid`, fetched as `result`.
    pub fn show(postid: String, page: usize, result: String) -> (r: ChannelItem)
        ensures
            r.extra matches ChannelItemType::Show(s) && s.postid@ == postid@ && s.page == page,
            r.result@ == result@,
    {
        ChannelItem { extra: ChannelItemType::Show(ChannelShowItem { postid, page }), result }
    }
}

} // verus!
