//! Terminal client library for a threaded discussion forum: reply content
//! trees, their clean-up, a scroll-aware recursive renderer with
//! display-width-aware framing, and the page builder and fetch bookkeeping
//! around them.

pub mod reply_model;
pub mod cleanup;
pub mod text_width;
pub mod render;
pub mod model;
pub mod elapsed;
pub mod separator;
pub mod show;
pub mod markup;
pub mod builder;
pub mod query;
pub mod caches;
pub mod fetcher;
pub mod web_resource;
pub mod client;
pub mod status;
