use hkg::caches::{index_cache_key, show_cache_key, CacheKey, MemoryCache, PageStore};
use hkg::fetcher::{fetch_step, FetchAction, FetchEvent};
use hkg::client::{ChannelItem, ChannelItemType, WebResource};
use hkg::status::{format_status, status_line};

#[test]
fn cache_round_trip() {
    let mut c = MemoryCache::new();
    assert_eq!(c.read("data/html/topics/", "a.html"), None);
    c.write("data/html/topics/", "a.html", "X".to_string());
    assert_eq!(c.read("data/html/topics/", "a.html"), Some("X".to_string()));
    assert_eq!(c.read("data/html/topics/", "b.html"), None);
    c.write("data/html/topics/", "a.html", "Y".to_string());
    assert_eq!(c.read("data/html/topics/", "a.html"), Some("Y".to_string()));
}

#[test]
fn page_store_keeps_latest() {
    let mut s = PageStore::new();
    s.write("k", "1".to_string());
    s.write("j", "2".to_string());
    s.write("k", "3".to_string());
    assert_eq!(s.read("k"), Some("3".to_string()));
    assert_eq!(s.read("j"), Some("2".to_string()));
    assert_eq!(s.read("x"), None);
}

#[test]
fn cache_keys() {
    let k = index_cache_key("201701011230");
    assert_eq!(k.bucket, "data/html/topics/");
    assert_eq!(k.name, "201701011230.html");
    let s = show_cache_key("6360604", 12);
    assert_eq!(s.bucket, "data/html/6360604/");
    assert_eq!(s.name, "show_12.html");
}

#[test]
fn web_resource_memo() {
    let mut w = WebResource::new();
    assert!(!w.has_page("http://a/"));
    assert_eq!(w.find("http://a/"), "None");
    w.store("http://a/", "<html/>".to_string());
    assert!(w.has_page("http://a/"));
    assert_eq!(w.find("http://a/"), "<html/>");
}

#[test]
fn channel_items() {
    let i = ChannelItem::index("page".to_string());
    assert!(matches!(i.extra, ChannelItemType::Index(_)));
    assert_eq!(i.result, "page");
    let s = ChannelItem::show("42".to_string(), 3, "body".to_string());
    match s.extra {
        ChannelItemType::Show(x) => assert_eq!((x.postid.as_str(), x.page), ("42", 3)),
        _ => panic!("expected a thread page"),
    }
}

#[test]
fn status_starts_over_when_full() {
    assert_eq!(format_status("> ab".to_string(), 10, "U"), "> abU");
    assert_eq!(format_status("> abcdefgh".to_string(), 10, " PD"), ">  PD");
    assert_eq!(status_line("> a", 6), "> a   ");
    assert_eq!(status_line("> abcdef", 3), "> abcdef");
}

#[test]
fn index_key_for_this_minute() {
    let k = hkg::caches::current_index_key().unwrap();
    assert_eq!(k.bucket, "data/html/topics/");
    assert_eq!(k.name.len(), 17);
    assert!(k.name.ends_with(".html"));
    assert!(k.name[..12].chars().all(|c| c.is_ascii_digit()));
}

fn key() -> CacheKey {
    CacheKey { bucket: "data/html/topics/".to_string(), name: "201701011230.html".to_string() }
}

#[test]
fn fetch_reads_cache_first() {
    match fetch_step(&key(), FetchEvent::Start) {
        FetchAction::ReadCache(k) => {
            assert_eq!((k.bucket.as_str(), k.name.as_str()), ("data/html/topics/", "201701011230.html"))
        }
        _ => panic!("expected a cache read"),
    }
    match fetch_step(&key(), FetchEvent::CacheHit("cached".to_string())) {
        FetchAction::Return(t) => assert_eq!(t, "cached"),
        _ => panic!("expected the cached page"),
    }
}

#[test]
fn fetch_writes_through_on_miss() {
    assert!(matches!(fetch_step(&key(), FetchEvent::CacheMiss), FetchAction::Fetch));
    match fetch_step(&key(), FetchEvent::Fetched("fresh".to_string())) {
        FetchAction::Write(k, t) => {
            assert_eq!(k.name, "201701011230.html");
            assert_eq!(t, "fresh");
        }
        _ => panic!("expected a cache write"),
    }
    match fetch_step(&key(), FetchEvent::Written { text: "fresh".to_string(), ok: false }) {
        FetchAction::Return(t) => assert_eq!(t, "fresh"),
        _ => panic!("expected the fetched page"),
    }
}

#[test]
fn web_resource_fetches_once() {
    let mut w = WebResource::new();
    assert_eq!(w.get_step("http://a/"), None);
    assert_eq!(w.complete("http://a/", "page".to_string()), "page");
    assert_eq!(w.get_step("http://a/"), Some("page".to_string()));
}
