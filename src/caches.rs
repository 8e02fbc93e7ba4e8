//! Fetched page text kept by key: the page store, the in-memory cache in
//! front of the on-disk one, and the keys pages are cached under.
use vstd::prelude::*;
use vstd::string::*;
use crate::elapsed::{decimal, decimal_string};

verus! {

/// Page text by key, the latest write of a key winning.
pub struct PageStore {
    entries: Vec<(String, String)>,
}

pub open spec fn store_map(es: Seq<(String, String)>) -> Map<Seq<char>, Seq<char>>
    decreases es.len(),
{
    if es.len() == 0 {
        Map::empty()
    } else {
        store_map(es.drop_last()).insert(es.last().0@, es.last().1@)
    }
}

proof fn lemma_store_skip(es: Seq<(String, String)>, i: int, key: Seq<char>)
    requires
        0 <= i <= es.len(),
        forall|j: int| i <= j < es.len() ==> (#[trigger] es[j]).0@ != key,
    ensures
        store_map(es).contains_key(key) == store_map(es.take(i)).contains_key(key),
        store_map(es).contains_key(key) ==> store_map(es)[key] == store_map(es.take(i))[key],
    decreases es.len() - i,
{
    if i < es.len() {
        let d = es.drop_last();
        assert forall|j: int| i <= j < d.len() implies (#[trigger] d[j]).0@ != key by {
            assert(d[j] == es[j]);
        }
        lemma_store_skip(d, i, key);
        assert(d.take(i) =~= es.take(i));
    } else {
        assert(es.take(i) =~= es);
    }
}

proof fn lemma_store_update(es: Seq<(String, String)>, i: int, e: (String, String))
    requires
        0 <= i < es.len(),
        es[i].0@ == e.0@,
        forall|j: int| i < j < es.len() ==> (#[trigger] es[j]).0@ != e.0@,
    ensures
        store_map(es.update(i, e)) == store_map(es).insert(e.0@, e.1@),
    decreases es.len(),
{
    let u = es.update(i, e);
    if i == es.len() - 1 {
        assert(u.drop_last() =~= es.drop_last());
        assert(store_map(u) =~= store_map(es).insert(e.0@, e.1@));
    } else {
        let d = es.drop_last();
        assert forall|j: int| i < j < d.len() implies (#[trigger] d[j]).0@ != e.0@ by {
            assert(d[j] == es[j]);
        }
        lemma_store_update(d, i, e);
        assert(u.drop_last() =~= d.update(i, e));
        assert(es.last().0@ != e.0@);
        assert(store_map(u) =~= store_map(es).insert(e.0@, e.1@));
    }
}

impl View for PageStore {
    type V = Map<Seq<char>, Seq<char>>;

    closed spec fn view(&self) -> Map<Seq<char>, Seq<char>> {
        store_map(self.entries@)
    }
}

impl PageStore {
    pub fn new() -> (r: PageStore)
        ensures
            r@ == Map::<Seq<char>, Seq<char>>::empty(),
    {
        PageStore { entries: Vec::new() }
    }

    /// The text kept under `key`, if any.
    pub fn read(&self, key: &str) -> (r: Option<String>)
        ensures
            match r {
                Some(v) => self@.contains_key(key@) && self@[key@] == v@,
                None => !self@.contains_key(key@),
            },
    {
        let mut i: usize = self.entries.len();
        while i > 0
            invariant
                i <= self.entries@.len(),
                forall|j: int| i <= j < self.entries@.len() ==> (#[trigger] self.entries@[j]).0@
                    != key@,
            decreases i,
        {
            let e = &self.entries[i - 1];
            if crate::markup::same_text(&e.0, key) {
                proof {
                    let es = self.entries@;
                    lemma_store_skip(es, i as int, key@);
                    assert(es.take(i as int).drop_last() =~= es.take(i - 1));
                    assert(es.take(i as int).last() == es[i - 1]);
                }
                return Some(e.1.clone());
            }
            i = i - 1;
        }
        proof {
            lemma_store_skip(self.entries@, 0, key@);
            assert(self.entries@.take(0) =~= Seq::<(String, String)>::empty());
        }
        None
    }

    /// Keeps `text` under `key`, in place of what was there.
    pub fn write(&mut self, key: &str, text: String)
        ensures
            final(self)@ == old(self)@.insert(key@, text@),
    {
        let k = String::from_str(key);
        let mut i: usize = self.entries.len();
        while i > 0
            invariant
                i <= self.entries@.len(),
                k@ == key@,
                self.entries@ == old(self).entries@,
                forall|j: int| i <= j < self.entries@.len() ==> (#[trigger] self.entries@[j]).0@
                    != key@,
            decreases i,
        {
            if crate::markup::same_text(&self.entries[i - 1].0, key) {
                proof {
                    lemma_store_update(self.entries@, i - 1, (k, text));
                }
                self.entries.set(i - 1, (k, text));
                return;
            }
            i = i - 1;
        }
        self.entries.push((k, text));
        assert(self.entries@.drop_last() =~= old(self).entries@);
    }
}

/// Where a page is cached: a directory and a file name in it.
pub struct CacheKey {
    pub bucket: String,
    pub name: String,
}

/// The path a key stands for: the directory followed by the file name.
pub open spec fn cache_path(bucket: Seq<char>, name: Seq<char>) -> Seq<char> {
    bucket + name
}

fn join(bucket: &str, name: &str) -> (r: String)
    ensures
        r@ == cache_path(bucket@, name@),
{
    let mut r = String::from_str(bucket);
    r.append(name);
    r
}

/// Pages read or written in this run, by cache path: the fast layer in front
/// of the files.
pub struct MemoryCache {
    pub pages: PageStore,
}

impl View for MemoryCache {
    type V = Map<Seq<char>, Seq<char>>;

    open spec fn view(&self) -> Map<Seq<char>, Seq<char>> {
        self.pages@
    }
}

impl MemoryCache {
    pub fn new() -> (r: MemoryCache)
        ensures
            r@ == Map::<Seq<char>, Seq<char>>::empty(),
    {
        MemoryCache { pages: PageStore::new() }
    }

    /// The text cached under `name` in `bucket`; none is a miss.
    pub fn read(&self, bucket: &str, name: &str) -> (r: Option<String>)
        ensures
            match r {
                Some(v) => self@.contains_key(cache_path(bucket@, name@)) && self@[cache_path(
                    bucket@,
                    name@,
                )] == v@,
                None => !self@.contains_key(cache_path(bucket@, name@)),
            },
    {
        let path = join(bucket, name);
        self.pages.read(path.as_str())
    }

    /// Caches `content` under `name` in `bucket`.
    pub fn write(&mut self, bucket: &str, name: &str, content: String)
        ensures
            final(self)@ == old(self)@.insert(cache_path(bucket@, name@), content@),
    {
        let path = join(bucket, name);
        self.pages.write(path.as_str(), content);
    }
}

/// What is written under a cache path is read back from it, and a path that
/// was never written reads as a miss.
pub proof fn lemma_cache_round_trip(
    before: Map<Seq<char>, Seq<char>>,
    bucket: Seq<char>,
    name: Seq<char>,
    content: Seq<char>,
    other_bucket: Seq<char>,
    other_name: Seq<char>,
)
    requires
        !before.contains_key(cache_path(other_bucket, other_name)),
        cache_path(other_bucket, other_name) != cache_path(bucket, name),
    ensures
        ({
            let after = before.insert(cache_path(bucket, name), content);
            &&& after.contains_key(cache_path(bucket, name))
            &&& after[cache_path(bucket, name)] == content
            &&& !after.contains_key(cache_path(other_bucket, other_name))
        }),
{
}

pub open spec fn index_bucket() -> Seq<char> {
    seq!['d', 'a', 't', 'a', '/', 'h', 't', 'm', 'l', '/', 't', 'o', 'p', 'i', 'c', 's', '/']
}

pub open spec fn html_suffix() -> Seq<char> {
    seq!['.', 'h', 't', 'm', 'l']
}

/// Where the topic index fetched in the minute `stamp` (YYYYMMDDHHMM) is
/// cached: each minute has a file of its own, so an old snapshot is never
/// read again once its minute has passed.
pub fn index_cache_key(stamp: &str) -> (r: CacheKey)
    ensures
        r.bucket@ == index_bucket(),
        r.name@ == stamp@ + html_suffix(),
{
    proof {
        reveal_strlit("data/html/topics/");
        reveal_strlit(".html");
    }
    let mut name = String::from_str(stamp);
    name.append(".html");
    CacheKey { bucket: String::from_str("data/html/topics/"), name }
}

pub open spec fn show_bucket(postid: Seq<char>) -> Seq<char> {
    seq!['d', 'a', 't', 'a', '/', 'h', 't', 'm', 'l', '/'] + postid + seq!['/']
}

pub open spec fn show_name(page: nat) -> Seq<char> {
    seq!['s', 'h', 'o', 'w', '_'] + decimal(page) + html_suffix()
}

/// Where page `page` of the thread `postid` is cached.
pub fn show_cache_key(postid: &str, page: usize) -> (r: CacheKey)
    ensures
        r.bucket@ == show_bucket(postid@),
        r.name@ == show_name(page as nat),
{
    proof {
        reveal_strlit("data/html/");
        reveal_strlit("/");
        reveal_strlit("show_");
        reveal_strlit(".html");
    }
    let mut bucket = String::from_str("data/html/");
    bucket.append(postid);
    bucket.append("/");
    let mut name = String::from_str("show_");
    let digits = decimal_string(page as u64);
    name.append(digits.as_str());
    name.append(".html");
    assert(bucket@ =~= show_bucket(postid@));
    assert(name@ =~= show_name(page as nat));
    CacheKey { bucket, name }
}

/// The layout of a minute stamp: year, month, day, hour and minute, as
/// `%Y%m%d%H%M`.
pub open spec fn minute_layout() -> Seq<char> {
    seq!['%', 'Y', '%', 'm', '%', 'd', '%', 'H', '%', 'M']
}

/// Relies on the time crate's `now` and `Tm::strftime`: the local time now,
/// written in the layout `fmt`. `strftime` fails only on a layout it does not
/// know or a weekday or month out of range, which `now` never gives, so the
/// minute-stamp layout always succeeds.
#[verifier::external_body]
fn local_time_formatted(fmt: &str) -> (r: Option<String>)
    ensures
        fmt@ == minute_layout() ==> r is Some,
{
    time::now().strftime(fmt).ok().map(|t| t.to_string())
}

/// The key of the topic index for the current minute.
pub fn current_index_key() -> (r: Option<CacheKey>)
    ensures
        r is Some,
        r matches Some(k) ==> k.bucket@ == index_bucket() && k.name@.len() >= 5 && k.name@.skip(
            k.name@.len() - 5,
        ) == html_suffix(),
{
    proof {
        reveal_strlit("%Y%m%d%H%M");
        assert("%Y%m%d%H%M"@ =~= minute_layout());
    }
    match local_time_formatted("%Y%m%d%H%M") {
        Some(stamp) => {
            let k = index_cache_key(stamp.as_str());
            assert(k.name@.skip(k.name@.len() - 5) =~= html_suffix());
            Some(k)
        },
        None => None,
    }
}

} // verus!
