//! Pages fetched in this run, by address, so that an address is fetched once.
use vstd::prelude::*;
use vstd::string::*;
use crate::caches::PageStore;

verus! {

/// The pages fetched so far, by address. Fetching itself happens outside the
/// library; its text, or the description of its failure, is stored here.
pub struct WebResource {
    pub pages: PageStore,
}

impl WebResource {
    pub fn new() -> (r: WebResource)
        ensures
            r.pages@ == Map::<Seq<char>, Seq<char>>::empty(),
    {
        WebResource { pages: PageStore::new() }
    }

    /// Whether `url` has been fetched already.
    pub fn has_page(&self, url: &str) -> (r: bool)
        ensures
            r == self.pages@.contains_key(url@),
    {
        self.pages.read(url).is_some()
    }

    /// Keeps what fetching `url` gave.
    pub fn store(&mut self, url: &str, page: String)
        ensures
            final(self).pages@ == old(self).pages@.insert(url@, page@),
    {
        self.pages.write(url, page);
    }

    /// The page at `url` when it was fetched already; none means it must be
    /// fetched now, and what that gives handed to `complete`.
    pub fn get_step(&self, url: &str) -> (r: Option<String>)
        ensures
            match r {
                Some(v) => self.pages@.contains_key(url@) && v@ == self.pages@[url@],
                None => !self.pages@.contains_key(url@),
            },
    {
        self.pages.read(url)
    }

    /// Keeps what fetching `url` gave, and returns it.
    pub fn complete(&mut self, url: &str, fetched: String) -> (r: String)
        ensures
            final(self).pages@ == old(self).pages@.insert(url@, fetched@),
            r@ == fetched@,
    {
        let r = fetched.clone();
        self.pages.write(url, fetched);
        r
    }

    /// The page fetched from `url`, or "None" when there is none.
    pub fn find(&self, url: &str) -> (r: String)
        ensures
            self.pages@.contains_key(url@) ==> r@ == self.pages@[url@],
            !self.pages@.contains_key(url@) ==> r@ == seq!['N', 'o', 'n', 'e'],
    {
        match self.pages.read(url) {
            Some(page) => page,
            None => {
                proof {
                    reveal_strlit("None");
                }
                String::from_str("None")
            },
        }
    }
}

} // verus!
