//! Builds a thread page from a parsed document: pagination, title, reply
//! rows, and each reply's body as a cleaned node tree.
//!
//! The page layout this reads:
//! - the thread title is the text of the first `title` element;
//! - the reply count is the text of the first element of class `reply_count`
//!   (an element is of a class when its class list holds that word);
//! - the page selector is the first `select` element named `page` (its
//!   `name` attribute holds that word): its
//!   `option` children are the pages, the one marked `selected` the current
//!   one (the first page when none is);
//! - a reply row is an element that carries both a `userid` and a `username`
//!   attribute; rows do not nest;
//! - in a row, the publication time is the text of the first element of class
//!   `repliers_time`, and the body is the children of the first element of
//!   class `ContentGrid`;
//! - in a body, `br` is a line break, `img` an image (its `src`, else its
//!   `alt`), `blockquote` a quotation of its own children, and anything else
//!   stands for its text.
use vstd::prelude::*;
use vstd::string::*;
use crate::reply_model::NodeType;
use crate::cleanup::{cleaned, clean_nodes};
use crate::markup::{
    Attr, MarkupNode, attr_value, text_of, selects, first_at, find_attr, find_first, same_text,
    text_contents, is_match,
};
use crate::model::{ShowItem, ShowReplyItem, UrlQueryItem};
use crate::query::{query_value, url_query_value};

verus! {

pub open spec fn tag_br() -> Seq<char> {
    seq!['b', 'r']
}

pub open spec fn tag_img() -> Seq<char> {
    seq!['i', 'm', 'g']
}

pub open spec fn tag_blockquote() -> Seq<char> {
    seq!['b', 'l', 'o', 'c', 'k', 'q', 'u', 'o', 't', 'e']
}

/// What an image stands for: its `src`, else its `alt`, else nothing.
pub open spec fn image_source(attrs: Seq<Attr>) -> Seq<char> {
    match attr_value(attrs, seq!['s', 'r', 'c']) {
        Some(v) => v,
        None => match attr_value(attrs, seq!['a', 'l', 't']) {
            Some(v) => v,
            None => Seq::empty(),
        },
    }
}

/// `n` is what the markup node `m` becomes in a reply body.
pub open spec fn converts(m: MarkupNode, n: NodeType) -> bool
    decreases m, 0nat,
{
    match m {
        MarkupNode::Text { data } => match n {
            NodeType::Text { data: d } => d@ == data@,
            _ => false,
        },
        MarkupNode::Element { name, attrs, children } => if name@ == tag_br() {
            n is Br
        } else if name@ == tag_img() {
            match n {
                NodeType::Image { data } => data@ == image_source(attrs@),
                _ => false,
            }
        } else if name@ == tag_blockquote() {
            match n {
                NodeType::BlockQuote { data } => builds(children@, data@),
                _ => false,
            }
        } else {
            match n {
                NodeType::Text { data } => data@ == text_of(m),
                _ => false,
            }
        },
    }
}

/// `out` is the markup sequence `ms` converted node for node and then
/// cleaned.
pub open spec fn builds(ms: Seq<MarkupNode>, out: Seq<NodeType>) -> bool
    decreases ms, 1nat,
{
    exists|raw: Seq<NodeType>|
        {
            &&& raw.len() == ms.len()
            &&& forall|i: int| 0 <= i < ms.len() ==> converts(#[trigger] ms[i], raw[i])
            &&& out == cleaned(raw)
        }
}

fn image_source_of(attrs: &Vec<Attr>) -> (r: String)
    ensures
        r@ == image_source(attrs@),
{
    proof {
        reveal_strlit("src");
        reveal_strlit("alt");
        assert("src"@ =~= seq!['s', 'r', 'c']);
        assert("alt"@ =~= seq!['a', 'l', 't']);
    }
    match find_attr(attrs, "src") {
        Some(v) => v.clone(),
        None => match find_attr(attrs, "alt") {
            Some(v) => v.clone(),
            None => String::new(),
        },
    }
}

/// Converts a sequence of content markup into a cleaned reply body:
/// line breaks, images, quotations (converted and cleaned in turn) and text.
pub fn convert_nodes(ms: &Vec<MarkupNode>) -> (r: Vec<NodeType>)
    ensures
        builds(ms@, r@),
    decreases ms@,
{
    proof {
        reveal_strlit("br");
        reveal_strlit("img");
        reveal_strlit("blockquote");
        assert("br"@ =~= tag_br());
        assert("img"@ =~= tag_img());
        assert("blockquote"@ =~= tag_blockquote());
    }
    let mut raw: Vec<NodeType> = Vec::new();
    let mut i: usize = 0;
    while i < ms.len()
        invariant
            i <= ms@.len(),
            raw@.len() == i,
            "br"@ == tag_br(),
            "img"@ == tag_img(),
            "blockquote"@ == tag_blockquote(),
            forall|j: int| 0 <= j < i ==> converts(#[trigger] ms@[j], raw@[j]),
        decreases ms@.len() - i,
    {
        let node = match &ms[i] {
            MarkupNode::Text { data } => NodeType::Text { data: data.clone() },
            MarkupNode::Element { name, attrs, children } => {
                if same_text(name, "br") {
                    NodeType::Br
                } else if same_text(name, "img") {
                    NodeType::Image { data: image_source_of(attrs) }
                } else if same_text(name, "blockquote") {
                    proof {
                        assert(decreases_to!(ms@ => ms@[i as int]));
                        crate::markup::lemma_child_decreases(ms@[i as int]);
                    }
                    NodeType::BlockQuote { data: convert_nodes(children) }
                } else {
                    NodeType::Text { data: text_contents(&ms[i]) }
                }
            },
        };
        raw.push(node);
        i = i + 1;
    }
    let ghost raw_view = raw@;
    let r = clean_nodes(raw);
    assert(raw_view.len() == ms@.len() && (forall|j: int|
        0 <= j < ms@.len() ==> converts(#[trigger] ms@[j], raw_view[j])) && r@ == cleaned(
        raw_view,
    ));
    r
}


pub open spec fn key_userid() -> Seq<char> {
    seq!['u', 's', 'e', 'r', 'i', 'd']
}

pub open spec fn key_username() -> Seq<char> {
    seq!['u', 's', 'e', 'r', 'n', 'a', 'm', 'e']
}

pub open spec fn key_class() -> Seq<char> {
    seq!['c', 'l', 'a', 's', 's']
}

pub open spec fn class_content() -> Seq<char> {
    seq!['C', 'o', 'n', 't', 'e', 'n', 't', 'G', 'r', 'i', 'd']
}

pub open spec fn class_time() -> Seq<char> {
    seq!['r', 'e', 'p', 'l', 'i', 'e', 'r', 's', '_', 't', 'i', 'm', 'e']
}

/// An element that carries both author attributes.
pub open spec fn is_row(m: MarkupNode) -> bool {
    match m {
        MarkupNode::Element { attrs, .. } => attr_value(attrs@, key_userid()) is Some
            && attr_value(attrs@, key_username()) is Some,
        MarkupNode::Text { .. } => false,
    }
}

/// The reply rows of the tree `m`, in document order; a row's own subtree is
/// not searched for more.
pub open spec fn rows_at(m: MarkupNode) -> Seq<MarkupNode>
    decreases m, 0nat,
{
    if is_row(m) {
        seq![m]
    } else {
        match m {
            MarkupNode::Element { children, .. } => rows_from(children@, 0),
            MarkupNode::Text { .. } => Seq::empty(),
        }
    }
}

pub open spec fn rows_from(ms: Seq<MarkupNode>, i: int) -> Seq<MarkupNode>
    decreases ms, ms.len() - i,
{
    if i < 0 || i >= ms.len() {
        Seq::empty()
    } else {
        rows_at(ms[i]) + rows_from(ms, i + 1)
    }
}

/// Text of a found node, or nothing.
pub open spec fn text_or_empty(f: Option<MarkupNode>) -> Seq<char> {
    match f {
        Some(n) => text_of(n),
        None => Seq::empty(),
    }
}

/// The content markup of a row: the children of its first `ContentGrid`
/// element.
pub open spec fn content_of(row: MarkupNode) -> Seq<MarkupNode> {
    match first_at(row, Seq::empty(), key_class(), class_content()) {
        Some(MarkupNode::Element { children, .. }) => children@,
        _ => Seq::empty(),
    }
}

/// `r` is the reply that the row `row` holds.
pub open spec fn reply_of(row: MarkupNode, r: ShowReplyItem) -> bool {
    match row {
        MarkupNode::Element { attrs, .. } => {
            &&& attr_value(attrs@, key_userid()) == Some(r.userid@)
            &&& attr_value(attrs@, key_username()) == Some(r.username@)
            &&& r.published_at@ == text_or_empty(
                first_at(row, Seq::empty(), key_class(), class_time()),
            )
            &&& builds(content_of(row), r.body@)
        },
        MarkupNode::Text { .. } => false,
    }
}

/// `rs` holds, in order, the replies of the rows `rows`.
pub open spec fn replies_of(rows: Seq<MarkupNode>, rs: Seq<ShowReplyItem>) -> bool {
    &&& rs.len() == rows.len()
    &&& forall|j: int| 0 <= j < rows.len() ==> reply_of(#[trigger] rows[j], rs[j])
}

fn row_attrs(m: &MarkupNode) -> (r: Option<(String, String)>)
    ensures
        match r {
            Some(p) => is_row(*m) && (m matches MarkupNode::Element { attrs, .. } && attr_value(
                attrs@,
                key_userid(),
            ) == Some(p.0@) && attr_value(attrs@, key_username()) == Some(p.1@)),
            None => !is_row(*m),
        },
{
    proof {
        reveal_strlit("userid");
        reveal_strlit("username");
        assert("userid"@ =~= key_userid());
        assert("username"@ =~= key_username());
    }
    match m {
        MarkupNode::Element { attrs, .. } => match (
            find_attr(attrs, "userid"),
            find_attr(attrs, "username"),
        ) {
            (Some(id), Some(name)) => Some((id.clone(), name.clone())),
            _ => None,
        },
        MarkupNode::Text { .. } => None,
    }
}

/// The reply that the row `row` holds.
fn build_reply(row: &MarkupNode, userid: String, username: String) -> (r: ShowReplyItem)
    requires
        row matches MarkupNode::Element { attrs, .. } && attr_value(attrs@, key_userid()) == Some(
            userid@,
        ) && attr_value(attrs@, key_username()) == Some(username@),
    ensures
        reply_of(*row, r),
{
    proof {
        reveal_strlit("class");
        reveal_strlit("ContentGrid");
        reveal_strlit("repliers_time");
        reveal_strlit("");
        assert("class"@ =~= key_class());
        assert("ContentGrid"@ =~= class_content());
        assert("repliers_time"@ =~= class_time());
        assert(""@ =~= Seq::<char>::empty());
    }
    let published_at = match find_first(row, "", "class", "repliers_time") {
        Some(t) => text_contents(t),
        None => String::new(),
    };
    let body = match find_first(row, "", "class", "ContentGrid") {
        Some(MarkupNode::Element { children, .. }) => convert_nodes(children),
        _ => {
            let none: Vec<MarkupNode> = Vec::new();
            let b = convert_nodes(&none);
            proof {
                assert(none@ =~= content_of(*row));
            }
            b
        },
    };
    ShowReplyItem { userid, username, published_at, body }
}

/// Adds to `out` the replies of the rows of the tree `m`, in document order.
fn collect_replies(m: &MarkupNode, out: &mut Vec<ShowReplyItem>)
    ensures
        final(out)@.len() == old(out)@.len() + rows_at(*m).len(),
        final(out)@.subrange(0, old(out)@.len() as int) == old(out)@,
        replies_of(rows_at(*m), final(out)@.subrange(old(out)@.len() as int, final(out)@.len() as int)),
    decreases m,
{
    let ghost start = out@;
    match row_attrs(m) {
        Some((userid, username)) => {
            let r = build_reply(m, userid, username);
            out.push(r);
            assert(out@.subrange(0, start.len() as int) =~= start);
            assert(out@.subrange(start.len() as int, out@.len() as int) =~= seq![r]);
            return;
        },
        None => {},
    }
    match m {
        MarkupNode::Element { children, .. } => {
            let mut i: usize = 0;
            while i < children.len()
                invariant
                    *m is Element,
                    m->children == *children,
                    !is_row(*m),
                    i <= children@.len(),
                    out@.len() == start.len() + rows_from(children@, 0).len() - rows_from(children@, i as int).len(),
                    out@.subrange(0, start.len() as int) == start,
                    rows_from(children@, 0) == rows_from(children@, 0).subrange(0, out@.len() - start.len()) + rows_from(children@, i as int),
                    replies_of(
                        rows_from(children@, 0).subrange(0, out@.len() - start.len()),
                        out@.subrange(start.len() as int, out@.len() as int),
                    ),
                decreases children@.len() - i,
            {
                proof {
                    crate::markup::lemma_child_decreases(*m);
                }
                let ghost before = out@;
                collect_replies(&children[i], out);
                proof {
                    let all = rows_from(children@, 0);
                    let done = (before.len() - start.len()) as int;
                    let added = rows_at(children@[i as int]);
                    assert(rows_from(children@, i as int) == added + rows_from(children@, i + 1));
                    assert(all.subrange(0, done + added.len()) =~= all.subrange(0, done) + added);
                    assert(all =~= all.subrange(0, done + added.len()) + rows_from(children@, i + 1));
                    assert(out@.subrange(0, start.len() as int) =~= before.subrange(0, start.len() as int));
                    let prev = before.subrange(start.len() as int, before.len() as int);
                    let now = out@.subrange(start.len() as int, out@.len() as int);
                    let tail = out@.subrange(before.len() as int, out@.len() as int);
                    assert(now =~= prev + tail);
                    assert forall|j: int| 0 <= j < done + added.len() implies reply_of(
                        #[trigger] all.subrange(0, done + added.len())[j],
                        now[j],
                    ) by {
                        if j < done {
                            assert(all.subrange(0, done + added.len())[j] == all.subrange(0, done)[j]);
                            assert(now[j] == prev[j]);
                        } else {
                            assert(all.subrange(0, done + added.len())[j] == added[j - done]);
                            assert(now[j] == tail[j - done]);
                        }
                    }
                }
                i = i + 1;
            }
            assert(rows_from(children@, i as int) == Seq::<MarkupNode>::empty());
            assert(rows_from(children@, 0).subrange(0, out@.len() - start.len()) =~= rows_from(children@, 0));
        },
        MarkupNode::Text { .. } => {
            assert(out@.subrange(0, start.len() as int) =~= start);
            assert(out@.subrange(start.len() as int, out@.len() as int) =~= Seq::<ShowReplyItem>::empty());
        },
    }
}


pub open spec fn tag_option() -> Seq<char> {
    seq!['o', 'p', 't', 'i', 'o', 'n']
}

pub open spec fn tag_select() -> Seq<char> {
    seq!['s', 'e', 'l', 'e', 'c', 't']
}

pub open spec fn tag_title() -> Seq<char> {
    seq!['t', 'i', 't', 'l', 'e']
}

pub open spec fn key_selected() -> Seq<char> {
    seq!['s', 'e', 'l', 'e', 'c', 't', 'e', 'd']
}

pub open spec fn key_name() -> Seq<char> {
    seq!['n', 'a', 'm', 'e']
}

pub open spec fn value_page() -> Seq<char> {
    seq!['p', 'a', 'g', 'e']
}

pub open spec fn class_reply_count() -> Seq<char> {
    seq!['r', 'e', 'p', 'l', 'y', '_', 'c', 'o', 'u', 'n', 't']
}

pub open spec fn key_message() -> Seq<char> {
    seq!['m', 'e', 's', 's', 'a', 'g', 'e']
}

pub open spec fn is_selected(m: MarkupNode) -> bool {
    match m {
        MarkupNode::Element { attrs, .. } => attr_value(attrs@, key_selected()) is Some,
        MarkupNode::Text { .. } => false,
    }
}

/// Over the children of a page selector: the 1-based position of the first
/// selected `option` (0 when none is), and the number of `option`s.
pub open spec fn page_scan(cs: Seq<MarkupNode>) -> (nat, nat)
    decreases cs.len(),
{
    if cs.len() == 0 {
        (0, 0)
    } else {
        let prev = page_scan(cs.drop_last());
        let c = cs.last();
        if selects(c, tag_option(), Seq::empty(), Seq::empty()) {
            (
                if prev.0 == 0 && is_selected(c) {
                    prev.1 + 1
                } else {
                    prev.0
                },
                prev.1 + 1,
            )
        } else {
            prev
        }
    }
}

proof fn lemma_page_scan_bound(cs: Seq<MarkupNode>)
    ensures
        page_scan(cs).0 <= page_scan(cs).1,
    decreases cs.len(),
{
    if cs.len() > 0 {
        lemma_page_scan_bound(cs.drop_last());
    }
}

/// Current page and number of pages: from the page selector, the first page
/// of one when the document has none.
pub open spec fn page_info(doc: MarkupNode) -> (nat, nat) {
    match first_at(doc, tag_select(), key_name(), value_page()) {
        Some(MarkupNode::Element { children, .. }) => {
            let s = page_scan(children@);
            (
                if s.0 == 0 {
                    1
                } else {
                    s.0
                },
                s.1,
            )
        },
        _ => (1, 1),
    }
}

/// The thread identifier of a reply page's address: its `message` query
/// parameter, empty when it has none.
pub open spec fn thread_id(url: Seq<char>) -> Seq<char> {
    match query_value(url, key_message()) {
        Some(v) => v,
        None => Seq::empty(),
    }
}

fn page_numbers(doc: &MarkupNode) -> (r: (usize, usize))
    ensures
        (r.0 as nat, r.1 as nat) == page_info(*doc),
{
    proof {
        reveal_strlit("select");
        reveal_strlit("name");
        reveal_strlit("page");
        reveal_strlit("option");
        reveal_strlit("selected");
        reveal_strlit("");
        assert("select"@ =~= tag_select());
        assert("name"@ =~= key_name());
        assert("page"@ =~= value_page());
        assert("option"@ =~= tag_option());
        assert("selected"@ =~= key_selected());
        assert(""@ =~= Seq::<char>::empty());
    }
    match find_first(doc, "select", "name", "page") {
        Some(MarkupNode::Element { children, .. }) => {
            let mut sel: usize = 0;
            let mut n: usize = 0;
            let mut i: usize = 0;
            while i < children.len()
                invariant
                    i <= children@.len(),
                    n <= i,
                    "option"@ == tag_option(),
                    "selected"@ == key_selected(),
                    ""@ == Seq::<char>::empty(),
                    (sel as nat, n as nat) == page_scan(children@.take(i as int)),
                decreases children@.len() - i,
            {
                let c = &children[i];
                assert(children@.take(i + 1).drop_last() =~= children@.take(i as int));
                if is_match(c, "option", "", "") {
                    let marked = match c {
                        MarkupNode::Element { attrs, .. } => find_attr(attrs, "selected").is_some(),
                        MarkupNode::Text { .. } => false,
                    };
                    if sel == 0 && marked {
                        sel = n + 1;
                    }
                    n = n + 1;
                }
                i = i + 1;
            }
            assert(children@.take(i as int) =~= children@);
            (if sel == 0 {
                1
            } else {
                sel
            }, n)
        },
        _ => (1, 1),
    }
}

fn text_of_first(doc: &MarkupNode, tag: &str, key: &str, value: &str) -> (r: String)
    ensures
        r@ == text_or_empty(first_at(*doc, tag@, key@, value@)),
{
    match find_first(doc, tag, key, value) {
        Some(f) => text_contents(f),
        None => String::new(),
    }
}

/// Reads thread pages.
pub struct Builder {}

impl Builder {
    pub fn new() -> Builder {
        Builder {}
    }

    /// The thread identifier carried by the address of a reply page.
    pub fn url_query_item(&self, url: &str) -> (r: UrlQueryItem)
        ensures
            r.message@ == thread_id(url@),
    {
        proof {
            reveal_strlit("message");
            assert("message"@ =~= key_message());
        }
        match url_query_value(url, "message") {
            Some(v) => UrlQueryItem { message: v },
            None => UrlQueryItem { message: String::new() },
        }
    }

    /// The thread page that the document `doc`, fetched from `url`, shows.
    pub fn show_item(&self, doc: &MarkupNode, url: &str) -> (r: ShowItem)
        ensures
            r.title@ == text_or_empty(first_at(*doc, tag_title(), Seq::empty(), Seq::empty())),
            r.reply_count@ == text_or_empty(
                first_at(*doc, Seq::empty(), key_class(), class_reply_count()),
            ),
            (r.page as nat, r.max_page as nat) == page_info(*doc),
            r.wf(),
            r.url_query.message@ == thread_id(url@),
            replies_of(rows_at(*doc), r.replies@),
    {
        proof {
            reveal_strlit("title");
            reveal_strlit("class");
            reveal_strlit("reply_count");
            reveal_strlit("");
            assert("title"@ =~= tag_title());
            assert("class"@ =~= key_class());
            assert("reply_count"@ =~= class_reply_count());
            assert(""@ =~= Seq::<char>::empty());
        }
        let title = text_of_first(doc, "title", "", "");
        let reply_count = text_of_first(doc, "", "class", "reply_count");
        let (page, max_page) = page_numbers(doc);
        proof {
            match first_at(*doc, tag_select(), key_name(), value_page()) {
                Some(MarkupNode::Element { children, .. }) => lemma_page_scan_bound(children@),
                _ => {},
            }
        }
        let url_query = self.url_query_item(url);
        let mut replies: Vec<ShowReplyItem> = Vec::new();
        collect_replies(doc, &mut replies);
        assert(replies@.subrange(0, replies@.len() as int) =~= replies@);
        ShowItem { url_query, replies, page, max_page, reply_count, title }
    }
}

} // verus!
