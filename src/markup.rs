//! A parsed markup document as plain values, and the searches the page
//! builder runs over it.
use vstd::prelude::*;
use vstd::string::*;

verus! {

/// One attribute of an element.
pub struct Attr {
    pub name: String,
    pub value: String,
}

/// A node of a parsed document: an element with its attributes and children,
/// or a run of text. The document itself is an element with an empty name.
pub enum MarkupNode {
    Element { name: String, attrs: Vec<Attr>, children: Vec<MarkupNode> },
    Text { data: String },
}

/// Value of the first attribute of `attrs` named `key`, from index `i` on.
pub open spec fn attr_from(attrs: Seq<Attr>, key: Seq<char>, i: int) -> Option<Seq<char>>
    decreases attrs.len() - i,
{
    if i < 0 || i >= attrs.len() {
        None
    } else if attrs[i].name@ == key {
        Some(attrs[i].value@)
    } else {
        attr_from(attrs, key, i + 1)
    }
}

/// Value of the first attribute of `attrs` named `key`.
pub open spec fn attr_value(attrs: Seq<Attr>, key: Seq<char>) -> Option<Seq<char>> {
    attr_from(attrs, key, 0)
}

/// All text under `m`, in document order.
pub open spec fn text_of(m: MarkupNode) -> Seq<char>
    decreases m, 0nat,
{
    match m {
        MarkupNode::Text { data } => data@,
        MarkupNode::Element { children, .. } => texts_from(children@, 0),
    }
}

/// All text under `ms[i..]`, in document order.
pub open spec fn texts_from(ms: Seq<MarkupNode>, i: int) -> Seq<char>
    decreases ms, ms.len() - i,
{
    if i < 0 || i >= ms.len() {
        Seq::empty()
    } else {
        text_of(ms[i]) + texts_from(ms, i + 1)
    }
}

/// Whitespace that separates the words of an attribute value.
pub open spec fn is_html_space(c: char) -> bool {
    c == ' ' || c == '\t' || c == '\n' || c == '\x0C' || c == '\r'
}

/// `w` stands in `s` at `i` as a whole word: nothing but whitespace or the
/// ends of `s` on either side.
pub open spec fn word_at(s: Seq<char>, w: Seq<char>, i: int) -> bool {
    &&& 0 <= i
    &&& i + w.len() <= s.len()
    &&& s.subrange(i, i + w.len()) == w
    &&& (i == 0 || is_html_space(s[i - 1]))
    &&& (i + w.len() == s.len() || is_html_space(s[i + w.len()]))
}

/// `w` is one of the whitespace-separated words of `s`.
pub open spec fn has_word(s: Seq<char>, w: Seq<char>) -> bool {
    w.len() > 0 && exists|i: int| word_at(s, w, i)
}

/// An element named `tag` (any name when `tag` is empty) whose attribute
/// `key` holds `value` as one of its words, as a class list holds a class (no
/// attribute test when `key` is empty).
pub open spec fn selects(m: MarkupNode, tag: Seq<char>, key: Seq<char>, value: Seq<char>) -> bool {
    match m {
        MarkupNode::Element { name, attrs, .. } => (tag.len() == 0 || name@ == tag) && (key.len()
            == 0 || match attr_value(attrs@, key) {
            Some(v) => has_word(v, value),
            None => false,
        }),
        MarkupNode::Text { .. } => false,
    }
}

/// The first node, in document order, of the tree `m` that matches.
pub open spec fn first_at(m: MarkupNode, tag: Seq<char>, key: Seq<char>, value: Seq<char>) -> Option<
    MarkupNode,
>
    decreases m, 0nat,
{
    if selects(m, tag, key, value) {
        Some(m)
    } else {
        match m {
            MarkupNode::Element { children, .. } => first_from(children@, 0, tag, key, value),
            MarkupNode::Text { .. } => None,
        }
    }
}

/// The first node, in document order, of the trees `ms[i..]` that matches.
pub open spec fn first_from(
    ms: Seq<MarkupNode>,
    i: int,
    tag: Seq<char>,
    key: Seq<char>,
    value: Seq<char>,
) -> Option<MarkupNode>
    decreases ms, ms.len() - i,
{
    if i < 0 || i >= ms.len() {
        None
    } else {
        match first_at(ms[i], tag, key, value) {
            Some(f) => Some(f),
            None => first_from(ms, i + 1, tag, key, value),
        }
    }
}

/// An element's children, and each child, are smaller than the element.
pub(crate) proof fn lemma_child_decreases(m: MarkupNode)
    requires
        m is Element,
    ensures
        decreases_to!(m => m->children@),
        forall|k: int| 0 <= k < m->children@.len() ==> decreases_to!(m => #[trigger] m->children@[k]),
{
    let children = m->children;
    assert(decreases_to!(m => children));
    assert(decreases_to!(children => children@));
    assert forall|k: int| 0 <= k < children@.len() implies decreases_to!(m => #[trigger] children@[k]) by {
        assert(decreases_to!(children@ => children@[k]));
    }
}

pub fn same_text(a: &String, b: &str) -> (r: bool)
    ensures
        r == (a@ == b@),
{
    *a == String::from_str(b)
}

/// Value of the first attribute of `attrs` named `key`.
pub fn find_attr<'a>(attrs: &'a Vec<Attr>, key: &str) -> (r: Option<&'a String>)
    ensures
        match r {
            Some(v) => attr_value(attrs@, key@) == Some(v@),
            None => attr_value(attrs@, key@) is None,
        },
{
    let mut i: usize = attrs.len();
    let mut found: Option<&'a String> = None;
    // Walk backwards so that the first match is the one kept.
    while i > 0
        invariant
            i <= attrs@.len(),
            match found {
                Some(v) => attr_from(attrs@, key@, i as int) == Some(v@),
                None => attr_from(attrs@, key@, i as int) is None,
            },
        decreases i,
    {
        i = i - 1;
        if same_text(&attrs[i].name, key) {
            found = Some(&attrs[i].value);
        }
    }
    found
}

/// All text under `m`, added to `out`.
pub fn append_text(m: &MarkupNode, out: &mut String)
    ensures
        final(out)@ == old(out)@ + text_of(*m),
    decreases m,
{
    match m {
        MarkupNode::Text { data } => {
            out.append(data.as_str());
        },
        MarkupNode::Element { children, .. } => {
            let ghost start = out@;
            let mut k: usize = 0;
            while k < children.len()
                invariant
                    *m is Element,
                    m->children == *children,
                    k <= children@.len(),
                    out@ + texts_from(children@, k as int) == start + texts_from(children@, 0),
                decreases children@.len() - k,
            {
                proof {
                    lemma_child_decreases(*m);
                }
                let ghost before = out@;
                append_text(&children[k], out);
                assert(before + texts_from(children@, k as int) =~= out@ + texts_from(
                    children@,
                    k + 1,
                ));
                k = k + 1;
            }
            assert(out@ =~= start + texts_from(children@, 0));
        },
    }
}

/// All text under `m`.
pub fn text_contents(m: &MarkupNode) -> (r: String)
    ensures
        r@ == text_of(*m),
{
    let mut r = String::new();
    append_text(m, &mut r);
    assert(r@ =~= text_of(*m));
    r
}

fn chars_of(s: &str) -> (r: Vec<char>)
    ensures
        r@ == s@,
{
    let n = s.unicode_len();
    let mut r: Vec<char> = Vec::new();
    let mut i: usize = 0;
    while i < n
        invariant
            n == s@.len(),
            i <= n,
            r@ == s@.take(i as int),
        decreases n - i,
    {
        r.push(s.get_char(i));
        assert(r@ =~= s@.take(i + 1));
        i = i + 1;
    }
    assert(s@.take(n as int) =~= s@);
    r
}

fn space_char(c: char) -> (r: bool)
    ensures
        r == is_html_space(c),
{
    c == ' ' || c == '\t' || c == '\n' || c == '\x0C' || c == '\r'
}

fn same_at(sv: &Vec<char>, wv: &Vec<char>, i: usize) -> (r: bool)
    requires
        i + wv@.len() <= sv@.len(),
    ensures
        r == (sv@.subrange(i as int, i + wv@.len()) == wv@),
{
    let m = wv.len();
    let n = sv.len();
    let mut j: usize = 0;
    while j < m
        invariant
            n == sv@.len(),
            i + m <= n,
            m == wv@.len(),
            j <= m,
            sv@.subrange(i as int, i + j) == wv@.subrange(0, j as int),
        decreases m - j,
    {
        if sv[i + j] != wv[j] {
            assert(sv@.subrange(i as int, i + m)[j as int] != wv@[j as int]);
            return false;
        }
        assert(sv@.subrange(i as int, i + j + 1) =~= wv@.subrange(0, j + 1));
        j = j + 1;
    }
    assert(wv@.subrange(0, m as int) =~= wv@);
    true
}

/// Whether `w` is one of the whitespace-separated words of `s`.
pub fn holds_word(s: &str, w: &str) -> (r: bool)
    ensures
        r == has_word(s@, w@),
{
    let sv = chars_of(s);
    let wv = chars_of(w);
    let n = sv.len();
    let m = wv.len();
    if m == 0 {
        return false;
    }
    if m > n {
        assert(forall|k: int| !word_at(s@, w@, k));
        return false;
    }
    let mut i: usize = 0;
    while i <= n - m
        invariant
            sv@ == s@,
            wv@ == w@,
            n == s@.len(),
            m == w@.len(),
            0 < m <= n,
            i <= n - m + 1,
            forall|k: int| 0 <= k < i ==> !word_at(s@, w@, k),
        decreases n - m + 1 - i,
    {
        let before = i == 0 || space_char(sv[i - 1]);
        let after = i + m == n || space_char(sv[i + m]);
        if before && after && same_at(&sv, &wv, i) {
            assert(word_at(s@, w@, i as int));
            return true;
        }
        i = i + 1;
    }
    assert(forall|k: int| !word_at(s@, w@, k));
    false
}

/// Whether `m` matches (see `selects`).
pub fn is_match(m: &MarkupNode, tag: &str, key: &str, value: &str) -> (r: bool)
    ensures
        r == selects(*m, tag@, key@, value@),
{
    match m {
        MarkupNode::Element { name, attrs, .. } => {
            let tag_ok = tag.is_empty() || same_text(name, tag);
            let attr_ok = key.is_empty() || match find_attr(attrs, key) {
                Some(v) => holds_word(v.as_str(), value),
                None => false,
            };
            tag_ok && attr_ok
        },
        MarkupNode::Text { .. } => false,
    }
}

/// The first node of the tree `m`, in document order, that matches.
pub fn find_first<'a>(m: &'a MarkupNode, tag: &str, key: &str, value: &str) -> (r: Option<
    &'a MarkupNode,
>)
    ensures
        match r {
            Some(f) => first_at(*m, tag@, key@, value@) == Some(*f),
            None => first_at(*m, tag@, key@, value@) is None,
        },
    decreases m,
{
    if is_match(m, tag, key, value) {
        return Some(m);
    }
    match m {
        MarkupNode::Element { children, .. } => {
            let mut i: usize = 0;
            while i < children.len()
                invariant
                    *m is Element,
                    m->children == *children,
                    !selects(*m, tag@, key@, value@),
                    i <= children@.len(),
                    first_from(children@, 0, tag@, key@, value@) == first_from(
                        children@,
                        i as int,
                        tag@,
                        key@,
                        value@,
                    ),
                decreases children@.len() - i,
            {
                proof {
                    lemma_child_decreases(*m);
                }
                match find_first(&children[i], tag, key, value) {
                    Some(f) => {
                        assert(first_from(children@, i as int, tag@, key@, value@) == Some(*f));
                        return Some(f);
                    },
                    None => {},
                }
                i = i + 1;
            }
            None
        },
        MarkupNode::Text { .. } => None,
    }
}

} // verus!
