//! The two clean-up passes applied to every node sequence of a reply body:
//! the trailing blank-line artifact is trimmed, then leading line breaks are
//! dropped.
use vstd::prelude::*;
use crate::reply_model::NodeType;

verus! {

/// A `Text` node whose content is empty.
pub open spec fn is_blank_text(n: NodeType) -> bool {
    match n {
        NodeType::Text { data } => data@.len() == 0,
        _ => false,
    }
}

/// The sequence is longer than four nodes and ends in three line breaks
/// followed by an empty text node: the artifact the forum template appends.
pub open spec fn has_blank_tail(s: Seq<NodeType>) -> bool {
    &&& s.len() > 4
    &&& s[s.len() - 4] is Br
    &&& s[s.len() - 3] is Br
    &&& s[s.len() - 2] is Br
    &&& is_blank_text(s[s.len() - 1])
}

/// `s` with the blank tail removed, when it has one.
pub open spec fn trimmed(s: Seq<NodeType>) -> Seq<NodeType> {
    if has_blank_tail(s) {
        s.subrange(0, s.len() - 4)
    } else {
        s
    }
}

/// Number of line breaks that open `s`.
pub open spec fn leading_breaks(s: Seq<NodeType>) -> nat
    decreases s.len(),
{
    if s.len() > 0 && s[0] is Br {
        1 + leading_breaks(s.drop_first())
    } else {
        0
    }
}

/// `s` without the line breaks that open it.
pub open spec fn collapsed(s: Seq<NodeType>) -> Seq<NodeType> {
    s.subrange(leading_breaks(s) as int, s.len() as int)
}

/// Both passes, tail first.
pub open spec fn cleaned(s: Seq<NodeType>) -> Seq<NodeType> {
    collapsed(trimmed(s))
}

/// Number of line breaks in `s`.
pub open spec fn count_breaks(s: Seq<NodeType>) -> nat
    decreases s.len(),
{
    if s.len() == 0 {
        0
    } else {
        count_breaks(s.drop_last()) + if s.last() is Br { 1nat } else { 0nat }
    }
}

proof fn lemma_leading_breaks_bound(s: Seq<NodeType>)
    ensures
        leading_breaks(s) <= s.len(),
        forall|i: int| 0 <= i < leading_breaks(s) ==> (#[trigger] s[i]) is Br,
        leading_breaks(s) < s.len() ==> !(s[leading_breaks(s) as int] is Br),
    decreases s.len(),
{
    if s.len() > 0 && s[0] is Br {
        lemma_leading_breaks_bound(s.drop_first());
        assert forall|i: int| 0 <= i < leading_breaks(s) implies (#[trigger] s[i]) is Br by {
            if i > 0 {
                assert(s[i] == s.drop_first()[i - 1]);
            }
        }
    }
}

proof fn lemma_count_breaks_append(a: Seq<NodeType>, b: Seq<NodeType>)
    ensures
        count_breaks(a + b) == count_breaks(a) + count_breaks(b),
    decreases b.len(),
{
    if b.len() == 0 {
        assert(a + b =~= a);
    } else {
        lemma_count_breaks_append(a, b.drop_last());
        assert((a + b).drop_last() =~= a + b.drop_last());
    }
}

proof fn lemma_count_breaks_all(s: Seq<NodeType>)
    requires
        forall|i: int| 0 <= i < s.len() ==> (#[trigger] s[i]) is Br,
    ensures
        count_breaks(s) == s.len(),
    decreases s.len(),
{
    if s.len() > 0 {
        lemma_count_breaks_all(s.drop_last());
    }
}

fn is_br(n: &NodeType) -> (r: bool)
    ensures
        r == (*n is Br),
{
    match n {
        NodeType::Br => true,
        _ => false,
    }
}

fn is_blank(n: &NodeType) -> (r: bool)
    ensures
        r == is_blank_text(*n),
{
    match n {
        NodeType::Text { data } => data.as_str().is_empty(),
        _ => false,
    }
}

/// Drops the trailing blank-line artifact: the last four nodes go when the
/// sequence is longer than four and ends in three line breaks and an empty
/// text node; any other sequence is left as it is.
pub fn trim_tail(nodes: &mut Vec<NodeType>)
    ensures
        final(nodes)@ == trimmed(old(nodes)@),
{
    let n = nodes.len();
    if n > 4 && is_br(&nodes[n - 4]) && is_br(&nodes[n - 3]) && is_br(&nodes[n - 2]) && is_blank(
        &nodes[n - 1],
    ) {
        nodes.truncate(n - 4);
    }
}

/// Drops every line break that comes before the first other node.
pub fn collapse_leading_breaks(nodes: Vec<NodeType>) -> (r: Vec<NodeType>)
    ensures
        r@ == collapsed(nodes@),
{
    let mut nodes = nodes;
    let mut k: usize = 0;
    while k < nodes.len() && is_br(&nodes[k])
        invariant
            k <= nodes@.len(),
            forall|i: int| 0 <= i < k ==> (#[trigger] nodes@[i]) is Br,
        decreases nodes@.len() - k,
    {
        k = k + 1;
    }
    proof {
        lemma_leading_breaks_bound(nodes@);
        lemma_leading_is_first_non_break(nodes@, k as int);
    }
    nodes.split_off(k)
}

proof fn lemma_leading_is_first_non_break(s: Seq<NodeType>, k: int)
    requires
        0 <= k <= s.len(),
        forall|i: int| 0 <= i < k ==> (#[trigger] s[i]) is Br,
        k == s.len() || !(s[k] is Br),
    ensures
        leading_breaks(s) == k,
    decreases s.len(),
{
    if k > 0 {
        let t = s.drop_first();
        assert forall|i: int| 0 <= i < k - 1 implies (#[trigger] t[i]) is Br by {
            assert(t[i] == s[i + 1]);
        }
        if k < s.len() {
            assert(t[k - 1] == s[k]);
        }
        lemma_leading_is_first_non_break(t, k - 1);
    }
}

/// Both clean-up passes, tail first.
pub fn clean_nodes(nodes: Vec<NodeType>) -> (r: Vec<NodeType>)
    ensures
        r@ == cleaned(nodes@),
{
    let mut nodes = nodes;
    trim_tail(&mut nodes);
    collapse_leading_breaks(nodes)
}

/// A sequence that ends in the blank tail loses exactly those four nodes and
/// keeps everything before them; any other sequence comes back unchanged.
pub proof fn lemma_trim_removes_exactly_the_tail(s: Seq<NodeType>)
    ensures
        has_blank_tail(s) ==> trimmed(s).len() == s.len() - 4 && trimmed(s) =~= s.subrange(
            0,
            s.len() - 4,
        ),
        !has_blank_tail(s) ==> trimmed(s) == s,
{
}

/// After dropping the leading breaks, the sequence opens with no line break,
/// and every break that stood after the first other node is still there, in
/// the same number.
pub proof fn lemma_collapse_keeps_inner_breaks(s: Seq<NodeType>)
    ensures
        collapsed(s).len() > 0 ==> !(collapsed(s)[0] is Br),
        count_breaks(collapsed(s)) + leading_breaks(s) == count_breaks(s),
        s =~= s.subrange(0, leading_breaks(s) as int) + collapsed(s),
{
    lemma_leading_breaks_bound(s);
    let k = leading_breaks(s) as int;
    let head = s.subrange(0, k);
    assert(s =~= head + collapsed(s));
    lemma_count_breaks_append(head, collapsed(s));
    lemma_count_breaks_all(head);
}

} // verus!
