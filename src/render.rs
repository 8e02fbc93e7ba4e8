//! Lays a reply body out as rows under a vertical scroll offset. Rows above
//! the visible area are counted but not drawn, so a body is always walked
//! from its start.
use vstd::prelude::*;
use vstd::string::*;
use crate::reply_model::{NodeType, tree_size, node_size};
use crate::cleanup::count_breaks;
use crate::text_width::{repeat, repeat_str};

verus! {

/// One piece of text to draw at a terminal column and row.
pub struct DrawnLine {
    pub col: usize,
    pub row: usize,
    pub text: String,
}

/// A drawn line as (column, row, text).
pub open spec fn line_view(l: DrawnLine) -> (int, int, Seq<char>) {
    (l.col as int, l.row as int, l.text@)
}

pub open spec fn lines_view(s: Seq<DrawnLine>) -> Seq<(int, int, Seq<char>)> {
    s.map_values(|l: DrawnLine| line_view(l))
}

/// A row at absolute position `p` is shown when it lies below the two header
/// rows once `scroll` rows have been scrolled away.
pub open spec fn visible(p: int, scroll: int) -> bool {
    scroll + 1 < p
}

/// `lines` with `text` added at absolute row `p`, when that row is shown.
pub open spec fn emit(lines: Seq<(int, int, Seq<char>)>, p: int, scroll: int, text: Seq<char>) -> Seq<
    (int, int, Seq<char>),
> {
    if visible(p, scroll) {
        lines.push((0, p - scroll, text))
    } else {
        lines
    }
}

pub open spec fn branch_glyphs() -> Seq<char> {
    seq!['├', '─']
}

/// The prefix that marks nesting depth `depth`.
pub open spec fn indent(depth: nat) -> Seq<char> {
    repeat(branch_glyphs(), depth)
}

pub open spec fn image_label(data: Seq<char>) -> Seq<char> {
    seq!['[', 'i', 'm', 'g', ' '] + data + seq![']']
}

/// State of the walk over a node sequence: rows counted at this level, rows
/// taken by nested quotations, the line being gathered, whether no row has
/// been started yet, and the lines produced so far.
pub struct Walk {
    pub rows: nat,
    pub nested: nat,
    pub line: Seq<char>,
    pub is_first: bool,
    pub lines: Seq<(int, int, Seq<char>)>,
}

pub open spec fn walk_start() -> Walk {
    Walk { rows: 0, nested: 0, line: Seq::empty(), is_first: true, lines: Seq::empty() }
}

/// The walk after the first `i` nodes of `nodes`, laid out at nesting depth
/// `depth` from absolute row `y`.
pub open spec fn walk(nodes: Seq<NodeType>, depth: nat, y: int, scroll: int, i: nat) -> Walk
    decreases nodes, i,
{
    if i == 0 || i > nodes.len() {
        walk_start()
    } else {
        let w = walk(nodes, depth, y, scroll, (i - 1) as nat);
        let p = y + w.rows + w.nested;
        match nodes[i - 1] {
            NodeType::Text { data } => Walk { line: w.line + data@, ..w },
            NodeType::Image { data } => if data@.len() > 0 {
                Walk { line: w.line + image_label(data@), ..w }
            } else {
                w
            },
            NodeType::BlockQuote { data } => {
                let r = render_nodes_spec(data@, depth + 1, p, scroll);
                Walk { nested: w.nested + r.0, lines: w.lines + r.1, is_first: false, ..w }
            },
            NodeType::Br => {
                let flushed = w.line.len() > 0;
                let is_first = w.is_first && !flushed;
                Walk {
                    rows: if is_first {
                        w.rows
                    } else {
                        w.rows + 1
                    },
                    nested: w.nested,
                    line: if flushed {
                        Seq::empty()
                    } else {
                        w.line
                    },
                    is_first,
                    lines: if flushed {
                        emit(w.lines, p, scroll, seq![' '] + indent(depth) + w.line)
                    } else {
                        w.lines
                    },
                }
            },
        }
    }
}

/// Rows that `nodes` takes when laid out at depth `depth` from absolute row
/// `y`, and the lines drawn for them. Text and image nodes gather on a line;
/// a line break ends the line (a break before any row has started takes no
/// row); a quotation is laid out in full, one level deeper, where the next
/// row would start; a line still open at the end takes one more row.
pub open spec fn render_nodes_spec(nodes: Seq<NodeType>, depth: nat, y: int, scroll: int) -> (
    nat,
    Seq<(int, int, Seq<char>)>,
)
    decreases nodes, nodes.len() + 1,
{
    let w = walk(nodes, depth, y, scroll, nodes.len());
    let p = y + w.rows + w.nested;
    if w.line.len() > 0 {
        (
            w.rows + 1 + w.nested,
            emit(w.lines, p, scroll, seq![' '] + indent(depth) + w.line + seq![' ', ' ']),
        )
    } else {
        (w.rows + w.nested, w.lines)
    }
}

pub(crate) proof fn lemma_tree_size_take(s: Seq<NodeType>, i: int)
    requires
        0 <= i < s.len(),
    ensures
        tree_size(s.take(i + 1)) == tree_size(s.take(i)) + node_size(s[i]),
        tree_size(s.take(i)) + node_size(s[i]) <= tree_size(s),
    decreases s.len(),
{
    assert(s.take(i + 1).drop_last() =~= s.take(i));
    if i + 1 < s.len() {
        lemma_tree_size_take(s.drop_last(), i);
        assert(s.drop_last().take(i + 1) =~= s.take(i + 1));
        assert(s.drop_last().take(i) =~= s.take(i));
        assert(s.drop_last()[i] == s[i]);
    } else {
        assert(s.take(i + 1) =~= s);
    }
}

proof fn lemma_walk_bound(nodes: Seq<NodeType>, depth: nat, y: int, scroll: int, i: nat)
    requires
        i <= nodes.len(),
    ensures
        ({
            let w = walk(nodes, depth, y, scroll, i);
            w.rows + w.nested + (if w.line.len() > 0 {
                1int
            } else {
                0int
            }) <= tree_size(nodes.take(i as int))
        }),
    decreases nodes, i,
{
    if i == 0 {
        assert(nodes.take(0) =~= Seq::<NodeType>::empty());
    } else {
        lemma_walk_bound(nodes, depth, y, scroll, (i - 1) as nat);
        lemma_tree_size_take(nodes, i - 1);
        let w = walk(nodes, depth, y, scroll, (i - 1) as nat);
        let p = y + w.rows + w.nested;
        match nodes[i - 1] {
            NodeType::BlockQuote { data } => {
                assert(decreases_to!(nodes => nodes[i - 1]));
                lemma_render_bound(data@, depth + 1, p, scroll);
            },
            _ => {},
        }
    }
}

/// The rows a body takes never outnumber its nodes.
pub proof fn lemma_render_size(nodes: Seq<NodeType>, depth: nat, y: int, scroll: int)
    ensures
        render_nodes_spec(nodes, depth, y, scroll).0 <= tree_size(nodes),
{
    lemma_render_bound(nodes, depth, y, scroll);
}

proof fn lemma_render_bound(nodes: Seq<NodeType>, depth: nat, y: int, scroll: int)
    ensures
        render_nodes_spec(nodes, depth, y, scroll).0 <= tree_size(nodes),
    decreases nodes, nodes.len() + 1,
{
    lemma_walk_bound(nodes, depth, y, scroll, nodes.len());
    assert(nodes.take(nodes.len() as int) =~= nodes);
}

/// Lays `nodes` out at nesting depth `depth` from absolute row `y`, adds the
/// lines to draw to `out`, and returns the number of rows taken, those
/// scrolled away included.
pub fn render_nodes(
    nodes: &Vec<NodeType>,
    depth: usize,
    y: usize,
    scroll: usize,
    out: &mut Vec<DrawnLine>,
) -> (used: usize)
    requires
        y + tree_size(nodes@) <= usize::MAX,
        depth + tree_size(nodes@) <= usize::MAX,
    ensures
        used == render_nodes_spec(nodes@, depth as nat, y as int, scroll as int).0,
        lines_view(final(out)@) == lines_view(old(out)@) + render_nodes_spec(
            nodes@,
            depth as nat,
            y as int,
            scroll as int,
        ).1,
    decreases nodes@,
{
    let ghost d = depth as nat;
    let ghost start = lines_view(out@);
    let padding = repeat_str("├─", depth);
    proof {
        reveal_strlit("├─");
        assert("├─"@ =~= branch_glyphs());
    }
    let mut rows: usize = 0;
    let mut nested: usize = 0;
    let mut line = String::new();
    let mut is_first = true;
    let mut i: usize = 0;
    while i < nodes.len()
        invariant
            i <= nodes@.len(),
            y + tree_size(nodes@) <= usize::MAX,
            depth + tree_size(nodes@) <= usize::MAX,
            padding@ == indent(d),
            d == depth as nat,
            ({
                let w = walk(nodes@, d, y as int, scroll as int, i as nat);
                &&& rows == w.rows
                &&& nested == w.nested
                &&& line@ == w.line
                &&& is_first == w.is_first
                &&& lines_view(out@) == start + w.lines
            }),
        decreases nodes@.len() - i,
    {
        proof {
            lemma_walk_bound(nodes@, d, y as int, scroll as int, i as nat);
            lemma_tree_size_take(nodes@, i as int);
        }
        let p = y + rows + nested;
        match &nodes[i] {
            NodeType::Text { data } => {
                line.append(data.as_str());
            },
            NodeType::Image { data } => {
                if !data.as_str().is_empty() {
                    line.append("[img ");
                    line.append(data.as_str());
                    line.append("]");
                    proof {
                        reveal_strlit("[img ");
                        reveal_strlit("]");
                        assert(line@ =~= walk(nodes@, d, y as int, scroll as int, i as nat).line
                            + image_label(data@));
                    }
                }
            },
            NodeType::BlockQuote { data } => {
                proof {
                    assert(decreases_to!(nodes@ => nodes@[i as int]));
                    lemma_render_bound(data@, d + 1, p as int, scroll as int);
                }
                let used = render_nodes(data, depth + 1, p, scroll, out);
                nested = nested + used;
                is_first = false;
            },
            NodeType::Br => {
                if !line.as_str().is_empty() {
                    let text = indented(&padding, &line, "");
                    proof {
                        reveal_strlit("");
                        assert(text@ =~= seq![' '] + indent(d) + line@);
                    }
                    push_visible(out, p, scroll, text);
                    line = String::new();
                    is_first = false;
                }
                if !is_first {
                    rows = rows + 1;
                }
            },
        }
        i = i + 1;
    }
    proof {
        lemma_walk_bound(nodes@, d, y as int, scroll as int, i as nat);
        assert(nodes@.take(i as int) =~= nodes@);
        assert(i == nodes@.len());
    }
    let ghost w = walk(nodes@, d, y as int, scroll as int, nodes@.len());
    if !line.as_str().is_empty() {
        let p = y + rows + nested;
        let text = indented(&padding, &line, "  ");
        proof {
            reveal_strlit("  ");
            assert(text@ =~= seq![' '] + indent(d) + w.line + seq![' ', ' ']);
        }
        push_visible(out, p, scroll, text);
        rows = rows + 1;
        assert(lines_view(out@) =~= start + emit(
            w.lines,
            p as int,
            scroll as int,
            seq![' '] + indent(d) + w.line + seq![' ', ' '],
        ));
    }
    rows + nested
}

/// A space, the nesting prefix, the gathered line and `tail`.
fn indented(padding: &String, line: &String, tail: &str) -> (r: String)
    ensures
        r@ == seq![' '] + padding@ + line@ + tail@,
{
    let mut t = String::from_str(" ");
    proof {
        reveal_strlit(" ");
    }
    t.append(padding.as_str());
    t.append(line.as_str());
    t.append(tail);
    assert(t@ =~= seq![' '] + padding@ + line@ + tail@);
    t
}

/// Adds `text` at absolute row `p` when that row is shown.
pub(crate) fn push_visible(out: &mut Vec<DrawnLine>, p: usize, scroll: usize, text: String)
    ensures
        lines_view(final(out)@) == emit(lines_view(old(out)@), p as int, scroll as int, text@),
{
    if scroll < p && p - scroll > 1 {
        out.push(DrawnLine { col: 0, row: p - scroll, text });
        assert(lines_view(out@) =~= lines_view(old(out)@).push((0, p - scroll, text@)));
    }
}


/// A node that puts characters on the line being gathered.
pub open spec fn contributes(n: NodeType) -> bool {
    match n {
        NodeType::Text { data } => data@.len() > 0,
        NodeType::Image { data } => data@.len() > 0,
        _ => false,
    }
}

/// Some node of `s` puts characters on a line.
pub open spec fn has_content(s: Seq<NodeType>) -> bool
    decreases s.len(),
{
    s.len() > 0 && (contributes(s.last()) || has_content(s.drop_last()))
}

/// Some node after the last line break of `s` (anywhere in `s` when it has no
/// break) puts characters on a line: a line is still open at the end.
pub open spec fn open_line(s: Seq<NodeType>) -> bool
    decreases s.len(),
{
    s.len() > 0 && !(s.last() is Br) && (contributes(s.last()) || open_line(s.drop_last()))
}

/// No node of `s` is a quotation.
pub open spec fn quote_free(s: Seq<NodeType>) -> bool {
    forall|j: int| 0 <= j < s.len() ==> !(#[trigger] s[j] is BlockQuote)
}

/// Every line break of `s` comes after some node that put characters on a
/// line.
pub open spec fn breaks_follow_content(s: Seq<NodeType>) -> bool {
    forall|j: int| 0 <= j < s.len() && #[trigger] s[j] is Br ==> has_content(s.take(j))
}

proof fn lemma_walk_rows_quote_free(nodes: Seq<NodeType>, depth: nat, y: int, scroll: int, i: nat)
    requires
        i <= nodes.len(),
        quote_free(nodes),
        breaks_follow_content(nodes),
    ensures
        ({
            let w = walk(nodes, depth, y, scroll, i);
            &&& w.rows == count_breaks(nodes.take(i as int))
            &&& w.nested == 0
            &&& has_content(nodes.take(i as int)) ==> w.line.len() > 0 || !w.is_first
            &&& (w.line.len() > 0 <==> open_line(nodes.take(i as int)))
        }),
    decreases i,
{
    if i == 0 {
        assert(nodes.take(0) =~= Seq::<NodeType>::empty());
    } else {
        lemma_walk_rows_quote_free(nodes, depth, y, scroll, (i - 1) as nat);
        let t = nodes.take(i as int);
        assert(t.drop_last() =~= nodes.take(i - 1));
        assert(t.last() == nodes[i - 1]);
        assert(!(nodes[i - 1] is BlockQuote));
        let w = walk(nodes, depth, y, scroll, (i - 1) as nat);
        match nodes[i - 1] {
            NodeType::Text { data } => {
                assert((w.line + data@).len() == w.line.len() + data@.len());
            },
            NodeType::Image { data } => {
                assert((w.line + image_label(data@)).len() > 0);
            },
            _ => {},
        }
    }
}

/// With no quotation in the body and no line break before the first
/// characters, the rows a body takes are its line breaks, plus one when some
/// characters follow the last break.
pub proof fn lemma_rows_are_breaks(nodes: Seq<NodeType>, depth: nat, y: int, scroll: int)
    requires
        quote_free(nodes),
        breaks_follow_content(nodes),
    ensures
        render_nodes_spec(nodes, depth, y, scroll).0 == count_breaks(nodes) + if open_line(nodes) {
            1nat
        } else {
            0nat
        },
{
    lemma_walk_rows_quote_free(nodes, depth, y, scroll, nodes.len());
    assert(nodes.take(nodes.len() as int) =~= nodes);
}

/// Every line has a row in `[lo, hi)`, and rows grow strictly along the
/// sequence.
pub open spec fn rows_ordered(ls: Seq<(int, int, Seq<char>)>, lo: int, hi: int) -> bool {
    &&& forall|a: int| 0 <= a < ls.len() ==> lo <= (#[trigger] ls[a]).1 < hi
    &&& forall|a: int, b: int| 0 <= a < b < ls.len() ==> (#[trigger] ls[a]).1 < (#[trigger] ls[b]).1
}

proof fn lemma_ordered_append(
    a: Seq<(int, int, Seq<char>)>,
    b: Seq<(int, int, Seq<char>)>,
    lo: int,
    mid: int,
    hi: int,
)
    requires
        rows_ordered(a, lo, mid),
        rows_ordered(b, mid, hi),
        lo <= mid <= hi,
    ensures
        rows_ordered(a + b, lo, hi),
{
    let c = a + b;
    assert forall|x: int, z: int| 0 <= x < z < c.len() implies (#[trigger] c[x]).1 < (
    #[trigger] c[z]).1 by {
        if z < a.len() {
        } else if x >= a.len() {
            assert(c[x] == b[x - a.len()]);
            assert(c[z] == b[z - a.len()]);
        } else {
            assert(c[z] == b[z - a.len()]);
        }
    }
    assert forall|x: int| 0 <= x < c.len() implies lo <= (#[trigger] c[x]).1 < hi by {
        if x >= a.len() {
            assert(c[x] == b[x - a.len()]);
        }
    }
}

proof fn lemma_ordered_emit(ls: Seq<(int, int, Seq<char>)>, lo: int, p: int, scroll: int, text: Seq<char>)
    requires
        rows_ordered(ls, lo, p - scroll),
        lo <= p - scroll,
    ensures
        rows_ordered(emit(ls, p, scroll, text), lo, p - scroll + 1),
{
    if visible(p, scroll) {
        let one = seq![(0int, p - scroll, text)];
        assert(rows_ordered(one, p - scroll, p - scroll + 1));
        lemma_ordered_append(ls, one, lo, p - scroll, p - scroll + 1);
        assert(ls.push((0int, p - scroll, text)) =~= ls + one);
    }
}

proof fn lemma_walk_ordered(nodes: Seq<NodeType>, depth: nat, y: int, scroll: int, i: nat)
    requires
        i <= nodes.len(),
    ensures
        ({
            let w = walk(nodes, depth, y, scroll, i);
            rows_ordered(w.lines, y - scroll, y + w.rows + w.nested - scroll)
        }),
    decreases nodes, i,
{
    if i > 0 {
        lemma_walk_ordered(nodes, depth, y, scroll, (i - 1) as nat);
        let w = walk(nodes, depth, y, scroll, (i - 1) as nat);
        let p = y + w.rows + w.nested;
        match nodes[i - 1] {
            NodeType::BlockQuote { data } => {
                assert(decreases_to!(nodes => nodes[i - 1]));
                lemma_render_ordered(data@, depth + 1, p, scroll);
                let r = render_nodes_spec(data@, depth + 1, p, scroll);
                lemma_ordered_append(w.lines, r.1, y - scroll, p - scroll, p + r.0 - scroll);
            },
            NodeType::Br => {
                if w.line.len() > 0 {
                    lemma_ordered_emit(w.lines, y - scroll, p, scroll, seq![' '] + indent(depth) + w.line);
                }
            },
            _ => {},
        }
    }
}

/// The lines of a body come out in strictly growing rows, all within the rows
/// the body takes: a quotation's lines, all of them, come before any line of
/// the nodes that follow it, and sit above them.
pub proof fn lemma_render_ordered(nodes: Seq<NodeType>, depth: nat, y: int, scroll: int)
    ensures
        rows_ordered(
            render_nodes_spec(nodes, depth, y, scroll).1,
            y - scroll,
            y + render_nodes_spec(nodes, depth, y, scroll).0 - scroll,
        ),
    decreases nodes, nodes.len() + 1,
{
    lemma_walk_ordered(nodes, depth, y, scroll, nodes.len());
    let w = walk(nodes, depth, y, scroll, nodes.len());
    if w.line.len() > 0 {
        lemma_ordered_emit(w.lines, y - scroll, y + w.rows + w.nested, scroll,
            seq![' '] + indent(depth) + w.line + seq![' ', ' ']);
    }
}

proof fn lemma_walk_prefix(nodes: Seq<NodeType>, depth: nat, y: int, scroll: int, i: nat, j: nat)
    requires
        i <= j <= nodes.len(),
    ensures
        ({
            let a = walk(nodes, depth, y, scroll, i).lines;
            let b = walk(nodes, depth, y, scroll, j).lines;
            a.len() <= b.len() && b.subrange(0, a.len() as int) == a
        }),
    decreases j,
{
    if i < j {
        lemma_walk_prefix(nodes, depth, y, scroll, i, (j - 1) as nat);
        let a = walk(nodes, depth, y, scroll, i).lines;
        let m = walk(nodes, depth, y, scroll, (j - 1) as nat).lines;
        let b = walk(nodes, depth, y, scroll, j).lines;
        assert(b.subrange(0, m.len() as int) =~= m);
        assert(b.subrange(0, a.len() as int) =~= m.subrange(0, a.len() as int));
    } else {
        let a = walk(nodes, depth, y, scroll, i).lines;
        assert(a.subrange(0, a.len() as int) =~= a);
    }
}

/// A quotation's lines, all of them, come out as one block right after the
/// lines of the nodes before it, and every line after that block, from the
/// nodes that follow the quotation, sits on a lower row.
pub proof fn lemma_quote_before_siblings(
    nodes: Seq<NodeType>,
    depth: nat,
    y: int,
    scroll: int,
    i: nat,
)
    requires
        i < nodes.len(),
        nodes[i as int] is BlockQuote,
    ensures
        ({
            let out = render_nodes_spec(nodes, depth, y, scroll).1;
            let w = walk(nodes, depth, y, scroll, i);
            let q = render_nodes_spec(
                nodes[i as int]->BlockQuote_data@,
                depth + 1,
                y + w.rows + w.nested,
                scroll,
            ).1;
            let n = w.lines.len() + q.len();
            &&& n <= out.len()
            &&& out.subrange(0, n as int) == w.lines + q
            &&& forall|a: int, b: int| 0 <= a < n <= b < out.len() ==> (#[trigger] out[a]).1 < (
            #[trigger] out[b]).1
        }),
{
    let w = walk(nodes, depth, y, scroll, i);
    let after = walk(nodes, depth, y, scroll, i + 1);
    lemma_walk_prefix(nodes, depth, y, scroll, i + 1, nodes.len());
    let fin = walk(nodes, depth, y, scroll, nodes.len());
    let out = render_nodes_spec(nodes, depth, y, scroll).1;
    assert(out.subrange(0, fin.lines.len() as int) =~= fin.lines);
    assert(out.subrange(0, after.lines.len() as int) =~= after.lines);
    lemma_render_ordered(nodes, depth, y, scroll);
}

} // verus!
