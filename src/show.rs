//! The thread screen: a scroll offset over a page of replies, and the lines
//! that draw the page under it.
use vstd::prelude::*;
use vstd::string::*;
use crate::reply_model::{NodeType, tree_size};
use crate::model::{ShowItem, ShowReplyItem};
use crate::render::{DrawnLine, lines_view, emit, render_nodes_spec, render_nodes};
use crate::separator::{
    sat_sub, separator_top, separator_bottom, separator_width, separator_padding_width, spaces,
    rule, build_separator_arguments, make_separator_top, make_separator_bottom, REPLIER_MAX_WIDTH,
    TIME_MAX_WIDTH,
};
use crate::elapsed::{age_label, published_at_format, decimal, decimal_string};
use crate::text_width::{width_of, jks_len, repeat_str};

verus! {

/// Past this offset the screen no longer scrolls down.
pub const SCROLL_CEILING: usize = 10000;

/// Rows above the body: the title and its rule.
pub const BODY_TOP: usize = 2;

/// Scroll state of the thread screen and the size of the terminal it draws on.
pub struct Show {
    pub scroll_y: usize,
    pub width: usize,
    pub height: usize,
}

/// Rows the replies of `rs` take at most: every node one row, and two box
/// lines for each reply.
pub open spec fn replies_size(rs: Seq<ShowReplyItem>) -> nat
    decreases rs.len(),
{
    if rs.len() == 0 {
        0
    } else {
        replies_size(rs.drop_last()) + tree_size(rs.last().body@) + 2
    }
}

/// The top box line of a reply by `name`, `age` seconds old, on a terminal
/// `width` columns wide.
pub open spec fn top_line(name: Seq<char>, age: nat, width: nat) -> Seq<char> {
    separator_top(
        separator_width(width),
        spaces(separator_padding_width(width)),
        REPLIER_MAX_WIDTH as nat,
        name,
        TIME_MAX_WIDTH as nat,
        age_label(age),
    )
}

pub open spec fn bottom_line(width: nat) -> Seq<char> {
    separator_bottom(separator_width(width), spaces(separator_padding_width(width)))
}

/// The first `k` replies laid out from absolute row `y`: each body, then its
/// top box line, then its bottom box line. Gives the next free row and the
/// lines drawn.
pub open spec fn body_spec(
    rs: Seq<ShowReplyItem>,
    ages: Seq<u64>,
    k: nat,
    y: int,
    scroll: int,
    width: nat,
) -> (int, Seq<(int, int, Seq<char>)>)
    decreases k,
{
    if k == 0 {
        (y, Seq::empty())
    } else {
        let prev = body_spec(rs, ages, (k - 1) as nat, y, scroll, width);
        let reply = rs[k - 1];
        let b = render_nodes_spec(reply.body@, 0, prev.0, scroll);
        let yt = prev.0 + b.0;
        let with_top = emit(
            prev.1 + b.1,
            yt,
            scroll,
            top_line(reply.username@, ages[k - 1] as nat, width),
        );
        (yt + 2, emit(with_top, yt + 1, scroll, bottom_line(width)))
    }
}

/// The title line: `text` centred by display width, and a rule under it.
pub open spec fn header_spec(text: Seq<char>, width: nat) -> Seq<(int, int, Seq<char>)> {
    seq![((sat_sub(width as int, width_of(text) as int) / 2) as int, 0int, text), (0int, 1int, rule(width))]
}

/// "<page title> - <screen title> [<page>/<last page>]".
pub open spec fn title_text(item: ShowItem, title: Seq<char>) -> Seq<char> {
    item.title@ + seq![' ', '-', ' '] + title + seq![' ', '['] + decimal(item.page as nat) + seq![
        '/',
    ] + decimal(item.max_page as nat) + seq![']']
}

proof fn lemma_replies_size_take(rs: Seq<ShowReplyItem>, k: int)
    requires
        0 <= k < rs.len(),
    ensures
        replies_size(rs.take(k + 1)) == replies_size(rs.take(k)) + tree_size(rs[k].body@) + 2,
        replies_size(rs.take(k + 1)) <= replies_size(rs),
    decreases rs.len(),
{
    assert(rs.take(k + 1).drop_last() =~= rs.take(k));
    if k + 1 < rs.len() {
        lemma_replies_size_take(rs.drop_last(), k);
        assert(rs.drop_last().take(k + 1) =~= rs.take(k + 1));
        assert(rs.drop_last().take(k) =~= rs.take(k));
    } else {
        assert(rs.take(k + 1) =~= rs);
    }
}

proof fn lemma_body_bound(
    rs: Seq<ShowReplyItem>,
    ages: Seq<u64>,
    k: nat,
    y: int,
    scroll: int,
    width: nat,
)
    requires
        k <= rs.len(),
    ensures
        y <= body_spec(rs, ages, k, y, scroll, width).0 <= y + replies_size(rs.take(k as int)),
    decreases k,
{
    if k == 0 {
        assert(rs.take(0) =~= Seq::<ShowReplyItem>::empty());
    } else {
        lemma_body_bound(rs, ages, (k - 1) as nat, y, scroll, width);
        lemma_replies_size_take(rs, k - 1);
        let prev = body_spec(rs, ages, (k - 1) as nat, y, scroll, width);
        crate::render::lemma_render_size(rs[k - 1].body@, 0, prev.0, scroll);
    }
}

/// How many replies the body shows: as many as there are rows for, one per
/// row, at most all of them.
pub open spec fn shown_replies(n: nat, height: nat) -> nat {
    let rows = sat_sub(height as int, 3);
    if rows < n {
        rows
    } else {
        n
    }
}

fn page_title(item: &ShowItem, title: &str) -> (r: String)
    ensures
        r@ == title_text(*item, title@),
{
    proof {
        reveal_strlit(" - ");
        reveal_strlit(" [");
        reveal_strlit("/");
        reveal_strlit("]");
    }
    let mut r = String::from_str(item.title.as_str());
    r.append(" - ");
    r.append(title);
    r.append(" [");
    let page = decimal_string(item.page as u64);
    r.append(page.as_str());
    r.append("/");
    let max_page = decimal_string(item.max_page as u64);
    r.append(max_page.as_str());
    r.append("]");
    assert(r@ =~= title_text(*item, title@));
    r
}

/// Number of nodes of `nodes`, when it is at most `limit`.
fn nodes_size_within(nodes: &Vec<NodeType>, limit: usize) -> (r: Option<usize>)
    ensures
        match r {
            Some(v) => v == tree_size(nodes@) && v <= limit,
            None => tree_size(nodes@) > limit,
        },
    decreases nodes@,
{
    let mut acc: usize = 0;
    let mut i: usize = 0;
    while i < nodes.len()
        invariant
            i <= nodes@.len(),
            acc == tree_size(nodes@.take(i as int)),
            acc <= limit,
        decreases nodes@.len() - i,
    {
        proof {
            crate::render::lemma_tree_size_take(nodes@, i as int);
        }
        if acc == limit {
            return None;
        }
        match &nodes[i] {
            NodeType::BlockQuote { data } => {
                proof {
                    assert(decreases_to!(nodes@ => nodes@[i as int]));
                }
                match nodes_size_within(data, limit - acc - 1) {
                    Some(v) => {
                        acc = acc + 1 + v;
                    },
                    None => {
                        return None;
                    },
                }
            },
            _ => {
                acc = acc + 1;
            },
        }
        i = i + 1;
    }
    assert(nodes@.take(i as int) =~= nodes@);
    Some(acc)
}

/// Whether `item` can be laid out from row `offset_y` with every row number
/// fitting a `usize`.
pub fn layout_fits(offset_y: usize, item: &ShowItem) -> (r: bool)
    ensures
        r == (offset_y + replies_size(item.replies@) <= usize::MAX),
{
    let mut total: usize = offset_y;
    let mut i: usize = 0;
    while i < item.replies.len()
        invariant
            i <= item.replies@.len(),
            total == offset_y + replies_size(item.replies@.take(i as int)),
        decreases item.replies@.len() - i,
    {
        proof {
            lemma_replies_size_take(item.replies@, i as int);
        }
        match nodes_size_within(&item.replies[i].body, usize::MAX - total) {
            Some(v) => {
                if usize::MAX - total - v < 2 {
                    return false;
                }
                total = total + v + 2;
            },
            None => {
                return false;
            },
        }
        i = i + 1;
    }
    assert(item.replies@.take(i as int) =~= item.replies@);
    true
}

/// Each reply's age in seconds, read from its publication time against the
/// local clock.
pub fn reply_ages(item: &ShowItem) -> (r: Vec<u64>)
    ensures
        r@.len() == item.replies@.len(),
{
    let mut r: Vec<u64> = Vec::new();
    let mut i: usize = 0;
    while i < item.replies.len()
        invariant
            i <= item.replies@.len(),
            r@.len() == i,
        decreases item.replies@.len() - i,
    {
        r.push(crate::elapsed::published_age(item.replies[i].published_at.as_str()));
        i = i + 1;
    }
    r
}

impl Show {
    pub fn new(width: usize, height: usize) -> (r: Show)
        ensures
            r.scroll_y == 0,
            r.width == width,
            r.height == height,
    {
        Show { scroll_y: 0, width, height }
    }

    /// Takes the terminal's new size.
    pub fn resize(&mut self, width: usize, height: usize)
        ensures
            final(self).width == width,
            final(self).height == height,
            final(self).scroll_y == old(self).scroll_y,
    {
        self.width = width;
        self.height = height;
    }

    /// Back to the top of the page.
    #[allow(non_snake_case)]
    pub fn resetY(&mut self)
        ensures
            final(self).scroll_y == 0,
            final(self).width == old(self).width,
            final(self).height == old(self).height,
    {
        self.scroll_y = 0;
    }

    /// Scrolls up by `value` rows, stopping at the top; tells whether the
    /// offset changed, that is whether the screen must be redrawn.
    #[allow(non_snake_case)]
    pub fn scrollUp(&mut self, value: usize) -> (changed: bool)
        ensures
            final(self).scroll_y == sat_sub(old(self).scroll_y as int, value as int),
            changed == (final(self).scroll_y != old(self).scroll_y),
            final(self).width == old(self).width,
            final(self).height == old(self).height,
    {
        let tmp = self.scroll_y;
        if tmp > value {
            self.scroll_y = tmp - value;
            value != 0
        } else if tmp != 0 {
            self.scroll_y = 0;
            true
        } else {
            false
        }
    }

    /// Scrolls down by `value` rows, never past the ceiling; while the
    /// offset is below the ceiling it tells that the screen must be redrawn,
    /// at the ceiling nothing moves.
    #[allow(non_snake_case)]
    pub fn scrollDown(&mut self, value: usize) -> (changed: bool)
        ensures
            old(self).scroll_y < SCROLL_CEILING ==> changed && final(self).scroll_y == if old(
                self,
            ).scroll_y + value > SCROLL_CEILING {
                SCROLL_CEILING as int
            } else {
                old(self).scroll_y + value
            },
            old(self).scroll_y >= SCROLL_CEILING ==> !changed && final(self).scroll_y == old(
                self,
            ).scroll_y,
            final(self).width == old(self).width,
            final(self).height == old(self).height,
    {
        let tmp = self.scroll_y;
        if tmp < SCROLL_CEILING {
            self.scroll_y = if value > SCROLL_CEILING - tmp {
                SCROLL_CEILING
            } else {
                tmp + value
            };
            return true;
        }
        false
    }

    /// Rows left for the body under the title and its rule and above the
    /// status line.
    pub fn body_height(&self) -> (r: usize)
        ensures
            r == sat_sub(self.height as int, 3),
    {
        if self.height >= 3 {
            self.height - 3
        } else {
            0
        }
    }

    /// Columns left for the body inside the frame.
    pub fn body_width(&self) -> (r: usize)
        ensures
            r == sat_sub(self.width as int, 2),
    {
        if self.width >= 2 {
            self.width - 2
        } else {
            0
        }
    }

    /// The title line and the rule under it.
    pub fn print_header(&self, text: &str) -> (r: Vec<DrawnLine>)
        ensures
            lines_view(r@) == header_spec(text@, self.width as nat),
    {
        let title_len = jks_len(text);
        let padding = (if self.width >= title_len {
            self.width - title_len
        } else {
            0
        }) / 2;
        proof {
            reveal_strlit("─");
            assert("─"@ =~= seq!['─']);
        }
        let header_bottom = repeat_str("─", self.width);
        let mut r = Vec::new();
        r.push(DrawnLine { col: padding, row: 0, text: String::from_str(text) });
        r.push(DrawnLine { col: 0, row: 1, text: header_bottom });
        assert(lines_view(r@) =~= header_spec(text@, self.width as nat));
        r
    }

    /// The replies of `item` that fit the body height, laid out from row
    /// `offset_y` under the current scroll offset; `ages` holds each reply's
    /// age in seconds. Gives the lines to draw and the next free row.
    pub fn print_body(&self, offset_y: usize, item: &ShowItem, ages: &Vec<u64>) -> (r: (
        Vec<DrawnLine>,
        usize,
    ))
        requires
            offset_y + replies_size(item.replies@) <= usize::MAX,
            ages@.len() == item.replies@.len(),
        ensures
            ({
                let b = body_spec(
                    item.replies@,
                    ages@,
                    shown_replies(item.replies@.len(), self.height as nat),
                    offset_y as int,
                    self.scroll_y as int,
                    self.width as nat,
                );
                lines_view(r.0@) == b.1 && r.1 == b.0
            }),
    {
        let rows = self.body_height();
        let count = if rows < item.replies.len() {
            rows
        } else {
            item.replies.len()
        };
        let (separator_width, _separator_padding_width, separator_padding) =
            build_separator_arguments(self.width);
        let bottom = make_separator_bottom(separator_width, separator_padding.as_str());
        let mut out: Vec<DrawnLine> = Vec::new();
        let mut y = offset_y;
        let mut i: usize = 0;
        while i < count
            invariant
                count <= item.replies@.len(),
                count == shown_replies(item.replies@.len(), self.height as nat),
                ages@.len() == item.replies@.len(),
                offset_y + replies_size(item.replies@) <= usize::MAX,
                separator_width == crate::separator::separator_width(self.width as nat),
                separator_padding@ == spaces(separator_padding_width(self.width as nat)),
                bottom@ == bottom_line(self.width as nat),
                i <= count,
                ({
                    let b = body_spec(
                        item.replies@,
                        ages@,
                        i as nat,
                        offset_y as int,
                        self.scroll_y as int,
                        self.width as nat,
                    );
                    y == b.0 && lines_view(out@) == b.1
                }),
            decreases count - i,
        {
            let reply = &item.replies[i];
            proof {
                lemma_body_bound(
                    item.replies@,
                    ages@,
                    i as nat,
                    offset_y as int,
                    self.scroll_y as int,
                    self.width as nat,
                );
                lemma_replies_size_take(item.replies@, i as int);
            }
            let used = render_nodes(&reply.body, 0, y, self.scroll_y, &mut out);
            proof {
                crate::render::lemma_render_size(reply.body@, 0, y as int, self.scroll_y as int);
            }
            y = y + used;
            let label = published_at_format(ages[i]);
            let top = make_separator_top(
                separator_width,
                separator_padding.as_str(),
                REPLIER_MAX_WIDTH,
                reply.username.as_str(),
                TIME_MAX_WIDTH,
                label.as_str(),
            );
            crate::render::push_visible(&mut out, y, self.scroll_y, top);
            y = y + 1;
            crate::render::push_visible(&mut out, y, self.scroll_y, bottom.clone());
            y = y + 1;
            i = i + 1;
        }
        (out, y)
    }

    /// The whole screen for `item` under the screen title `title`: the title
    /// line with page numbers, its rule, and the body from the third row.
    pub fn print(&self, title: &str, item: &ShowItem, ages: &Vec<u64>) -> (r: Vec<DrawnLine>)
        requires
            BODY_TOP + replies_size(item.replies@) <= usize::MAX,
            ages@.len() == item.replies@.len(),
        ensures
            lines_view(r@) == header_spec(title_text(*item, title@), self.width as nat)
                + body_spec(
                item.replies@,
                ages@,
                shown_replies(item.replies@.len(), self.height as nat),
                BODY_TOP as int,
                self.scroll_y as int,
                self.width as nat,
            ).1,
    {
        let text = page_title(item, title);
        let mut r = self.print_header(text.as_str());
        let (mut body, _next) = self.print_body(BODY_TOP, item, ages);
        let ghost head = r@;
        let ghost tail = body@;
        r.append(&mut body);
        assert(lines_view(r@) =~= lines_view(head) + lines_view(tail));
        r
    }
}

} // verus!
