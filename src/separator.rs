//! The box lines that frame each reply, centred and padded by display width.
use vstd::prelude::*;
use vstd::string::*;
use crate::text_width::{
    display_width, width_of, repeat, jks_len, repeat_str, lemma_width_concat, lemma_width_repeat,
    lemma_width_single, char_width,
};

verus! {

/// Widest author name the top box line makes room for.
pub const REPLIER_MAX_WIDTH: usize = 14;

/// Widest age label the top box line makes room for.
pub const TIME_MAX_WIDTH: usize = 5;

/// `a - b`, or zero when `b` is larger.
pub open spec fn sat_sub(a: int, b: int) -> nat {
    if a >= b {
        (a - b) as nat
    } else {
        0
    }
}

pub open spec fn rule(n: nat) -> Seq<char> {
    repeat(seq!['─'], n)
}

pub open spec fn spaces(n: nat) -> Seq<char> {
    repeat(seq![' '], n)
}

/// `label` centred in a rule `max` columns wide; the odd column goes left.
pub open spec fn centred(max: nat, label: Seq<char>) -> Seq<char> {
    let sp = sat_sub(max as int, width_of(label) as int);
    rule((sp - sp / 2) as nat) + label + rule(sp / 2)
}

pub open spec fn replier_part(max: nat, name: Seq<char>) -> Seq<char> {
    seq!['╭'] + centred(max, name)
}

pub open spec fn time_part(max: nat, time: Seq<char>) -> Seq<char> {
    centred(max, time) + seq!['╮']
}

/// The top box line: padding, blank columns that push the box right, the
/// author part, the age part, padding.
pub open spec fn separator_top(
    separator_width: nat,
    padding: Seq<char>,
    replier_max: nat,
    name: Seq<char>,
    time_max: nat,
    time: Seq<char>,
) -> Seq<char> {
    let r = replier_part(replier_max, name);
    let t = time_part(time_max, time);
    let middle = sat_sub(separator_width as int, (width_of(r) + width_of(t)) as int);
    padding + spaces(middle) + r + t + padding
}

/// The bottom box line: padding, a rule, the closing corner, padding.
pub open spec fn separator_bottom(separator_width: nat, padding: Seq<char>) -> Seq<char> {
    padding + rule(sat_sub(separator_width as int, 1)) + seq!['╯'] + padding
}

/// Width of the box inside a terminal `width` columns wide.
pub open spec fn separator_width(width: nat) -> nat {
    sat_sub(width as int, 2)
}

/// Columns of padding on each side of the box.
pub open spec fn separator_padding_width(width: nat) -> nat {
    sat_sub(width as int, separator_width(width) as int) / 2
}

fn centred_label(max: usize, label: &str) -> (r: String)
    ensures
        r@ == centred(max as nat, label@),
{
    let len = jks_len(label);
    let sp = if max > len {
        max - len
    } else {
        0
    };
    let right = sp / 2;
    let left = if sp & 1 == 1 {
        right + 1
    } else {
        right
    };
    assert(sp & 1 == 1 <==> sp % 2 == 1) by (bit_vector);
    proof {
        reveal_strlit("─");
        assert("─"@ =~= seq!['─']);
    }
    let mut r = repeat_str("─", left);
    r.append(label);
    let tail = repeat_str("─", right);
    r.append(tail.as_str());
    r
}

fn make_separator_replier_name(replier_max_width: usize, replier_name: &str) -> (r: String)
    ensures
        r@ == replier_part(replier_max_width as nat, replier_name@),
{
    let mut r = String::from_str("╭");
    proof {
        reveal_strlit("╭");
    }
    let c = centred_label(replier_max_width, replier_name);
    r.append(c.as_str());
    assert(r@ =~= replier_part(replier_max_width as nat, replier_name@));
    r
}

fn make_separator_time(time_max_width: usize, time: &str) -> (r: String)
    ensures
        r@ == time_part(time_max_width as nat, time@),
{
    let mut r = centred_label(time_max_width, time);
    r.append("╮");
    proof {
        reveal_strlit("╮");
    }
    r
}

/// The top box line of a reply, naming its author and its age.
pub fn make_separator_top(
    separator_width: usize,
    separator_padding: &str,
    replier_max_width: usize,
    replier_name: &str,
    time_max_width: usize,
    time: &str,
) -> (r: String)
    ensures
        r@ == separator_top(
            separator_width as nat,
            separator_padding@,
            replier_max_width as nat,
            replier_name@,
            time_max_width as nat,
            time@,
        ),
{
    let replier = make_separator_replier_name(replier_max_width, replier_name);
    let replier_width = jks_len(replier.as_str());
    let time_sep = make_separator_time(time_max_width, time);
    let time_width = jks_len(time_sep.as_str());
    let middle_width = if replier_width <= separator_width && time_width <= separator_width
        - replier_width {
        separator_width - replier_width - time_width
    } else {
        0
    };
    proof {
        reveal_strlit(" ");
        assert(" "@ =~= seq![' ']);
    }
    let mut r = String::from_str(separator_padding);
    let middle = repeat_str(" ", middle_width);
    r.append(middle.as_str());
    r.append(replier.as_str());
    r.append(time_sep.as_str());
    r.append(separator_padding);
    r
}

/// The bottom box line of a reply.
pub fn make_separator_bottom(separator_width: usize, separator_padding: &str) -> (r: String)
    ensures
        r@ == separator_bottom(separator_width as nat, separator_padding@),
{
    let middle_width = if separator_width > 1 {
        separator_width - 1
    } else {
        0
    };
    proof {
        reveal_strlit("─");
        reveal_strlit("╯");
        assert("─"@ =~= seq!['─']);
    }
    let mut r = String::from_str(separator_padding);
    let middle = repeat_str("─", middle_width);
    r.append(middle.as_str());
    r.append("╯");
    r.append(separator_padding);
    r
}

/// Box width, padding width and padding for a terminal `width` columns wide.
pub fn build_separator_arguments(width: usize) -> (r: (usize, usize, String))
    ensures
        r.0 == separator_width(width as nat),
        r.1 == separator_padding_width(width as nat),
        r.2@ == spaces(r.1 as nat),
{
    let separator_width = if width >= 2 {
        width - 2
    } else {
        0
    };
    let separator_padding_width = (if width > separator_width {
        width - separator_width
    } else {
        0
    }) / 2;
    proof {
        reveal_strlit(" ");
        assert(" "@ =~= seq![' ']);
    }
    let separator_padding = repeat_str(" ", separator_padding_width);
    (separator_width, separator_padding_width, separator_padding)
}


proof fn lemma_box_glyphs_narrow()
    ensures
        display_width(seq!['─']) == 1,
        display_width(seq![' ']) == 1,
        display_width(seq!['╭']) == 1,
        display_width(seq!['╮']) == 1,
        display_width(seq!['╯']) == 1,
{
    lemma_width_single('─');
    lemma_width_single(' ');
    lemma_width_single('╭');
    lemma_width_single('╮');
    lemma_width_single('╯');
    assert(char_width('─') == 1);
    assert(char_width(' ') == 1);
    assert(char_width('╭') == 1);
    assert(char_width('╮') == 1);
    assert(char_width('╯') == 1);
}

proof fn lemma_rule_width(n: nat)
    ensures
        display_width(rule(n)) == n,
        display_width(spaces(n)) == n,
{
    lemma_box_glyphs_narrow();
    lemma_width_repeat(seq!['─'], n);
    lemma_width_repeat(seq![' '], n);
    assert(n * 1 == n) by (nonlinear_arith);
}

proof fn lemma_centred_width(max: nat, label: Seq<char>)
    requires
        display_width(label) <= max,
        max <= usize::MAX,
    ensures
        display_width(centred(max, label)) == max,
{
    lemma_box_glyphs_narrow();
    let sp = sat_sub(max as int, width_of(label) as int);
    lemma_rule_width((sp - sp / 2) as nat);
    lemma_rule_width(sp / 2);
    lemma_width_concat(rule((sp - sp / 2) as nat), label);
    lemma_width_concat(rule((sp - sp / 2) as nat) + label, rule(sp / 2));
}

/// The top box line spans the terminal exactly, measured in columns: a name
/// of wide glyphs takes fewer characters than one of narrow glyphs with the
/// same width, and the line around either is equally wide.
pub proof fn lemma_separator_top_spans_width(width: nat, name: Seq<char>, time: Seq<char>)
    requires
        23 <= width <= usize::MAX,
        display_width(name) <= REPLIER_MAX_WIDTH,
        display_width(time) <= TIME_MAX_WIDTH,
    ensures
        display_width(
            separator_top(
                separator_width(width),
                spaces(separator_padding_width(width)),
                REPLIER_MAX_WIDTH as nat,
                name,
                TIME_MAX_WIDTH as nat,
                time,
            ),
        ) == width,
{
    lemma_box_glyphs_narrow();
    let sw = separator_width(width);
    let pad = spaces(separator_padding_width(width));
    let r = replier_part(REPLIER_MAX_WIDTH as nat, name);
    let t = time_part(TIME_MAX_WIDTH as nat, time);
    lemma_centred_width(REPLIER_MAX_WIDTH as nat, name);
    lemma_centred_width(TIME_MAX_WIDTH as nat, time);
    lemma_width_concat(seq!['╭'], centred(REPLIER_MAX_WIDTH as nat, name));
    lemma_width_concat(centred(TIME_MAX_WIDTH as nat, time), seq!['╮']);
    let middle = sat_sub(sw as int, (width_of(r) + width_of(t)) as int);
    lemma_rule_width(middle);
    lemma_rule_width(separator_padding_width(width));
    lemma_width_concat(pad, spaces(middle));
    lemma_width_concat(pad + spaces(middle), r);
    lemma_width_concat(pad + spaces(middle) + r, t);
    lemma_width_concat(pad + spaces(middle) + r + t, pad);
}

/// The bottom box line spans the terminal exactly, measured in columns.
pub proof fn lemma_separator_bottom_spans_width(width: nat)
    requires
        3 <= width <= usize::MAX,
    ensures
        display_width(
            separator_bottom(separator_width(width), spaces(separator_padding_width(width))),
        ) == width,
{
    lemma_box_glyphs_narrow();
    let pad = spaces(separator_padding_width(width));
    let m = rule(sat_sub(separator_width(width) as int, 1));
    lemma_rule_width(separator_padding_width(width));
    lemma_rule_width(sat_sub(separator_width(width) as int, 1));
    lemma_width_concat(pad, m);
    lemma_width_concat(pad + m, seq!['╯']);
    lemma_width_concat(pad + m + seq!['╯'], pad);
}

} // verus!
