use hkg::elapsed::{age_seconds, decimal_string, published_age, published_at_format};
use hkg::separator::{build_separator_arguments, make_separator_bottom, make_separator_top};
use hkg::show::{layout_fits, Show, SCROLL_CEILING};
use hkg::text_width::{jks_len, repeat_str};
use hkg::model::{ShowItem, ShowReplyItem};
use hkg::reply_model::NodeType;

#[test]
fn scroll_up_clamps_at_top() {
    let mut show = Show::new(80, 24);
    assert!(show.scrollDown(3));
    assert_eq!(show.scroll_y, 3);
    assert!(show.scrollUp(5));
    assert_eq!(show.scroll_y, 0);
    assert!(!show.scrollUp(5));
    assert!(!show.scrollUp(1));
    assert_eq!(show.scroll_y, 0);
}

#[test]
fn scroll_up_by_part() {
    let mut show = Show::new(80, 24);
    show.scrollDown(10);
    assert!(show.scrollUp(4));
    assert_eq!(show.scroll_y, 6);
    assert!(!show.scrollUp(0));
    assert_eq!(show.scroll_y, 6);
}

#[test]
fn scroll_down_stops_at_ceiling() {
    let mut show = Show::new(80, 24);
    show.scroll_y = SCROLL_CEILING - 1;
    assert!(show.scrollDown(2));
    assert_eq!(show.scroll_y, SCROLL_CEILING);
    assert!(!show.scrollDown(2));
    assert_eq!(show.scroll_y, SCROLL_CEILING);
    show.scroll_y = 5;
    assert!(show.scrollDown(usize::MAX));
    assert_eq!(show.scroll_y, SCROLL_CEILING);
    show.resetY();
    assert_eq!(show.scroll_y, 0);
}

#[test]
fn body_size_never_underflows() {
    let show = Show::new(1, 2);
    assert_eq!(show.body_height(), 0);
    assert_eq!(show.body_width(), 0);
    let big = Show::new(80, 24);
    assert_eq!(big.body_height(), 21);
    assert_eq!(big.body_width(), 78);
}

#[test]
fn wide_glyphs_count_two_columns() {
    assert_eq!(jks_len("高登"), 4);
    assert_eq!(jks_len("abcd"), 4);
    assert_eq!(jks_len("─╭╮"), 3);
    assert_eq!(jks_len(""), 0);
    assert_eq!(jks_len("ＡＢ"), 4);
}

#[test]
fn box_line_width_uses_display_width() {
    let (sw, _pw, pad) = build_separator_arguments(40);
    assert_eq!(sw, 38);
    assert_eq!(pad, " ");
    let wide = make_separator_top(sw, &pad, 14, "高登", 5, "3d");
    let narrow = make_separator_top(sw, &pad, 14, "abcd", 5, "3d");
    assert_eq!(jks_len(&wide), 40);
    assert_eq!(jks_len(&narrow), 40);
    assert_ne!(wide.chars().count(), narrow.chars().count());
    assert_eq!(narrow, format!(" {}╭{}abcd{}3d─╮ ", " ".repeat(17), "─".repeat(5), "─".repeat(7)));
    assert_eq!(wide, format!(" {}╭{}高登{}3d─╮ ", " ".repeat(17), "─".repeat(5), "─".repeat(7)));
}

#[test]
fn box_line_with_long_name_does_not_underflow() {
    let (sw, _pw, pad) = build_separator_arguments(10);
    let top = make_separator_top(sw, &pad, 14, "a-very-long-user-name", 5, "10w");
    assert_eq!(top, " ╭a-very-long-user-name─10w─╮ ");
    let tiny = build_separator_arguments(0);
    assert_eq!(tiny.0, 0);
    assert_eq!(tiny.1, 0);
    assert_eq!(make_separator_bottom(tiny.0, &tiny.2), "╯");
}

#[test]
fn bottom_box_line_spans_width() {
    let (sw, _pw, pad) = build_separator_arguments(12);
    let bottom = make_separator_bottom(sw, &pad);
    assert_eq!(bottom, format!(" {}╯ ", "─".repeat(9)));
    assert_eq!(jks_len(&bottom), 12);
}

#[test]
fn age_labels_pick_coarsest_unit() {
    assert_eq!(published_at_format(0), "1m");
    assert_eq!(published_at_format(59), "1m");
    assert_eq!(published_at_format(60), "1m");
    assert_eq!(published_at_format(125), "2m");
    assert_eq!(published_at_format(3600), "1h");
    assert_eq!(published_at_format(86400 * 3 + 5), "3d");
    assert_eq!(published_at_format(604800 * 2), "2w");
    assert_eq!(published_at_format(604800 * 15), "15w");
}

#[test]
fn ages_between_times() {
    assert_eq!(age_seconds(Some(100), 160), 60);
    assert_eq!(age_seconds(Some(200), 160), 0);
    assert_eq!(age_seconds(None, 160), 0);
    assert_eq!(age_seconds(Some(i64::MIN), i64::MAX), u64::MAX);
}

#[test]
fn decimal_digits() {
    assert_eq!(decimal_string(0), "0");
    assert_eq!(decimal_string(7), "7");
    assert_eq!(decimal_string(1024), "1024");
    assert_eq!(decimal_string(u64::MAX), "18446744073709551615");
}

#[test]
fn repeated_glyphs() {
    assert_eq!(repeat_str("├─", 2), "├─├─");
    assert_eq!(repeat_str("x", 0), "");
}

fn reply(name: &str, body: Vec<NodeType>) -> ShowReplyItem {
    ShowReplyItem {
        userid: "1".to_string(),
        username: name.to_string(),
        published_at: String::new(),
        body,
    }
}

#[test]
fn header_is_centred() {
    let show = Show::new(20, 10);
    let lines = show.print_header("高登 x");
    assert_eq!(lines.len(), 2);
    assert_eq!((lines[0].col, lines[0].row), (7, 0));
    assert_eq!(lines[0].text, "高登 x");
    assert_eq!((lines[1].col, lines[1].row), (0, 1));
    assert_eq!(lines[1].text, "─".repeat(20));
}

#[test]
fn page_lays_out_bodies_and_boxes() {
    let mut item = ShowItem::empty();
    item.title = "T".to_string();
    item.page = 1;
    item.max_page = 3;
    item.replies.push(reply("ann", vec![NodeType::Text { data: "hi".to_string() }]));
    item.replies.push(reply("bob", vec![NodeType::Text { data: "yo".to_string() }]));
    assert!(layout_fits(2, &item));
    let show = Show::new(30, 10);
    let lines = show.print("高登", &item, &vec![0, 7200]);
    let view: Vec<(usize, usize, String)> =
        lines.iter().map(|l| (l.col, l.row, l.text.clone())).collect();
    assert_eq!(view[0], (8, 0, "T - 高登 [1/3]".to_string()));
    assert_eq!(view[2], (0, 2, " hi  ".to_string()));
    assert_eq!(view[3].1, 3);
    assert!(view[3].2.contains("ann") && view[3].2.contains("1m"));
    assert_eq!(view[4].1, 4);
    assert!(view[4].2.contains('╯'));
    assert_eq!(view[5], (0, 5, " yo  ".to_string()));
    assert!(view[6].2.contains("bob") && view[6].2.contains("2h"));
    assert_eq!(view.len(), 8);
}

#[test]
fn only_as_many_replies_as_rows() {
    let mut item = ShowItem::empty();
    for _ in 0..5 {
        item.replies.push(reply("a", vec![NodeType::Text { data: "x".to_string() }]));
    }
    let show = Show::new(30, 5);
    let (lines, next) = show.print_body(2, &item, &vec![0; 5]);
    assert_eq!(lines.len(), 6);
    assert_eq!(next, 8);
}

#[test]
fn ages_read_from_the_clock() {
    assert_eq!(published_age("not a time"), 0);
    assert!(published_age("30/4/2016 9:22") > 86400 * 365);
    let mut item = ShowItem::empty();
    item.replies.push(reply("a", vec![]));
    item.replies[0].published_at = "1/1/2000 00:00".to_string();
    let ages = hkg::show::reply_ages(&item);
    assert_eq!(ages.len(), 1);
    assert!(ages[0] > 0);
}

#[test]
fn layout_that_cannot_fit_is_refused() {
    let mut item = ShowItem::empty();
    item.replies.push(reply("a", vec![NodeType::Text { data: "x".to_string() }]));
    assert!(layout_fits(usize::MAX - 3, &item));
    assert!(!layout_fits(usize::MAX - 2, &item));
}
