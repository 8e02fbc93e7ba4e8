use hkg::builder::{convert_nodes, Builder};
use hkg::markup::{holds_word, Attr, MarkupNode};
use hkg::model::ShowItem;
use hkg::query::{find_query_value, url_query_value};
use hkg::reply_model::NodeType;
use hkg::show::{layout_fits, Show, BODY_TOP};

fn el(name: &str, attrs: &[(&str, &str)], children: Vec<MarkupNode>) -> MarkupNode {
    MarkupNode::Element {
        name: name.to_string(),
        attrs: attrs
            .iter()
            .map(|(k, v)| Attr { name: k.to_string(), value: v.to_string() })
            .collect(),
        children,
    }
}

fn tx(s: &str) -> MarkupNode {
    MarkupNode::Text { data: s.to_string() }
}

fn text(s: &str) -> NodeType {
    NodeType::Text { data: s.to_string() }
}

fn br() -> MarkupNode {
    el("br", &[], vec![])
}

fn fixture() -> MarkupNode {
    el(
        "",
        &[],
        vec![el(
            "html",
            &[],
            vec![
                el("head", &[], vec![el("title", &[], vec![tx("Thread T")])]),
                el(
                    "body",
                    &[],
                    vec![
                        el("span", &[("class", "reply_count")], vec![tx("2")]),
                        el(
                            "select",
                            &[("name", "page")],
                            vec![
                                el("option", &[], vec![tx("1")]),
                                tx(" "),
                                el("option", &[("selected", "selected")], vec![tx("2")]),
                                el("option", &[], vec![tx("3")]),
                            ],
                        ),
                        el(
                            "table",
                            &[],
                            vec![
                                el(
                                    "tr",
                                    &[("userid", "11"), ("username", "ann")],
                                    vec![
                                        el("span", &[("class", "small repliers_time")], vec![tx("30/4/2016 9:22")]),
                                        el(
                                            "div",
                                            &[("class", "ContentGrid\tbody")],
                                            vec![
                                                br(),
                                                tx("hello"),
                                                br(),
                                                el("blockquote", &[], vec![tx("quoted")]),
                                                tx("after"),
                                            ],
                                        ),
                                    ],
                                ),
                                el("tr", &[("userid", "12")], vec![el("div", &[("class", "ContentGrid")], vec![tx("no name")])]),
                                el(
                                    "tr",
                                    &[("userid", "13"), ("username", "bob")],
                                    vec![el(
                                        "div",
                                        &[("class", "ContentGrid")],
                                        vec![tx("second"), br(), br(), br(), tx("")],
                                    )],
                                ),
                            ],
                        ),
                    ],
                ),
            ],
        )],
    )
}

const URL: &str = "http://forum1.hkgolden.com/view.aspx?message=6360604&page=2";

#[test]
fn builds_page_records() {
    let b = Builder::new();
    let item = b.show_item(&fixture(), URL);
    assert_eq!(item.title, "Thread T");
    assert_eq!(item.reply_count, "2");
    assert_eq!((item.page, item.max_page), (2, 3));
    assert_eq!(item.url_query.message, "6360604");
    assert_eq!(item.replies.len(), 2);
    let first = &item.replies[0];
    assert_eq!((first.userid.as_str(), first.username.as_str()), ("11", "ann"));
    assert_eq!(first.published_at, "30/4/2016 9:22");
    assert_eq!(
        first.body,
        vec![
            text("hello"),
            NodeType::Br,
            NodeType::BlockQuote { data: vec![text("quoted")] },
            text("after")
        ]
    );
    let second = &item.replies[1];
    assert_eq!(second.username, "bob");
    assert_eq!(second.published_at, "");
    assert_eq!(second.body, vec![text("second")]);
}

#[test]
fn parse_then_render_keeps_replies_apart() {
    let item = Builder::new().show_item(&fixture(), URL);
    assert!(layout_fits(BODY_TOP, &item));
    let show = Show::new(40, 10);
    let lines = show.print("高登", &item, &vec![0, 0]);
    let tops: Vec<usize> = lines.iter().filter(|l| l.text.contains('╭')).map(|l| l.row).collect();
    let bottoms: Vec<usize> = lines.iter().filter(|l| l.text.contains('╯')).map(|l| l.row).collect();
    assert_eq!(tops, vec![5, 8]);
    assert_eq!(bottoms, vec![6, 9]);
    assert!(bottoms[0] < tops[1]);
    let quote = lines.iter().find(|l| l.text.contains("quoted")).unwrap();
    assert_eq!((quote.row, quote.text.as_str()), (3, " ├─quoted  "));
    let after = lines.iter().find(|l| l.text.contains("after")).unwrap();
    assert_eq!(after.row, 4);
}

#[test]
fn page_defaults_without_selector() {
    let doc = el("", &[], vec![el("p", &[], vec![tx("x")])]);
    let item = Builder::new().show_item(&doc, "not an address");
    assert_eq!((item.page, item.max_page), (1, 1));
    assert_eq!(item.title, "");
    assert_eq!(item.url_query.message, "");
    assert!(item.replies.is_empty());
}

#[test]
fn images_take_src_then_alt() {
    let ms = vec![
        el("img", &[("alt", "a"), ("src", "s.png")], vec![]),
        el("img", &[("alt", "smile")], vec![]),
        el("img", &[], vec![]),
    ];
    let r = convert_nodes(&ms);
    assert_eq!(
        r,
        vec![
            NodeType::Image { data: "s.png".to_string() },
            NodeType::Image { data: "smile".to_string() },
            NodeType::Image { data: String::new() }
        ]
    );
}

#[test]
fn other_elements_stand_for_their_text() {
    let ms = vec![el("a", &[("href", "x")], vec![tx("link "), el("b", &[], vec![tx("bold")])])];
    assert_eq!(convert_nodes(&ms), vec![text("link bold")]);
}

#[test]
fn quotations_are_cleaned_too() {
    let ms = vec![el(
        "blockquote",
        &[],
        vec![br(), tx("q"), br(), br(), br(), tx("")],
    )];
    assert_eq!(convert_nodes(&ms), vec![NodeType::BlockQuote { data: vec![text("q")] }]);
}

#[test]
fn query_values() {
    let pairs = vec![
        ("page".to_string(), "2".to_string()),
        ("message".to_string(), "1".to_string()),
        ("message".to_string(), "2".to_string()),
    ];
    assert_eq!(find_query_value(&pairs, "message"), Some("1".to_string()));
    assert_eq!(find_query_value(&pairs, "nope"), None);
    assert_eq!(url_query_value("http://x/a?b=1&message=%41b", "message"), Some("Ab".to_string()));
    assert_eq!(url_query_value("no address", "message"), None);
    assert_eq!(Builder::new().url_query_item(URL).message, "6360604");
}

#[test]
fn empty_page_record() {
    let item = ShowItem::empty();
    assert_eq!((item.page, item.max_page), (0, 0));
    assert!(item.replies.is_empty());
}

#[test]
fn class_lists_hold_words() {
    assert!(holds_word("a ContentGrid b", "ContentGrid"));
    assert!(holds_word("ContentGrid", "ContentGrid"));
    assert!(holds_word("x\tContentGrid", "ContentGrid"));
    assert!(!holds_word("ContentGridX", "ContentGrid"));
    assert!(!holds_word("a xContentGrid", "ContentGrid"));
    assert!(!holds_word("abc", ""));
    assert!(!holds_word("ab", "abc"));
}

#[test]
fn class_word_not_whole_value_is_not_a_match() {
    let doc = el(
        "",
        &[],
        vec![el(
            "tr",
            &[("userid", "1"), ("username", "u")],
            vec![
                el("span", &[("class", "repliers_timer")], vec![tx("no")]),
                el("div", &[("class", "ContentGrid")], vec![tx("body")]),
            ],
        )],
    );
    let item = Builder::new().show_item(&doc, URL);
    assert_eq!(item.replies[0].published_at, "");
    assert_eq!(item.replies[0].body, vec![text("body")]);
}
