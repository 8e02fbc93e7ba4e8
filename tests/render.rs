use hkg::render::{render_nodes, DrawnLine};
use hkg::reply_model::NodeType;

fn text(s: &str) -> NodeType {
    NodeType::Text { data: s.to_string() }
}

fn rows(lines: &[DrawnLine]) -> Vec<(usize, usize, String)> {
    lines.iter().map(|l| (l.col, l.row, l.text.clone())).collect()
}

#[test]
fn rows_are_breaks_plus_open_line() {
    let body = vec![text("a"), NodeType::Br, text("b"), NodeType::Br, text("c")];
    let mut out = Vec::new();
    let used = render_nodes(&body, 0, 2, 0, &mut out);
    assert_eq!(used, 3);
    assert_eq!(
        rows(&out),
        vec![
            (0, 2, " a".to_string()),
            (0, 3, " b".to_string()),
            (0, 4, " c  ".to_string())
        ]
    );
}

#[test]
fn blank_rows_are_counted_not_drawn() {
    let body = vec![text("a"), NodeType::Br, NodeType::Br, text("b"), NodeType::Br];
    let mut out = Vec::new();
    let used = render_nodes(&body, 0, 2, 0, &mut out);
    assert_eq!(used, 3);
    assert_eq!(rows(&out), vec![(0, 2, " a".to_string()), (0, 4, " b".to_string())]);
}

#[test]
fn break_before_any_row_takes_none() {
    let body = vec![text(""), NodeType::Br, text("a")];
    let mut out = Vec::new();
    let used = render_nodes(&body, 0, 2, 0, &mut out);
    assert_eq!(used, 1);
    assert_eq!(rows(&out), vec![(0, 2, " a  ".to_string())]);
}

fn nested_body() -> Vec<NodeType> {
    vec![
        text("top"),
        NodeType::Br,
        NodeType::BlockQuote {
            data: vec![
                text("q1"),
                NodeType::Br,
                NodeType::BlockQuote { data: vec![text("deep")] },
                text("q2"),
            ],
        },
        text("after"),
    ]
}

#[test]
fn quote_rows_come_before_later_siblings() {
    let body = nested_body();
    let mut out = Vec::new();
    let used = render_nodes(&body, 0, 2, 0, &mut out);
    assert_eq!(used, 5);
    assert_eq!(
        rows(&out),
        vec![
            (0, 2, " top".to_string()),
            (0, 3, " ├─q1".to_string()),
            (0, 4, " ├─├─deep  ".to_string()),
            (0, 5, " ├─q2  ".to_string()),
            (0, 6, " after  ".to_string())
        ]
    );
    for w in out.windows(2) {
        assert!(w[0].row < w[1].row);
    }
}

#[test]
fn scrolled_rows_are_counted_not_drawn() {
    let body = nested_body();
    let mut out = Vec::new();
    let used = render_nodes(&body, 0, 2, 2, &mut out);
    assert_eq!(used, 5);
    assert_eq!(
        rows(&out),
        vec![
            (0, 2, " ├─├─deep  ".to_string()),
            (0, 3, " ├─q2  ".to_string()),
            (0, 4, " after  ".to_string())
        ]
    );
}

#[test]
fn images_show_as_placeholders() {
    let body = vec![
        NodeType::Image { data: "pic.png".to_string() },
        NodeType::Image { data: String::new() },
        text(" ok"),
    ];
    let mut out = Vec::new();
    let used = render_nodes(&body, 0, 2, 0, &mut out);
    assert_eq!(used, 1);
    assert_eq!(rows(&out), vec![(0, 2, " [img pic.png] ok  ".to_string())]);
}

#[test]
fn empty_body_takes_no_rows() {
    let body: Vec<NodeType> = Vec::new();
    let mut out = Vec::new();
    assert_eq!(render_nodes(&body, 0, 2, 0, &mut out), 0);
    assert!(out.is_empty());
}
