use hkg::cleanup::{clean_nodes, collapse_leading_breaks, trim_tail};
use hkg::reply_model::NodeType;

fn text(s: &str) -> NodeType {
    NodeType::Text { data: s.to_string() }
}

#[test]
fn trim_tail_drops_blank_tail() {
    let mut v = vec![text("a"), NodeType::Br, NodeType::Br, NodeType::Br, text("")];
    trim_tail(&mut v);
    assert_eq!(v, vec![text("a")]);
}

#[test]
fn trim_tail_drops_only_four() {
    let mut v = vec![
        text("a"),
        NodeType::Br,
        text("b"),
        NodeType::Br,
        NodeType::Br,
        NodeType::Br,
        text(""),
    ];
    trim_tail(&mut v);
    assert_eq!(v, vec![text("a"), NodeType::Br, text("b")]);
}

#[test]
fn trim_tail_keeps_other_endings() {
    let mut v = vec![text("a"), NodeType::Br, NodeType::Br, NodeType::Br, text("x")];
    trim_tail(&mut v);
    assert_eq!(v.len(), 5);

    let mut w = vec![text("a"), NodeType::Br, text("b"), NodeType::Br, text("")];
    trim_tail(&mut w);
    assert_eq!(w.len(), 5);
}

#[test]
fn trim_tail_needs_more_than_four() {
    let mut v = vec![NodeType::Br, NodeType::Br, NodeType::Br, text("")];
    trim_tail(&mut v);
    assert_eq!(v.len(), 4);
}

#[test]
fn trim_tail_on_empty() {
    let mut v: Vec<NodeType> = Vec::new();
    trim_tail(&mut v);
    assert!(v.is_empty());
}

#[test]
fn collapse_drops_leading_breaks_only() {
    let v = vec![NodeType::Br, NodeType::Br, text("a"), NodeType::Br, NodeType::Br, text("b")];
    let r = collapse_leading_breaks(v);
    assert_eq!(r, vec![text("a"), NodeType::Br, NodeType::Br, text("b")]);
}

#[test]
fn collapse_all_breaks_gives_empty() {
    let r = collapse_leading_breaks(vec![NodeType::Br, NodeType::Br]);
    assert!(r.is_empty());
}

#[test]
fn clean_trims_before_collapsing() {
    let v = vec![NodeType::Br, NodeType::Br, NodeType::Br, NodeType::Br, text("")];
    let r = clean_nodes(v);
    assert!(r.is_empty());

    let w = vec![NodeType::Br, text("a"), NodeType::Br, NodeType::Br, NodeType::Br, text("")];
    let r2 = clean_nodes(w);
    assert_eq!(r2, vec![text("a")]);
}
