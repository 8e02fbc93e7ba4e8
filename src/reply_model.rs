use vstd::prelude::*;

verus! {

/// One node of a reply body. A `BlockQuote` owns its own child sequence, so a
/// body is a strict tree.
#[derive(Debug, PartialEq, Eq)]
pub enum NodeType {
    Text { data: String },
    Image { data: String },
    Br,
    BlockQuote { data: Vec<NodeType> },
}

/// Number of nodes in a sequence, counting every nested node once.
pub open spec fn tree_size(s: Seq<NodeType>) -> nat
    decreases s, 0nat,
{
    if s.len() == 0 {
        0
    } else {
        tree_size(s.drop_last()) + node_size(s.last())
    }
}

/// Number of nodes in the subtree rooted at `n`, `n` included.
pub open spec fn node_size(n: NodeType) -> nat
    decreases n,
{
    match n {
        NodeType::BlockQuote { data } => 1 + tree_size(data@),
        _ => 1,
    }
}

} // verus!
