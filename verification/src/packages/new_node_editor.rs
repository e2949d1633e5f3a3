use vstd::prelude::*;

verus! {

/// The kinds of node on the free-form node canvas.
#[derive(Debug, Clone, Copy, PartialEq, Eq, Structural)]
pub enum NodeKind {
    Union,
    Shape,
}

/// Whether a node of kind `target` (already holding a shape when
/// `holds_shape`) takes the node of kind `other` dropped on it: only a union
/// without a shape takes one, and only a shape.
pub fn accepts_attachment(target: NodeKind, holds_shape: bool, other: NodeKind) -> (res: bool)
    ensures
        res == (target == NodeKind::Union && !holds_shape && other == NodeKind::Shape),
{
    match (target, other) {
        (NodeKind::Union, NodeKind::Shape) => !holds_shape,
        _ => false,
    }
}

} // verus!
