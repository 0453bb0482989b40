use vstd::prelude::*;

verus! {

/// Ways in which building a compiler graph can go wrong.
#[derive(Clone, Copy, Debug, PartialEq, Eq, Structural)]
pub enum GraphError {
    /// A node was given two input ports, or two output ports, of one name.
    DuplicatePort,
    /// A node does not exist: a compiler node index out of range, or an
    /// editor node identity that the graph does not hold.
    UnknownNode,
    /// A connection names a port that was never registered.
    UnknownPort,
    /// A connection joins an output to an input of another type.
    TypeMismatch,
}

} // verus!
