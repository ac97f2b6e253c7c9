use vstd::prelude::*;

verus! {

/// How a packet travels over the UDP transport: whether it is resent when lost,
/// and whether it is delivered in order (on which ordering stream).
#[derive(Clone, Copy, Debug, PartialEq, Eq, Structural)]
pub enum Delivery {
    Unreliable,
    UnreliableSequenced { stream: Option<u8> },
    ReliableUnordered,
    ReliableOrdered { stream: Option<u8> },
}

} // verus!
