//! Choices that shape generated traffic.
use vstd::prelude::*;

verus! {

/// How the last octet of a spoofed source address is chosen.
#[derive(Clone, Copy, Debug, PartialEq, Eq, Structural)]
pub enum IpStrategy {
    /// Any last octet.
    Vanilla,
    /// Only odd last octets.
    Odd,
    /// Only even last octets.
    Even,
}

} // verus!
