//! What can go wrong in a price, a swap simulation or a synchronisation.

use vstd::prelude::*;

verus! {

/// A fixed-point computation that has no result.
#[derive(Clone, Copy, Debug, PartialEq, Eq, Structural)]
pub enum ArithmeticError {
    /// The divisor of a fixed-point division is zero.
    YIsZero,
    /// The quotient of a fixed-point division needs more than 64 integer bits.
    QuotientOverflow,
    /// A reserve, once scaled to the other token's decimals, needs more than
    /// 256 bits.
    DecimalShiftOverflow,
}

/// A log record that a pool cannot take its reserves from.
#[derive(Clone, Copy, Debug, PartialEq, Eq, Structural)]
pub enum EventLogError {
    /// The record's first topic is none of the pool's event signatures, or the
    /// record has no topic.
    InvalidEventSignature,
    /// The record's data is not laid out as the event prescribes.
    InvalidEventData,
}

/// A swap whose output cannot be computed from the pool's own state.
#[derive(Clone, Copy, Debug, PartialEq, Eq, Structural)]
pub enum SwapSimulationError {
    /// The pool prices through a quote fetched from the chain, and none was
    /// supplied.
    LiveQuoteRequired,
    /// The amounts leave the range in which the pool's swap formula is
    /// defined: a product or a reserve would need more than its width, a
    /// divisor would be zero, or more would leave the pool than it holds.
    OutOfRange,
}

} // verus!
