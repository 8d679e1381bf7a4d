//! Failure modes of the record codec and the resolution protocol.

use vstd::prelude::*;

verus! {

/// Every way a codec or protocol operation can fail.
#[derive(Clone, Copy, Debug, PartialEq, Eq, Structural)]
pub enum BetError {
    /// Stored bytes are not a well-formed record: wrong size or wrong type tag.
    CorruptRecord,
    /// The randomness beacon for a usable slot is not yet available; the
    /// caller may retry once the chain has advanced past the record's slot.
    BeaconUnavailable,
    /// No record exists under the given key; a record that was already
    /// resolved and closed gives this on every later attempt.
    RecordNotFound,
    /// A placement carried a zero wager or an out-of-range roll threshold.
    InvalidBetParameters,
}

} // verus!
