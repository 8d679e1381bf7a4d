//! The provably fair resolution protocol.
//!
//! A resolution hashes the record's canonical encoding concatenated with the
//! chain's randomness beacon value, reduces the whole digest into `[0, 99]`,
//! and compares against the record's threshold. The win convention is fixed:
//! the player wins exactly when the derived outcome is strictly below
//! `roll`. A beacon is admissible only for a slot strictly later than the
//! record's placement slot, and a record resolves at most once: a successful
//! resolution closes it, so a second attempt finds nothing.

use vstd::prelude::*;
use vstd::slice::slice_to_vec;
use vstd::array::{array_as_slice, array_index_get};
use crate::bet::{Bet, BetEvent};
use crate::error::BetError;
use crate::hashing::{sha256, sha256_of};

verus! {

/// The outcome of one successful resolution.
#[derive(Clone, Copy, Debug, PartialEq, Eq, Structural)]
pub struct Resolution {
    /// The derived dice value, in `[0, 99]`.
    pub outcome: u8,
    /// Whether the player won: `outcome < roll`, strictly.
    pub won: bool,
    /// The notification record to emit, carrying the derived value.
    pub event: BetEvent,
}

/// Reduce a digest into `[0, 99]` by taking the whole digest, read as one
/// big-endian number, modulo 100: every digest bit participates, so no
/// low-order truncation biases the result.
pub open spec fn spec_wide_reduce(h: Seq<u8>) -> u8
    decreases h.len(),
{
    if h.len() == 0 {
        0u8
    } else {
        ((spec_wide_reduce(h.drop_last()) * 256 + h.last()) % 100) as u8
    }
}

/// The dice value a record and a beacon value determine: the wide reduction
/// of the digest of `encode(record) || beacon`.
pub open spec fn spec_outcome(b: Bet, beacon: Seq<u8>) -> u8 {
    spec_wide_reduce(sha256_of(b.encoding() + beacon))
}

/// The full resolution a record and a beacon value determine.
pub open spec fn spec_resolution(b: Bet, beacon: Seq<u8>) -> Resolution {
    Resolution {
        outcome: spec_outcome(b, beacon),
        won: spec_outcome(b, beacon) < b.roll,
        event: BetEvent { bet: spec_outcome(b, beacon) },
    }
}

/// Reduce a digest into `[0, 99]`; see `spec_wide_reduce`.
pub fn map_to_range(h: &[u8]) -> (r: u8)
    ensures
        r == spec_wide_reduce(h@),
        r < 100,
{
    let mut acc: u16 = 0;
    let mut i: usize = 0;
    while i < h.len()
        invariant
            i <= h@.len(),
            acc == spec_wide_reduce(h@.take(i as int)),
            acc < 100,
        decreases h@.len() - i,
    {
        let b: u8 = *vstd::slice::slice_index_get(h, i);
        proof {
            assert(h@.take(i + 1).drop_last() =~= h@.take(i as int));
            assert(h@.take(i + 1).last() == h@[i as int]);
        }
        acc = (acc * 256 + (b as u16)) % 100;
        i += 1;
    }
    proof {
        assert(h@.take(h@.len() as int) =~= h@);
    }
    acc as u8
}

/// Compute the dice value for a record under a given beacon value.
///
/// Deterministic: the result is a function of the record's fields and the
/// beacon bytes alone, so any third party recomputes the same value from
/// the same public data.
pub fn compute_outcome(bet: &Bet, beacon: &[u8; 32]) -> (r: u8)
    ensures
        r == spec_outcome(*bet, beacon@),
        r < 100,
{
    let mut preimage: Vec<u8> = bet.to_slice();
    let mut beacon_bytes: Vec<u8> = slice_to_vec(array_as_slice(beacon));
    preimage.append(&mut beacon_bytes);
    assert(preimage@ =~= bet.encoding() + beacon@);
    let digest: Vec<u8> = sha256(preimage.as_slice());
    map_to_range(digest.as_slice())
}

/// Whether a record answers to the given `(player, seed)` key.
pub open spec fn key_matches(b: Bet, player: Seq<u8>, seed: u128) -> bool {
    b.player@ == player && b.seed == seed
}

/// Whether some record in the sequence answers to the key.
pub open spec fn has_key(s: Seq<Bet>, player: Seq<u8>, seed: u128) -> bool {
    exists|i: int| 0 <= i < s.len() && #[trigger] key_matches(s[i], player, seed)
}

/// The index of the record answering to the key (unique under
/// `unique_keys`).
pub open spec fn key_index(s: Seq<Bet>, player: Seq<u8>, seed: u128) -> int {
    choose|i: int| 0 <= i < s.len() && #[trigger] key_matches(s[i], player, seed)
}

/// No two records share a `(player, seed)` key: the key identifies a record.
pub open spec fn unique_keys(s: Seq<Bet>) -> bool {
    forall|i: int, j: int|
        #![trigger s[i], s[j]]
        0 <= i < s.len() && 0 <= j < s.len() && i != j ==> !(s[i].player@ == s[j].player@
            && s[i].seed == s[j].seed)
}

/// What a resolution attempt does to a set of open records: the result
/// handed back, and the records that remain.
///
/// No record under the key: `RecordNotFound`, nothing changes. A beacon for
/// a slot at or before the record's placement slot: `BeaconUnavailable`,
/// nothing changes. Otherwise the resolution is computed and the record is
/// closed.
pub open spec fn spec_resolve(
    s: Seq<Bet>,
    player: Seq<u8>,
    seed: u128,
    beacon_slot: u64,
    beacon: Seq<u8>,
) -> (Result<Resolution, BetError>, Seq<Bet>) {
    if !has_key(s, player, seed) {
        (Err(BetError::RecordNotFound), s)
    } else {
        let b = s[key_index(s, player, seed)];
        if beacon_slot <= b.slot {
            (Err(BetError::BeaconUnavailable), s)
        } else {
            (Ok(spec_resolution(b, beacon)), s.remove(key_index(s, player, seed)))
        }
    }
}

/// The set of open (placed, not yet resolved) records. Stands for the
/// ledger's account storage: placement creates a record, resolution reads
/// it once and closes it, and no update path exists.
pub struct BetStore {
    bets: Vec<Bet>,
}

impl View for BetStore {
    type V = Seq<Bet>;

    closed spec fn view(&self) -> Seq<Bet> {
        self.bets@
    }
}

/// Byte-wise equality of two 32-byte identities.
fn bytes32_eq(a: &[u8; 32], b: &[u8; 32]) -> (r: bool)
    ensures
        r == (a@ == b@),
{
    let mut i: usize = 0;
    while i < 32
        invariant
            i <= 32,
            forall|j: int| 0 <= j < i ==> a@[j] == b@[j],
        decreases 32 - i,
    {
        if *array_index_get(a, i) != *array_index_get(b, i) {
            proof {
                assert(a@[i as int] != b@[i as int]);
            }
            return false;
        }
        i += 1;
    }
    proof {
        assert(a@ =~= b@);
    }
    true
}

impl BetStore {
    /// A store with no open records.
    pub fn new() -> (r: BetStore)
        ensures
            r@ == Seq::<Bet>::empty(),
            unique_keys(r@),
    {
        let r = BetStore { bets: Vec::new() };
        assert(r@ =~= Seq::<Bet>::empty());
        r
    }

    /// The index of the record under the key, if any.
    fn find(&self, player: &[u8; 32], seed: u128) -> (r: Option<usize>)
        ensures
            match r {
                Some(i) => i < self@.len() && key_matches(self@[i as int], player@, seed),
                None => !has_key(self@, player@, seed),
            },
    {
        let mut i: usize = 0;
        while i < self.bets.len()
            invariant
                i <= self@.len(),
                forall|j: int| 0 <= j < i ==> !key_matches(#[trigger] self@[j], player@, seed),
            decreases self@.len() - i,
        {
            let b = &self.bets[i];
            if bytes32_eq(&b.player, player) && b.seed == seed {
                return Some(i);
            }
            i += 1;
        }
        None
    }

    /// Whether a record is open under the key.
    pub fn contains(&self, player: &[u8; 32], seed: u128) -> (r: bool)
        ensures
            r == has_key(self@, player@, seed),
    {
        match self.find(player, seed) {
            Some(i) => {
                proof {
                    assert(has_key(self@, player@, seed));
                }
                true
            },
            None => false,
        }
    }

    /// Place a bet: validate its parameters and open its record.
    ///
    /// A zero wager or a threshold outside `[1, 99]` is rejected with
    /// `InvalidBetParameters` before anything changes; a valid bet's record
    /// is appended. The caller supplies a fresh `(player, seed)` key — the
    /// key derives the record's storage address, so an occupied key cannot
    /// be created again.
    pub fn place(&mut self, bet: Bet) -> (r: Result<(), BetError>)
        requires
            unique_keys(old(self)@),
            !has_key(old(self)@, bet.player@, bet.seed),
        ensures
            unique_keys(final(self)@),
            bet.valid_params() ==> (r == Ok::<(), BetError>(()) && final(self)@ == old(
                self,
            )@.push(bet)),
            !bet.valid_params() ==> (r == Err::<(), BetError>(BetError::InvalidBetParameters)
                && final(self)@ == old(self)@),
    {
        if bet.amount == 0 || bet.roll < 1 || bet.roll > 99 {
            return Err(BetError::InvalidBetParameters);
        }
        self.bets.push(bet);
        proof {
            let s = old(self)@;
            let s2 = self@;
            assert forall|i: int, j: int|
                #![trigger s2[i], s2[j]]
                0 <= i < s2.len() && 0 <= j < s2.len() && i != j implies !(s2[i].player@
                == s2[j].player@ && s2[i].seed == s2[j].seed) by {
                if i < s.len() && j < s.len() {
                    assert(s2[i] == s[i] && s2[j] == s[j]);
                } else if j == s.len() {
                    assert(s2[i] == s[i] && s2[j] == bet);
                    assert(!key_matches(s[i], bet.player@, bet.seed));
                } else {
                    assert(s2[j] == s[j] && s2[i] == bet);
                    assert(!key_matches(s[j], bet.player@, bet.seed));
                }
            }
        }
        Ok(())
    }

    /// Resolve the record under `(player, seed)` with the beacon value for
    /// `beacon_slot`.
    ///
    /// Behaves exactly as `spec_resolve` says: no open record gives
    /// `RecordNotFound`; a beacon slot at or before the record's placement
    /// slot gives `BeaconUnavailable` and changes nothing; otherwise the
    /// outcome is derived from the record and the beacon value alone and
    /// the record is closed, so a repeated attempt fails.
    pub fn resolve(
        &mut self,
        player: &[u8; 32],
        seed: u128,
        beacon_slot: u64,
        beacon: &[u8; 32],
    ) -> (r: Result<Resolution, BetError>)
        requires
            unique_keys(old(self)@),
        ensures
            unique_keys(final(self)@),
            ({
                let (res, remaining) = spec_resolve(old(self)@, player@, seed, beacon_slot, beacon@);
                r == res && final(self)@ == remaining
            }),
    {
        let idx: usize = match self.find(player, seed) {
            Some(i) => i,
            None => {
                return Err(BetError::RecordNotFound);
            },
        };
        proof {
            assert(has_key(self@, player@, seed));
            let k = key_index(self@, player@, seed);
            assert(0 <= k < self@.len() && key_matches(self@[k], player@, seed));
            if k != idx {
                assert(!(self@[k].player@ == self@[idx as int].player@ && self@[k].seed
                    == self@[idx as int].seed));
            }
            assert(k == idx);
        }
        let b: Bet = self.bets[idx];
        if beacon_slot <= b.slot {
            return Err(BetError::BeaconUnavailable);
        }
        let outcome: u8 = compute_outcome(&b, beacon);
        let won: bool = outcome < b.roll;
        self.bets.remove(idx);
        proof {
            let s = old(self)@;
            let s2 = self@;
            assert(s2 == s.remove(idx as int));
            s.remove_ensures(idx as int);
            assert forall|i: int, j: int|
                #![trigger s2[i], s2[j]]
                0 <= i < s2.len() && 0 <= j < s2.len() && i != j implies !(s2[i].player@
                == s2[j].player@ && s2[i].seed == s2[j].seed) by {
                let oi: int = if i < idx { i } else { i + 1 };
                let oj: int = if j < idx { j } else { j + 1 };
                assert(s2[i] == s[oi] && s2[j] == s[oj]);
            }
        }
        Ok(Resolution { outcome, won, event: BetEvent { bet: outcome } })
    }
}

/// Single resolution: once a resolution attempt on a key succeeds, the
/// record is closed, and every later attempt on the same key — with any
/// beacon whatsoever — fails with `RecordNotFound`.
pub proof fn lemma_single_resolution(
    s: Seq<Bet>,
    player: Seq<u8>,
    seed: u128,
    first_slot: u64,
    first_beacon: Seq<u8>,
    second_slot: u64,
    second_beacon: Seq<u8>,
)
    requires
        unique_keys(s),
        spec_resolve(s, player, seed, first_slot, first_beacon).0 is Ok,
    ensures
        spec_resolve(
            spec_resolve(s, player, seed, first_slot, first_beacon).1,
            player,
            seed,
            second_slot,
            second_beacon,
        ).0 == Err::<Resolution, BetError>(BetError::RecordNotFound),
{
    let k = key_index(s, player, seed);
    assert(has_key(s, player, seed));
    assert(0 <= k < s.len() && key_matches(s[k], player, seed));
    let s2 = spec_resolve(s, player, seed, first_slot, first_beacon).1;
    assert(s2 == s.remove(k));
    s.remove_ensures(k);
    assert forall|i: int| 0 <= i < s2.len() implies !key_matches(
        #[trigger] s2[i],
        player,
        seed,
    ) by {
        let oi: int = if i < k { i } else { i + 1 };
        assert(s2[i] == s[oi]);
        assert(oi != k);
        assert(!(s[oi].player@ == s[k].player@ && s[oi].seed == s[k].seed));
    }
    assert(!has_key(s2, player, seed));
}

/// Temporal ordering: a beacon for a slot at or before the record's
/// placement slot never resolves the record — the attempt is rejected with
/// `BeaconUnavailable` and no record changes.
pub proof fn lemma_temporal_ordering(
    s: Seq<Bet>,
    player: Seq<u8>,
    seed: u128,
    beacon_slot: u64,
    beacon: Seq<u8>,
)
    requires
        has_key(s, player, seed),
        beacon_slot <= s[key_index(s, player, seed)].slot,
    ensures
        spec_resolve(s, player, seed, beacon_slot, beacon).0 == Err::<Resolution, BetError>(
            BetError::BeaconUnavailable,
        ),
        spec_resolve(s, player, seed, beacon_slot, beacon).1 == s,
{
}

/// Determinism: the resolver's outcome is a function of the record's fields
/// and the beacon bytes alone, so independent recomputations from the same
/// public data agree bit for bit.
pub proof fn lemma_resolution_deterministic(a: Bet, b: Bet, beacon_a: Seq<u8>, beacon_b: Seq<u8>)
    requires
        a == b,
        beacon_a == beacon_b,
    ensures
        spec_resolution(a, beacon_a) == spec_resolution(b, beacon_b),
{
}

} // verus!
