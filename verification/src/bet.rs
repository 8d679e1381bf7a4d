//! The bet commitment record and its canonical fixed-width byte codec.
//!
//! A record is immutable once placed. Its encoding is the direct
//! concatenation of the fields, all multi-byte integers little-endian,
//! 66 bytes in all:
//!
//! `[32-byte player][16-byte seed][8-byte slot][8-byte amount][roll][bump]`
//!
//! The persisted account form prefixes an 8-byte type tag, for 74 bytes.
//! The encoding is total (every field assignment encodes) and injective
//! (distinct records have distinct encodings); it doubles as the hash
//! preimage that binds the record to the randomness beacon at resolution.

use vstd::prelude::*;
use vstd::bytes::{
    spec_u64_to_le_bytes, spec_u128_to_le_bytes, spec_u128_from_le_bytes, u64_to_le_bytes,
    u64_from_le_bytes, u128_to_le_bytes, u128_from_le_bytes, lemma_auto_spec_u64_to_from_le_bytes,
    lemma_auto_spec_u128_to_from_le_bytes,
};
use vstd::slice::{slice_index_get, slice_subrange, slice_to_vec};
use vstd::array::{array_as_slice, ArrayAdditionalExecFns};
use crate::error::BetError;

verus! {

broadcast use vstd::array::group_array_axioms;

/// Number of bytes in the canonical encoding of a record.
pub const ENCODED_LEN: usize = 66;

/// Number of bytes in the persisted account form: type tag plus encoding.
pub const ACCOUNT_LEN: usize = 74;

/// An immutable bet commitment: who wagered, how much, against which
/// outcome threshold, and which chain slot fixes the governing beacon.
#[derive(Clone, Copy, Debug, PartialEq, Eq)]
pub struct Bet {
    /// 32-byte public identity of the bettor; payout recipient.
    pub player: [u8; 32],
    /// Client-chosen commitment salt; `(player, seed)` identifies the record.
    pub seed: u128,
    /// Chain slot at placement; only beacons for strictly later slots may
    /// govern resolution.
    pub slot: u64,
    /// Wager in base token units; valid records have `amount > 0`.
    pub amount: u64,
    /// Outcome threshold; valid records have `1 <= roll <= 99`.
    pub roll: u8,
    /// Canonicalization nonce of the record's derived storage address.
    pub bump: u8,
}

impl Bet {
    /// Bytes a persisted record occupies: the 8-byte type tag plus
    /// 32 (player) + 16 (seed) + 8 (slot) + 8 (amount) + 1 (roll) + 1 (bump).
    pub const INIT_SPACE: usize = 8 + 32 + 16 + 8 + 8 + 1 + 1;

    /// The canonical 66-byte encoding: fields concatenated in declaration
    /// order, integers little-endian, no padding.
    pub open spec fn encoding(self) -> Seq<u8> {
        self.player@ + spec_u128_to_le_bytes(self.seed) + spec_u64_to_le_bytes(self.slot)
            + spec_u64_to_le_bytes(self.amount) + seq![self.roll, self.bump]
    }

    /// Placement-time validity: a positive wager and a threshold that keeps
    /// both outcomes possible.
    pub open spec fn valid_params(self) -> bool {
        self.amount > 0 && 1 <= self.roll <= 99
    }

    /// Produce the canonical encoding. Total: every field assignment,
    /// boundary values included, yields exactly 66 bytes.
    pub fn to_slice(&self) -> (r: Vec<u8>)
        ensures
            r@ == self.encoding(),
            r@.len() == ENCODED_LEN,
    {
        proof {
            lemma_auto_spec_u64_to_from_le_bytes();
            lemma_auto_spec_u128_to_from_le_bytes();
        }
        let mut info: Vec<u8> = slice_to_vec(array_as_slice(&self.player));
        let mut seed_bytes: Vec<u8> = u128_to_le_bytes(self.seed);
        let mut slot_bytes: Vec<u8> = u64_to_le_bytes(self.slot);
        let mut amount_bytes: Vec<u8> = u64_to_le_bytes(self.amount);
        info.append(&mut seed_bytes);
        info.append(&mut slot_bytes);
        info.append(&mut amount_bytes);
        info.push(self.roll);
        info.push(self.bump);
        assert(info@ =~= self.encoding());
        info
    }

    /// The persisted account form: the 8-byte type tag, then the encoding.
    pub open spec fn account_encoding(self) -> Seq<u8> {
        spec_discriminator() + self.encoding()
    }

    /// Produce the persisted account form: type tag plus canonical encoding,
    /// 74 bytes in all.
    pub fn to_account_bytes(&self) -> (r: Vec<u8>)
        ensures
            r@ == self.account_encoding(),
            r@.len() == ACCOUNT_LEN,
    {
        proof {
            lemma_encoding_len(*self);
        }
        let mut out: Vec<u8> = discriminator();
        let mut body: Vec<u8> = self.to_slice();
        out.append(&mut body);
        assert(out@ =~= self.account_encoding());
        out
    }

    /// Decode a canonical 66-byte encoding back into a record.
    ///
    /// Exactly the 66-byte inputs decode; anything else is `CorruptRecord`,
    /// never a partial record. Decoding inverts `to_slice`: a buffer that is
    /// the encoding of some record decodes to that record and no other.
    pub fn from_slice(data: &[u8]) -> (r: Result<Bet, BetError>)
        ensures
            data@.len() == ENCODED_LEN ==> (r matches Ok(b) && b.encoding() == data@),
            data@.len() != ENCODED_LEN ==> r == Err::<Bet, BetError>(BetError::CorruptRecord),
            forall|x: Bet| data@ == x.encoding() ==> r == Ok::<Bet, BetError>(x),
    {
        proof {
            lemma_auto_spec_u64_to_from_le_bytes();
            lemma_auto_spec_u128_to_from_le_bytes();
        }
        if data.len() != ENCODED_LEN {
            proof {
                assert forall|x: Bet| data@ == x.encoding() implies false by {
                    lemma_encoding_len(x);
                }
            }
            return Err(BetError::CorruptRecord);
        }
        let mut player: [u8; 32] = [0; 32];
        let mut i: usize = 0;
        while i < 32
            invariant
                i <= 32,
                data@.len() == ENCODED_LEN,
                forall|j: int| 0 <= j < i ==> player@[j] == data@[j],
            decreases 32 - i,
        {
            player.set(i, *slice_index_get(data, i));
            i += 1;
        }
        let seed = u128_from_le_bytes(slice_subrange(data, 32, 48));
        let slot = u64_from_le_bytes(slice_subrange(data, 48, 56));
        let amount = u64_from_le_bytes(slice_subrange(data, 56, 64));
        let roll = *slice_index_get(data, 64);
        let bump = *slice_index_get(data, 65);
        let b = Bet { player, seed, slot, amount, roll, bump };
        proof {
            assert(spec_u128_to_le_bytes(b.seed) =~= data@.subrange(32, 48));
            assert(spec_u64_to_le_bytes(b.slot) =~= data@.subrange(48, 56));
            assert(spec_u64_to_le_bytes(b.amount) =~= data@.subrange(56, 64));
            assert(b.encoding() =~= data@);
            assert forall|x: Bet| data@ == x.encoding() implies Ok::<Bet, BetError>(b) == Ok::<
                Bet,
                BetError,
            >(x) by {
                lemma_encoding_injective(b, x);
            }
        }
        Ok(b)
    }

    /// Read a record from its persisted account form.
    ///
    /// Exactly the 74-byte buffers that begin with the record's type tag
    /// decode; anything else is `CorruptRecord`.
    pub fn from_account_bytes(data: &[u8]) -> (r: Result<Bet, BetError>)
        ensures
            r is Ok <==> data@.len() == ACCOUNT_LEN && data@.subrange(0, 8)
                == spec_discriminator(),
            r matches Ok(b) ==> b.account_encoding() == data@,
            r is Err ==> r == Err::<Bet, BetError>(BetError::CorruptRecord),
            forall|x: Bet| data@ == x.account_encoding() ==> r == Ok::<Bet, BetError>(x),
    {
        if data.len() != ACCOUNT_LEN {
            proof {
                assert forall|x: Bet| data@ == x.account_encoding() implies false by {
                    lemma_encoding_len(x);
                }
            }
            return Err(BetError::CorruptRecord);
        }
        let tag: Vec<u8> = discriminator();
        let mut i: usize = 0;
        while i < 8
            invariant
                i <= 8,
                data@.len() == ACCOUNT_LEN,
                tag@ == spec_discriminator(),
                forall|j: int| 0 <= j < i ==> data@[j] == spec_discriminator()[j],
            decreases 8 - i,
        {
            if *slice_index_get(data, i) != tag[i] {
                proof {
                    assert(data@.subrange(0, 8)[i as int] != spec_discriminator()[i as int]);
                    assert forall|x: Bet| data@ == x.account_encoding() implies false by {
                        assert(x.account_encoding().subrange(0, 8) =~= spec_discriminator());
                    }
                }
                return Err(BetError::CorruptRecord);
            }
            i += 1;
        }
        assert(data@.subrange(0, 8) =~= spec_discriminator());
        let body = slice_subrange(data, 8, 74);
        match Bet::from_slice(body) {
            Ok(b) => {
                proof {
                    assert(b.account_encoding() =~= data@);
                    assert forall|x: Bet| data@ == x.account_encoding() implies Ok::<
                        Bet,
                        BetError,
                    >(b) == Ok::<Bet, BetError>(x) by {
                        assert(x.encoding() =~= data@.subrange(8, 74));
                        lemma_encoding_injective(b, x);
                    }
                }
                Ok(b)
            },
            Err(_) => {
                proof {
                    assert(false);
                }
                Err(BetError::CorruptRecord)
            },
        }
    }
}

/// The fixed 8-byte type tag that prefixes every persisted record.
pub open spec fn spec_discriminator() -> Seq<u8> {
    seq![147u8, 23u8, 35u8, 59u8, 15u8, 75u8, 155u8, 32u8]
}

/// Build the record type tag.
pub fn discriminator() -> (r: Vec<u8>)
    ensures
        r@ == spec_discriminator(),
        r@.len() == 8,
{
    let mut v: Vec<u8> = Vec::new();
    v.push(147u8);
    v.push(23u8);
    v.push(35u8);
    v.push(59u8);
    v.push(15u8);
    v.push(75u8);
    v.push(155u8);
    v.push(32u8);
    assert(v@ =~= spec_discriminator());
    v
}

/// Injectivity of the codec, stated as invertibility: two records with the
/// same encoding are the same record.
pub proof fn lemma_encoding_injective(a: Bet, b: Bet)
    requires
        a.encoding() == b.encoding(),
    ensures
        a == b,
{
    lemma_auto_spec_u64_to_from_le_bytes();
    lemma_auto_spec_u128_to_from_le_bytes();
    let ea = a.encoding();
    let eb = b.encoding();
    assert(ea.subrange(0, 32) =~= a.player@);
    assert(eb.subrange(0, 32) =~= b.player@);
    assert(a.player@ == b.player@);
    assert(a.player =~= b.player);
    assert(ea.subrange(32, 48) =~= spec_u128_to_le_bytes(a.seed));
    assert(eb.subrange(32, 48) =~= spec_u128_to_le_bytes(b.seed));
    assert(a.seed == spec_u128_from_le_bytes(spec_u128_to_le_bytes(a.seed)));
    assert(a.seed == b.seed);
    assert(ea.subrange(48, 56) =~= spec_u64_to_le_bytes(a.slot));
    assert(eb.subrange(48, 56) =~= spec_u64_to_le_bytes(b.slot));
    assert(a.slot == b.slot);
    assert(ea.subrange(56, 64) =~= spec_u64_to_le_bytes(a.amount));
    assert(eb.subrange(56, 64) =~= spec_u64_to_le_bytes(b.amount));
    assert(a.amount == b.amount);
    assert(a.roll == ea[64] && b.roll == eb[64]);
    assert(a.bump == ea[65] && b.bump == eb[65]);
}

/// Changing any single field of a record changes its encoding.
pub proof fn lemma_field_change_changes_encoding(a: Bet, b: Bet)
    requires
        a != b,
    ensures
        a.encoding() != b.encoding(),
{
    if a.encoding() == b.encoding() {
        lemma_encoding_injective(a, b);
    }
}

/// Every record encodes to exactly 66 bytes, whatever its field values.
pub proof fn lemma_encoding_len(b: Bet)
    ensures
        b.encoding().len() == ENCODED_LEN,
{
    lemma_auto_spec_u64_to_from_le_bytes();
    lemma_auto_spec_u128_to_from_le_bytes();
}

/// Single-field outcome marker emitted once per resolved record.
#[derive(Clone, Copy, Debug, PartialEq, Eq, Structural)]
pub struct BetEvent {
    /// The resolved outcome value, in `[0, 99]`.
    pub bet: u8,
}

} // verus!
