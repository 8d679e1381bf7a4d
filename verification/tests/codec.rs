use anchor_dice_game::bet::{Bet, ACCOUNT_LEN, ENCODED_LEN};
use anchor_dice_game::error::BetError;

fn example_bet() -> Bet {
    Bet {
        player: [7u8; 32],
        seed: 42,
        slot: 1000,
        amount: 5_000_000,
        roll: 50,
        bump: 3,
    }
}

#[test]
fn encode_example_layout() {
    let e = example_bet().to_slice();
    assert_eq!(e.len(), ENCODED_LEN);
    assert_eq!(&e[0..32], &[7u8; 32]);
    let mut seed_le = [0u8; 16];
    seed_le[0] = 42;
    assert_eq!(&e[32..48], &seed_le);
    let mut slot_le = [0u8; 8];
    slot_le[0] = 232;
    slot_le[1] = 3;
    assert_eq!(&e[48..56], &slot_le);
    let mut amount_le = [0u8; 8];
    amount_le[0] = 0x40;
    amount_le[1] = 0x4B;
    amount_le[2] = 0x4C;
    assert_eq!(&e[56..64], &amount_le);
    assert_eq!(e[64], 50);
    assert_eq!(e[65], 3);
}

#[test]
fn encode_fixed_length_boundaries() {
    let mut b = example_bet();
    b.amount = 0;
    assert_eq!(b.to_slice().len(), 66);
    b.amount = u64::MAX;
    assert_eq!(b.to_slice().len(), 66);
    b.seed = 0;
    assert_eq!(b.to_slice().len(), 66);
    b.seed = u128::MAX;
    assert_eq!(b.to_slice().len(), 66);
    b.slot = 0;
    assert_eq!(b.to_slice().len(), 66);
}

#[test]
fn round_trip_example() {
    let x = example_bet();
    let e = x.to_slice();
    assert_eq!(Bet::from_slice(&e), Ok(x));
}

#[test]
fn round_trip_boundaries() {
    let cases = [
        Bet { player: [0u8; 32], seed: 0, slot: 0, amount: 0, roll: 0, bump: 0 },
        Bet {
            player: [255u8; 32],
            seed: u128::MAX,
            slot: u64::MAX,
            amount: u64::MAX,
            roll: 255,
            bump: 255,
        },
        example_bet(),
    ];
    for x in cases {
        assert_eq!(Bet::from_slice(&x.to_slice()), Ok(x));
        assert_eq!(Bet::from_account_bytes(&x.to_account_bytes()), Ok(x));
    }
}

#[test]
fn decode_wrong_size_is_corrupt() {
    assert_eq!(Bet::from_slice(&[]), Err(BetError::CorruptRecord));
    assert_eq!(Bet::from_slice(&[0u8; 65]), Err(BetError::CorruptRecord));
    assert_eq!(Bet::from_slice(&[0u8; 67]), Err(BetError::CorruptRecord));
    assert_eq!(Bet::from_account_bytes(&[0u8; 66]), Err(BetError::CorruptRecord));
    assert_eq!(Bet::from_account_bytes(&[0u8; 75]), Err(BetError::CorruptRecord));
}

#[test]
fn account_bytes_prefix_type_tag() {
    let x = example_bet();
    let a = x.to_account_bytes();
    assert_eq!(a.len(), ACCOUNT_LEN);
    assert_eq!(a.len(), Bet::INIT_SPACE);
    let tag = <sha2::Sha256 as sha2::Digest>::digest(b"account:Bet");
    assert_eq!(&a[0..8], &tag[0..8]);
    assert_eq!(&a[8..74], &x.to_slice()[..]);
}

#[test]
fn account_bytes_wrong_tag_is_corrupt() {
    let x = example_bet();
    let mut a = x.to_account_bytes();
    a[0] ^= 1;
    assert_eq!(Bet::from_account_bytes(&a), Err(BetError::CorruptRecord));
}

#[test]
fn injectivity_single_field_changes() {
    let x = example_bet();
    let base = x.to_slice();
    let mut p = x;
    p.player[31] = 8;
    let mut seed = x;
    seed.seed = 43;
    let mut slot = x;
    slot.slot = 1001;
    let mut amount = x;
    amount.amount = 5_000_001;
    let mut roll = x;
    roll.roll = 51;
    let mut bump = x;
    bump.bump = 4;
    for y in [p, seed, slot, amount, roll, bump] {
        assert_ne!(y.to_slice(), base);
        assert_ne!(y.to_account_bytes(), x.to_account_bytes());
    }
}
