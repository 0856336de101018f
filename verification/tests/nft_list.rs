use horse_racing::errors::ErrorCode;
use horse_racing::instructions::{get_award, mint_nft, upgrade_nft};
use horse_racing::state::{KeyBytes, UpgradableMetadata, NFT_ITEM_SIZE, NFT_LIST_SIZE};
use horse_racing::utils::{get_nft_count, min, price_roll, timestamp_to_u128};

fn key(n: u8) -> KeyBytes {
    [n; 32]
}

fn meta(passion: u8, stamina: u8) -> UpgradableMetadata {
    UpgradableMetadata { bump: 7, passion, stamina, nft_id: 0 }
}

fn item(data: &[u8], i: usize) -> (KeyBytes, u8, u8, u32) {
    let s = 2 + NFT_ITEM_SIZE * i;
    let mut k = [0u8; 32];
    k.copy_from_slice(&data[s..s + 32]);
    let reward = u32::from_le_bytes([data[s + 34], data[s + 35], data[s + 36], data[s + 37]]);
    (k, data[s + 32], data[s + 33], reward)
}

#[test]
fn sizes() {
    assert_eq!(NFT_ITEM_SIZE, 38);
    assert_eq!(NFT_LIST_SIZE, 38002);
}

#[test]
fn count_is_little_endian() {
    assert_eq!(get_nft_count(&[0x34, 0x12, 9, 9]), 0x1234);
    assert_eq!(get_nft_count(&[0, 0]), 0);
}

#[test]
fn min_of_counts() {
    assert_eq!(min(3, 10), 3);
    assert_eq!(min(12, 10), 10);
}

#[test]
fn add_nft_reads_back() {
    let mut data = vec![0u8; 2 + 38 * 3];
    mint_nft::add_nft(&key(1), &mut data, &meta(21, 22));
    mint_nft::add_nft(&key(2), &mut data, &meta(23, 24));
    assert_eq!(get_nft_count(&data), 2);
    assert_eq!(item(&data, 0), (key(1), 21, 22, 0));
    assert_eq!(item(&data, 1), (key(2), 23, 24, 0));
    assert_eq!(&data[2 + 38 * 2..], &[0u8; 38][..]);
}

#[test]
fn add_nft_carries_the_count_into_the_high_byte() {
    let mut data = vec![0u8; 2 + 38 * 256];
    data[0] = 255;
    mint_nft::add_nft(&key(4), &mut data, &meta(20, 20));
    assert_eq!(data[0], 0);
    assert_eq!(data[1], 1);
    assert_eq!(item(&data, 255), (key(4), 20, 20, 0));
}

#[test]
fn timestamp_wraps_like_a_cast() {
    assert_eq!(timestamp_to_u128(5), 5);
    assert_eq!(timestamp_to_u128(-1), u128::MAX);
    assert_eq!(timestamp_to_u128(i64::MIN), (i64::MIN) as u128);
}

#[test]
fn price_rolls() {
    assert_eq!(price_roll(Some(123), 1000), 3);
    assert_eq!(price_roll(None, 1_700_000_007), 7);
    assert_eq!(price_roll(Some(0), -3), 3);
    assert_eq!(price_roll(None, -20), 0);
}

#[test]
fn mint_rolls_attributes_and_lists_the_nft() {
    let mut data = vec![0u8; NFT_LIST_SIZE];
    let mut m = UpgradableMetadata { bump: 0, passion: 0, stamina: 0, nft_id: 0 };
    let r = mint_nft::process(&mut m, &mut data, &key(9), 251, Some(123), None, 1000);
    assert_eq!(r, Ok(()));
    assert_eq!(m.bump, 251);
    assert_eq!(m.passion, 23);
    assert_eq!(m.stamina, 20);
    assert_eq!(get_nft_count(&data), 1);
    assert_eq!(item(&data, 0), (key(9), 23, 20, 0));
}

#[test]
fn update_nft_list_writes_attributes() {
    let mut data = vec![0u8; 2 + 38 * 2];
    mint_nft::add_nft(&key(1), &mut data, &meta(21, 22));
    mint_nft::add_nft(&key(2), &mut data, &meta(23, 24));
    assert_eq!(upgrade_nft::update_nft_list(1, &key(2), &mut data, &meta(30, 31)), Ok(()));
    assert_eq!(item(&data, 1), (key(2), 30, 31, 0));
    assert_eq!(item(&data, 0), (key(1), 21, 22, 0));
}

#[test]
fn update_nft_list_refuses_other_mint() {
    let mut data = vec![0u8; 2 + 38];
    mint_nft::add_nft(&key(1), &mut data, &meta(21, 22));
    let before = data.clone();
    assert_eq!(
        upgrade_nft::update_nft_list(0, &key(2), &mut data, &meta(30, 31)),
        Err(ErrorCode::NftMintMismatch)
    );
    assert_eq!(data, before);
}

#[test]
fn upgrade_adds_rolls() {
    let mut data = vec![0u8; 2 + 38];
    mint_nft::add_nft(&key(1), &mut data, &meta(21, 22));
    let mut m = meta(21, 22);
    let r = upgrade_nft::process(&mut m, &mut data, 0, &key(1), Some(4), Some(8), 100);
    assert_eq!(r, Ok(()));
    assert_eq!((m.passion, m.stamina, m.bump), (25, 30, 7));
    assert_eq!(item(&data, 0), (key(1), 25, 30, 0));
}

#[test]
fn upgrade_of_wrong_mint_changes_nothing() {
    let mut data = vec![0u8; 2 + 38];
    mint_nft::add_nft(&key(1), &mut data, &meta(21, 22));
    let before = data.clone();
    let mut m = meta(21, 22);
    let r = upgrade_nft::process(&mut m, &mut data, 0, &key(3), Some(4), Some(8), 100);
    assert_eq!(r, Err(ErrorCode::NftMintMismatch));
    assert_eq!((m.passion, m.stamina), (21, 22));
    assert_eq!(data, before);
}

#[test]
fn get_award_succeeds() {
    assert_eq!(get_award::process(), Ok(()));
}

#[test]
fn update_nft_list_refuses_other_mint_with_only_the_key_present() {
    let mut full = vec![0u8; 2 + 38];
    mint_nft::add_nft(&key(1), &mut full, &meta(21, 22));
    let mut data = full[..2 + 32].to_vec();
    let before = data.clone();
    assert_eq!(
        upgrade_nft::update_nft_list(0, &key(2), &mut data, &meta(30, 31)),
        Err(ErrorCode::NftMintMismatch)
    );
    assert_eq!(data, before);
    let mut m = meta(21, 22);
    assert_eq!(
        upgrade_nft::process(&mut m, &mut data, 0, &key(2), Some(1), Some(1), 1),
        Err(ErrorCode::NftMintMismatch)
    );
    assert_eq!(data, before);
}

#[test]
fn upgrade_with_key_and_attributes_only() {
    let mut full = vec![0u8; 2 + 38];
    mint_nft::add_nft(&key(1), &mut full, &meta(21, 22));
    let mut data = full[..2 + 34].to_vec();
    let mut m = meta(21, 22);
    assert_eq!(upgrade_nft::process(&mut m, &mut data, 0, &key(1), None, None, 12), Ok(()));
    assert_eq!((data[34], data[35]), (23, 24));
}

#[test]
fn metadata_stays_in_step_with_the_list() {
    let mut data = vec![0u8; 2 + 38 * 2];
    let mut m1 = UpgradableMetadata { bump: 0, passion: 0, stamina: 0, nft_id: 0 };
    let mut m2 = UpgradableMetadata { bump: 0, passion: 0, stamina: 0, nft_id: 0 };
    mint_nft::process(&mut m1, &mut data, &key(1), 1, Some(5), Some(6), 10).unwrap();
    mint_nft::process(&mut m2, &mut data, &key(2), 2, None, None, 13).unwrap();
    upgrade_nft::process(&mut m1, &mut data, 0, &key(1), Some(2), Some(3), 0).unwrap();
    assert_eq!(item(&data, 0), (key(1), m1.passion, m1.stamina, 0));
    assert_eq!(item(&data, 1), (key(2), m2.passion, m2.stamina, 0));
    assert_eq!((m1.passion, m1.stamina), (27, 29));
}
