use anchor_lang::prelude::Pubkey;
use horse_racing::utils::{get_price, price_from_answer, FeedError};
use std::str::FromStr;

const DISCRIMINATOR: [u8; 8] = [96, 179, 69, 66, 128, 129, 73, 117];

fn store_owner() -> [u8; 32] {
    Pubkey::from_str("HEvSKofvBgfaexv23kMabbYqxasxU3mQ4ibBMEmJWHny").unwrap().to_bytes()
}

/// A feed account with one live transmission holding `answer`.
fn feed(latest_round_id: u32, answer: i128) -> Vec<u8> {
    let mut d = Vec::new();
    d.extend_from_slice(&DISCRIMINATOR);
    d.push(1); // version
    d.push(0); // state
    d.extend_from_slice(&[0u8; 32 * 3]); // owner, proposed owner, writer
    d.extend_from_slice(&[0u8; 32]); // description
    d.push(8); // decimals
    d.extend_from_slice(&0u32.to_le_bytes()); // flagging threshold
    d.extend_from_slice(&latest_round_id.to_le_bytes());
    d.push(1); // granularity
    d.extend_from_slice(&1u32.to_le_bytes()); // live length
    d.extend_from_slice(&0u32.to_le_bytes()); // live cursor
    d.extend_from_slice(&0u32.to_le_bytes()); // historical cursor
    d.resize(8 + 192, 0);
    d.extend_from_slice(&77u64.to_le_bytes()); // slot
    d.extend_from_slice(&5u32.to_le_bytes()); // timestamp
    d.extend_from_slice(&0u32.to_le_bytes());
    d.extend_from_slice(&answer.to_le_bytes());
    d.extend_from_slice(&[0u8; 16]);
    d
}

#[test]
fn feed_price_is_the_latest_answer() {
    assert_eq!(get_price(&feed(3, 2_345_678_901), &store_owner()), Ok(Some(2_345_678_901)));
}

#[test]
fn feed_without_round_has_no_price() {
    assert_eq!(get_price(&feed(0, 17), &store_owner()), Ok(None));
}

#[test]
fn feed_with_negative_answer_has_no_price() {
    assert_eq!(get_price(&feed(2, -5), &store_owner()), Ok(None));
}

#[test]
fn feed_of_other_owner_is_refused() {
    assert_eq!(get_price(&feed(3, 10), &[1u8; 32]), Err(FeedError::InvalidOwner));
}

#[test]
fn feed_without_discriminator_is_refused() {
    let mut d = feed(3, 10);
    d[0] = 0;
    assert_eq!(get_price(&d, &store_owner()), Err(FeedError::InvalidDiscriminator));
}

#[test]
fn answers_become_prices() {
    assert_eq!(price_from_answer(Ok(Some(42))), Ok(Some(42)));
    assert_eq!(price_from_answer(Ok(Some(-1))), Ok(None));
    assert_eq!(price_from_answer(Ok(None)), Ok(None));
    assert_eq!(price_from_answer(Err(FeedError::TransmissionNotFound)), Ok(None));
    assert_eq!(price_from_answer(Err(FeedError::MalformedData)), Err(FeedError::MalformedData));
}

#[test]
fn short_feed_account_is_refused() {
    let d = feed(3, 10);
    assert_eq!(get_price(&d[..199], &store_owner()), Err(FeedError::MalformedData));
    assert_eq!(get_price(&d[..20], &store_owner()), Err(FeedError::MalformedData));
}

#[test]
fn feed_cut_inside_its_transmission_is_malformed() {
    let d = feed(3, 10);
    assert_eq!(get_price(&d[..220], &store_owner()), Err(FeedError::MalformedData));
}

#[test]
fn feed_with_several_live_transmissions_is_refused() {
    let mut d = feed(3, 10);
    d[148] = 2;
    assert_eq!(get_price(&d, &store_owner()), Err(FeedError::FeedLengthInvalid));
}

#[test]
fn feed_with_a_large_answer() {
    let big: i128 = 0x0102_0304_0506_0708_090a_0b0c_0d0e_0f10;
    assert_eq!(get_price(&feed(1, big), &store_owner()), Ok(Some(big as u128)));
}
