use vstd::prelude::*;
use crate::state::{KeyBytes, nft_count};
use chainlink_solana::v2::{read_feed_v2, ReadError};

verus! {

/// The NFT count at the head of the NFT list data.
pub fn get_nft_count(nft_list_data: &[u8]) -> (count: u16)
    requires
        nft_list_data@.len() >= 2,
    ensures
        count == nft_count(nft_list_data@),
{
    let lo = nft_list_data[0] as u16;
    let hi = nft_list_data[1] as u16;
    lo + hi * 256
}

/// The smaller of two counts.
pub fn min(x: u16, y: u16) -> (m: u16)
    ensures
        m == if x < y { x } else { y },
{
    if x < y {
        return x;
    }
    y
}

/// The value of `t as u128` in Rust: a negative `t` wraps around to `t + 2^128`.
pub open spec fn timestamp_as_u128(t: i64) -> int {
    if t >= 0 {
        t as int
    } else {
        t + 0x1_0000_0000_0000_0000_0000_0000_0000_0000
    }
}

/// Computes `t as u128`.
pub fn timestamp_to_u128(t: i64) -> (v: u128)
    ensures
        v == timestamp_as_u128(t),
{
    if t >= 0 {
        t as u128
    } else {
        let below: i64 = -(t + 1);
        u128::MAX - below as u128
    }
}

/// Whether an attribute roll is defined: with a price, the price plus the
/// wrapped timestamp must fit in a u128; without one, the timestamp's
/// remainder by 10 must not be negative.
pub open spec fn roll_defined(price: Option<u128>, unix_timestamp: i64) -> bool {
    match price {
        Some(p) => p + timestamp_as_u128(unix_timestamp) <= u128::MAX,
        None => unix_timestamp >= 0 || (unix_timestamp as int) % 10 == 0,
    }
}

/// The roll that a price feed and the clock give an attribute: the last
/// decimal digit of price plus timestamp, or of the timestamp alone when the
/// feed has no price.
pub open spec fn roll(price: Option<u128>, unix_timestamp: i64) -> int {
    match price {
        Some(p) => (p + timestamp_as_u128(unix_timestamp)) % 10,
        None => (unix_timestamp as int) % 10,
    }
}

/// Rolls an attribute increment from a price feed's answer and the clock.
pub fn price_roll(price: Option<u128>, unix_timestamp: i64) -> (r: u8)
    requires
        roll_defined(price, unix_timestamp),
    ensures
        r == roll(price, unix_timestamp),
        r < 10,
{
    match price {
        Some(p) => {
            let rand = p + timestamp_to_u128(unix_timestamp);
            (rand % 10) as u8
        },
        None => {
            if unix_timestamp >= 0 {
                ((unix_timestamp as u64) % 10) as u8
            } else {
                0
            }
        },
    }
}

/// Why a Chainlink feed account cannot be read.
#[derive(Debug, Clone, Copy, PartialEq, Eq, Structural)]
pub enum FeedError {
    InvalidOwner,
    InvalidDiscriminator,
    InvalidAccount,
    DeserializeFailed,
    FeedLengthInvalid,
    MalformedData,
    TransmissionNotFound,
}

/// The leading bytes of a Chainlink feed (transmissions) account.
pub open spec fn feed_discriminator() -> Seq<u8> {
    seq![96u8, 179, 69, 66, 128, 129, 73, 117]
}

/// The key of the Chainlink data feeds store program, which owns the feeds.
pub open spec fn feed_store_program() -> Seq<u8> {
    seq![
        241u8, 75, 246, 90, 213, 107, 210, 186, 113, 94, 69, 116, 44, 35, 31, 39, 214, 54, 33, 207,
        91, 119, 143, 55, 193, 162, 72, 149, 29, 23, 86, 2,
    ]
}

/// The unsigned little-endian integer of `n` bytes at offset `at`.
pub open spec fn uint_le(b: Seq<u8>, at: int, n: nat) -> int
    decreases n,
{
    if n == 0 {
        0
    } else {
        b[at] + 256 * uint_le(b, at + 1, (n - 1) as nat)
    }
}

/// The two's-complement little-endian i128 at offset `at`.
pub open spec fn i128_le(b: Seq<u8>, at: int) -> int {
    let u = uint_le(b, at, 16);
    if u >= 0x8000_0000_0000_0000_0000_0000_0000_0000 {
        u - 0x1_0000_0000_0000_0000_0000_0000_0000_0000
    } else {
        u
    }
}

/// What the Chainlink client reads from a feed account of at least 200 bytes
/// with this data and this owner. The account starts with the discriminator;
/// its header follows, in which the latest round id is the u32 at offset 143
/// and the number of live transmissions the u32 at offset 148; the live
/// transmission starts at offset 200, and its answer is the i128 at offset 216.
pub open spec fn chainlink_feed_read(data: Seq<u8>, owner: Seq<u8>) -> Result<Option<i128>, FeedError> {
    if data.len() < 8 || data.take(8) != feed_discriminator() {
        Err(FeedError::InvalidDiscriminator)
    } else if owner != feed_store_program() {
        Err(FeedError::InvalidOwner)
    } else if data.len() < 160 {
        Err(FeedError::DeserializeFailed)
    } else if uint_le(data, 148, 4) != 1 {
        Err(FeedError::FeedLengthInvalid)
    } else if uint_le(data, 143, 4) == 0 {
        Err(FeedError::TransmissionNotFound)
    } else if data.len() < 248 {
        Err(FeedError::MalformedData)
    } else {
        Ok(Some(i128_le(data, 216) as i128))
    }
}

/// Reads a feed account with `chainlink_solana::v2::read_feed_v2` and takes the
/// answer of its latest round with `Feed::latest_round_data`. The contract
/// claims that the client checks, in this order, the discriminator, the
/// owner, that the header parses (its 152 bytes follow the discriminator),
/// that there is exactly one live transmission and that some round was
/// reported, then reads the live transmission of 48 bytes after the 192-byte
/// header. The client panics when all checks pass on an account shorter than
/// 200 bytes, so such accounts are left out.
#[verifier::external_body]
fn read_latest_answer(feed_data: &[u8], feed_owner: &KeyBytes) -> (read: Result<Option<i128>, FeedError>)
    requires
        feed_data@.len() >= 200,
    ensures
        read == chainlink_feed_read(feed_data@, feed_owner@),
{
    let mut bytes = feed_data.to_vec();
    let cell = std::cell::RefCell::new(&mut bytes[..]);
    match read_feed_v2(cell.borrow(), *feed_owner) {
        Ok(feed) => Ok(feed.latest_round_data().map(|round| round.answer)),
        Err(ReadError::InvalidOwner) => Err(FeedError::InvalidOwner),
        Err(ReadError::InvalidDiscriminator) => Err(FeedError::InvalidDiscriminator),
        Err(ReadError::InvalidAccount) => Err(FeedError::InvalidAccount),
        Err(ReadError::DeserializeFailed) => Err(FeedError::DeserializeFailed),
        Err(ReadError::FeedLengthInvalid) => Err(FeedError::FeedLengthInvalid),
        Err(ReadError::MalformedData) => Err(FeedError::MalformedData),
        Err(ReadError::TransmissionNotFound) => Err(FeedError::TransmissionNotFound),
    }
}

/// The price that a read of a feed gives: its latest answer when that is not
/// negative; no price when the feed has no round yet or a negative answer;
/// the read's error otherwise.
pub open spec fn price_of(read: Result<Option<i128>, FeedError>) -> Result<Option<u128>, FeedError> {
    match read {
        Ok(Some(answer)) => if answer >= 0 {
            Ok(Some(answer as u128))
        } else {
            Ok(None)
        },
        Ok(None) => Ok(None),
        Err(FeedError::TransmissionNotFound) => Ok(None),
        Err(e) => Err(e),
    }
}

/// Turns the read of a feed into its price.
pub fn price_from_answer(read: Result<Option<i128>, FeedError>) -> (price: Result<Option<u128>, FeedError>)
    ensures
        price == price_of(read),
{
    match read {
        Ok(Some(answer)) => {
            if answer >= 0 {
                Ok(Some(answer as u128))
            } else {
                Ok(None)
            }
        },
        Ok(None) => Ok(None),
        Err(FeedError::TransmissionNotFound) => Ok(None),
        Err(e) => Err(e),
    }
}

/// The current price that a Chainlink feed account reports. An account
/// shorter than 200 bytes cannot hold a transmission and is refused with
/// `MalformedData`.
pub fn get_price(feed_data: &[u8], feed_owner: &KeyBytes) -> (price: Result<Option<u128>, FeedError>)
    ensures
        feed_data@.len() < 200 ==> price == Err::<Option<u128>, FeedError>(FeedError::MalformedData),
        feed_data@.len() >= 200 ==> price == price_of(chainlink_feed_read(feed_data@, feed_owner@)),
{
    if feed_data.len() < 200 {
        return Err(FeedError::MalformedData);
    }
    let read = read_latest_answer(feed_data, feed_owner);
    price_from_answer(read)
}

} // verus!
