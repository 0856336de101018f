use vstd::prelude::*;
use crate::errors::ErrorCode;
use crate::state::{KeyBytes, UpgradableMetadata, item_start, nft_key, key_eq, read_key};
use crate::utils::{price_roll, roll, roll_defined};

verus! {

/// Writes the attributes of `ex_metadata` into item `nft_id` of the NFT list,
/// provided that the item holds the mint `nft_mint`; refused with
/// `NftMintMismatch`, and nothing written, when it holds another.
pub fn update_nft_list(
    nft_id: u16,
    nft_mint: &KeyBytes,
    nft_list_data: &mut [u8],
    ex_metadata: &UpgradableMetadata,
) -> (r: Result<(), ErrorCode>)
    requires
        item_start(nft_id as int) + 32 <= old(nft_list_data)@.len(),
        nft_key(old(nft_list_data)@, nft_id as int) == nft_mint@ ==> item_start(nft_id as int) + 34
            <= old(nft_list_data)@.len(),
    ensures
        nft_key(old(nft_list_data)@, nft_id as int) != nft_mint@ ==> {
            &&& r == Err::<(), ErrorCode>(ErrorCode::NftMintMismatch)
            &&& final(nft_list_data)@ == old(nft_list_data)@
        },
        nft_key(old(nft_list_data)@, nft_id as int) == nft_mint@ ==> {
            &&& r is Ok
            &&& final(nft_list_data)@ == old(nft_list_data)@.update(
                item_start(nft_id as int) + 32,
                ex_metadata.passion,
            ).update(item_start(nft_id as int) + 33, ex_metadata.stamina)
        },
{
    let start: usize = 2 + nft_id as usize * 38;
    let nft_pk_inlist: KeyBytes = read_key(nft_list_data, start);
    if !key_eq(nft_mint, &nft_pk_inlist) {
        assert(nft_pk_inlist@ != nft_mint@) by {
            if nft_pk_inlist@ == nft_mint@ {
                assert(nft_pk_inlist =~= *nft_mint);
            }
        }
        return Err(ErrorCode::NftMintMismatch);
    }
    assert(nft_pk_inlist@ == nft_mint@);
    nft_list_data[start + 32] = ex_metadata.passion;
    nft_list_data[start + 33] = ex_metadata.stamina;
    Ok(())
}

/// Whether an upgrade's arithmetic stays in range: both rolls are defined
/// and each attribute plus its roll fits in a byte.
pub open spec fn upgrade_defined(
    metadata: UpgradableMetadata,
    sol_price: Option<u128>,
    btc_price: Option<u128>,
    unix_timestamp: i64,
) -> bool {
    &&& roll_defined(sol_price, unix_timestamp)
    &&& roll_defined(btc_price, unix_timestamp)
    &&& metadata.passion + roll(sol_price, unix_timestamp) <= 255
    &&& metadata.stamina + roll(btc_price, unix_timestamp) <= 255
}

/// Upgrades a horse: its passion grows by the roll of the SOL feed and its
/// stamina by the roll of the BTC feed, and item `nft_id` of the NFT list is
/// updated to match, provided that it holds the mint `mint`. When it holds
/// another, the upgrade is refused with `NftMintMismatch` and nothing changes.
/// (The upgrade fee is paid by the caller once this succeeds.)
pub fn process(
    upgradable_metadata: &mut UpgradableMetadata,
    nft_list_data: &mut [u8],
    nft_id: u16,
    mint: &KeyBytes,
    sol_price: Option<u128>,
    btc_price: Option<u128>,
    unix_timestamp: i64,
) -> (r: Result<(), ErrorCode>)
    requires
        upgrade_defined(*old(upgradable_metadata), sol_price, btc_price, unix_timestamp),
        item_start(nft_id as int) + 32 <= old(nft_list_data)@.len(),
        nft_key(old(nft_list_data)@, nft_id as int) == mint@ ==> item_start(nft_id as int) + 34
            <= old(nft_list_data)@.len(),
    ensures
        nft_key(old(nft_list_data)@, nft_id as int) != mint@ ==> {
            &&& r == Err::<(), ErrorCode>(ErrorCode::NftMintMismatch)
            &&& *final(upgradable_metadata) == *old(upgradable_metadata)
            &&& final(nft_list_data)@ == old(nft_list_data)@
        },
        nft_key(old(nft_list_data)@, nft_id as int) == mint@ ==> {
            &&& r is Ok
            &&& final(upgradable_metadata).passion == old(upgradable_metadata).passion + roll(
                sol_price,
                unix_timestamp,
            )
            &&& final(upgradable_metadata).stamina == old(upgradable_metadata).stamina + roll(
                btc_price,
                unix_timestamp,
            )
            &&& final(upgradable_metadata).bump == old(upgradable_metadata).bump
            &&& final(upgradable_metadata).nft_id == old(upgradable_metadata).nft_id
            &&& final(nft_list_data)@ == old(nft_list_data)@.update(
                item_start(nft_id as int) + 32,
                final(upgradable_metadata).passion,
            ).update(item_start(nft_id as int) + 33, final(upgradable_metadata).stamina)
        },
{
    let passion_roll: u8 = price_roll(sol_price, unix_timestamp);
    let stamina_roll: u8 = price_roll(btc_price, unix_timestamp);
    let upgraded = UpgradableMetadata {
        bump: upgradable_metadata.bump,
        passion: passion_roll + upgradable_metadata.passion,
        stamina: stamina_roll + upgradable_metadata.stamina,
        nft_id: upgradable_metadata.nft_id,
    };
    let r = update_nft_list(nft_id, mint, nft_list_data, &upgraded);
    if r.is_ok() {
        *upgradable_metadata = upgraded;
    }
    r
}

} // verus!
