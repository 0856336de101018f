use vstd::prelude::*;
use crate::errors::ErrorCode;
use crate::state::{
    KeyBytes, MIN_PASSION, MIN_STAMINA, UpgradableMetadata, item_start, nft_count, nft_key,
    nft_passion, nft_reward, nft_stamina, write_key, write_u32_le,
};
use crate::utils::{get_nft_count, price_roll, roll, roll_defined};

verus! {

/// What `add_nft` needs of the NFT list: the count can be read and
/// incremented, and the item after the last one fits in the data.
pub open spec fn add_nft_requires(data: Seq<u8>) -> bool {
    &&& data.len() >= 2
    &&& nft_count(data) < 65535
    &&& item_start(nft_count(data)) + 38 <= data.len()
}

/// `data1` is `data0` with an item appended: the count goes up by one, the
/// item after the last one holds `key`, `passion`, `stamina` and a zero
/// pending reward, and every other byte stays as it was.
pub open spec fn nft_added(
    data0: Seq<u8>,
    data1: Seq<u8>,
    key: KeyBytes,
    passion: u8,
    stamina: u8,
) -> bool {
    let c = nft_count(data0);
    let s = item_start(c);
    &&& data1.len() == data0.len()
    &&& data1[0] == (c + 1) % 256
    &&& data1[1] == (c + 1) / 256
    &&& forall|t: int| 0 <= t < 32 ==> #[trigger] data1[s + t] == key[t]
    &&& data1[s + 32] == passion
    &&& data1[s + 33] == stamina
    &&& data1[s + 34] == 0 && data1[s + 35] == 0 && data1[s + 36] == 0 && data1[s + 37] == 0
    &&& forall|p: int|
        2 <= p < data0.len() && !(s <= p < s + 38) ==> #[trigger] data1[p] == data0[p]
}

/// Appends the NFT `nft_mint`, with the attributes of `ex_metadata` and no
/// pending reward, to the NFT list. Reading the list back gives one NFT
/// more, the new one last, and every earlier one as it was.
pub fn add_nft(nft_mint: &KeyBytes, nft_list_data: &mut [u8], ex_metadata: &UpgradableMetadata)
    requires
        add_nft_requires(old(nft_list_data)@),
    ensures
        nft_added(
            old(nft_list_data)@,
            final(nft_list_data)@,
            *nft_mint,
            ex_metadata.passion,
            ex_metadata.stamina,
        ),
        nft_count(final(nft_list_data)@) == nft_count(old(nft_list_data)@) + 1,
        nft_key(final(nft_list_data)@, nft_count(old(nft_list_data)@)) == nft_mint@,
        nft_passion(final(nft_list_data)@, nft_count(old(nft_list_data)@)) == ex_metadata.passion,
        nft_stamina(final(nft_list_data)@, nft_count(old(nft_list_data)@)) == ex_metadata.stamina,
        nft_reward(final(nft_list_data)@, nft_count(old(nft_list_data)@)) == 0,
        forall|i: int|
            0 <= i < nft_count(old(nft_list_data)@) ==> {
                &&& #[trigger] nft_key(final(nft_list_data)@, i) == nft_key(old(nft_list_data)@, i)
                &&& nft_passion(final(nft_list_data)@, i) == nft_passion(old(nft_list_data)@, i)
                &&& nft_stamina(final(nft_list_data)@, i) == nft_stamina(old(nft_list_data)@, i)
                &&& nft_reward(final(nft_list_data)@, i) == nft_reward(old(nft_list_data)@, i)
            },
{
    let ghost data0 = nft_list_data@;
    let count: u16 = get_nft_count(nft_list_data);
    let start: usize = 2 + 38 * count as usize;
    write_key(nft_list_data, start, nft_mint);
    nft_list_data[start + 32] = ex_metadata.passion;
    nft_list_data[start + 33] = ex_metadata.stamina;
    let pending_reward: u32 = 0;
    write_u32_le(nft_list_data, start + 34, pending_reward);

    let count: u16 = count + 1;
    nft_list_data[0] = (count % 256) as u8;
    nft_list_data[1] = (count / 256) as u8;

    let ghost data1 = nft_list_data@;
    assert(nft_key(data1, count - 1) =~= nft_mint@);
    assert forall|i: int| 0 <= i < count - 1 implies #[trigger] nft_key(data1, i) == nft_key(data0, i) by {
        assert(nft_key(data1, i) =~= nft_key(data0, i));
    }
}

/// Mints a horse: its metadata gets the bump, a passion of `MIN_PASSION` plus
/// the roll of the SOL feed and a stamina of `MIN_STAMINA` plus the roll of
/// the BTC feed, and the NFT is appended to the NFT list with them.
pub fn process(
    upgradable_metadata: &mut UpgradableMetadata,
    nft_list_data: &mut [u8],
    mint: &KeyBytes,
    metadata_bump: u8,
    sol_price: Option<u128>,
    btc_price: Option<u128>,
    unix_timestamp: i64,
) -> (r: Result<(), ErrorCode>)
    requires
        roll_defined(sol_price, unix_timestamp),
        roll_defined(btc_price, unix_timestamp),
        add_nft_requires(old(nft_list_data)@),
    ensures
        r is Ok,
        final(upgradable_metadata).bump == metadata_bump,
        final(upgradable_metadata).passion == MIN_PASSION + roll(sol_price, unix_timestamp),
        final(upgradable_metadata).stamina == MIN_STAMINA + roll(btc_price, unix_timestamp),
        final(upgradable_metadata).nft_id == old(upgradable_metadata).nft_id,
        nft_added(
            old(nft_list_data)@,
            final(nft_list_data)@,
            *mint,
            final(upgradable_metadata).passion,
            final(upgradable_metadata).stamina,
        ),
{
    upgradable_metadata.bump = metadata_bump;
    upgradable_metadata.passion = price_roll(sol_price, unix_timestamp) + MIN_PASSION;
    upgradable_metadata.stamina = price_roll(btc_price, unix_timestamp) + MIN_STAMINA;

    add_nft(mint, nft_list_data, upgradable_metadata);
    Ok(())
}

} // verus!
