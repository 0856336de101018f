use vstd::prelude::*;

verus! {

/// Bytes of an upgradable metadata record: bump, passion, stamina, nft id.
pub const UPGRADABLE_METASIZE: usize = 1 + 1 + 1 + 2;
/// Bytes of one item of the NFT list: mint key, passion, stamina, pending reward.
pub const NFT_ITEM_SIZE: usize = 32 + 1 + 1 + 4;
/// Bytes of the NFT list account: a two-byte count and room for 1000 items.
pub const NFT_LIST_SIZE: usize = 2 + NFT_ITEM_SIZE * 1000;
/// Bytes of the operator white list record.
pub const OPERATOR_LIST_SIZE: usize = 32 * 10 + 2;
/// How many operators the white list holds at most.
pub const MAX_ADMIN_CNT: usize = 10;
/// Bytes of the race result record.
pub const RACE_RESULT_SIZE: usize = 32 * 10 + 2;

pub const BTC_DECIMALS: usize = 9;
pub const SOL_DECIMALS: usize = 9;
/// What a freshly minted horse's passion starts from.
pub const MIN_PASSION: u8 = 20;
/// What a freshly minted horse's stamina starts from.
pub const MIN_STAMINA: u8 = 20;

/// A public key (an account address or a mint), as its 32 bytes.
pub type KeyBytes = [u8; 32];

/// The attributes of one minted horse.
#[derive(Debug, Clone, Copy)]
pub struct UpgradableMetadata {
    pub bump: u8,
    pub passion: u8,
    pub stamina: u8,
    pub nft_id: u16,
}

/// The operators allowed to start a race; slot 0 holds the admin.
/// Only the first `operator_cnt` slots are in use.
#[derive(Debug, Clone, Copy)]
pub struct OperatorWhiteList {
    pub operator_array: [KeyBytes; 10],
    pub operator_cnt: u8,
    pub bump: u8,
}

/// The winners of the last race, best first; the first `winner_cnt` are current.
#[derive(Debug, Clone, Copy)]
pub struct RaceResult {
    pub winners: [KeyBytes; 10],
    pub winner_cnt: u8,
    pub bump: u8,
}

/// The score of one NFT of the list in a race.
#[derive(Debug, Clone, Copy)]
pub struct Score {
    pub nft_id: u16,
    pub score: u16,
}

/// What a white list holds: all ten slots, the count of slots in use, the bump.
#[verifier::ext_equal]
pub struct WhiteListModel {
    pub operators: Seq<KeyBytes>,
    pub count: nat,
    pub bump: u8,
}

impl WhiteListModel {
    /// How many slots the operators in use fill: the count, but no more than
    /// there are slots.
    pub open spec fn in_use(self) -> int {
        if self.count <= self.operators.len() {
            self.count as int
        } else {
            self.operators.len() as int
        }
    }

    /// The operators in use, admin first.
    pub open spec fn active(self) -> Seq<KeyBytes> {
        self.operators.take(self.in_use())
    }

    /// The admin: the key in slot 0.
    pub open spec fn admin(self) -> KeyBytes {
        self.operators[0]
    }

    /// A list that some instruction can have left behind: ten slots and
    /// between one and ten of them in use.
    pub open spec fn wf(self) -> bool {
        &&& self.operators.len() == 10
        &&& 1 <= self.count <= 10
    }
}

impl View for OperatorWhiteList {
    type V = WhiteListModel;

    open spec fn view(&self) -> WhiteListModel {
        WhiteListModel {
            operators: self.operator_array@,
            count: self.operator_cnt as nat,
            bump: self.bump,
        }
    }
}

/// The slots after the operator at `i` leaves the `count` slots in use: the
/// ones after it move up by one; the last slot in use keeps its key, so that
/// it now appears twice, once outside the slots in use.
pub open spec fn shift_out(s: Seq<KeyBytes>, i: int, count: int) -> Seq<KeyBytes> {
    Seq::new(s.len(), |j: int| if i <= j < count - 1 { s[j + 1] } else { s[j] })
}

/// The first of the slots in use that holds `key`, if any.
pub fn first_slot_of(operator_list: &OperatorWhiteList, key: &KeyBytes) -> (found: Option<usize>)
    requires
        operator_list.operator_cnt <= 10,
    ensures
        match found {
            Some(i) => operator_list@.active().index_of_first(*key) == Some(i as int),
            None => operator_list@.active().index_of_first(*key) is None,
        },
        found matches Some(i) ==> i < operator_list.operator_cnt && operator_list.operator_array[i as int]
            == *key,
        found is None ==> !operator_list@.active().contains(*key),
{
    let cnt: usize = operator_list.operator_cnt as usize;
    let ghost active = operator_list@.active();
    let mut i: usize = 0;
    while i < cnt
        invariant
            cnt == operator_list.operator_cnt,
            cnt <= 10,
            active == operator_list@.active(),
            i <= cnt,
            forall|k: int| 0 <= k < i ==> active[k] != *key,
        decreases cnt - i,
    {
        if key_eq(&operator_list.operator_array[i], key) {
            assert(active[i as int] == *key);
            assert(active.contains(*key));
            proof {
                active.index_of_first_ensures(*key);
            }
            let ghost first = active.index_of_first(*key)->Some_0;
            assert(first == i) by {
                if first < i {
                    assert(active[first] != *key);
                }
                if first > i {
                    assert(active[i as int] != *key);
                }
            }
            return Some(i);
        }
        i = i + 1;
    }
    assert(!active.contains(*key));
    proof {
        active.index_of_first_ensures(*key);
    }
    None
}

/// Moves the operators after slot `i` up by one, up to the last slot in use.
pub fn shift_out_slot(operator_list: &mut OperatorWhiteList, i: usize)
    requires
        i < old(operator_list).operator_cnt <= 10,
    ensures
        final(operator_list).operator_array@ == shift_out(
            old(operator_list).operator_array@,
            i as int,
            old(operator_list).operator_cnt as int,
        ),
        final(operator_list).operator_cnt == old(operator_list).operator_cnt,
        final(operator_list).bump == old(operator_list).bump,
{
    let cnt: usize = operator_list.operator_cnt as usize;
    let ghost s = old(operator_list).operator_array@;
    let mut j: usize = i;
    while j < cnt - 1
        invariant
            i <= j <= cnt - 1,
            cnt == old(operator_list).operator_cnt,
            1 <= cnt <= 10,
            s == old(operator_list).operator_array@,
            operator_list.operator_cnt == old(operator_list).operator_cnt,
            operator_list.bump == old(operator_list).bump,
            operator_list.operator_array@ == Seq::new(
                10,
                |k: int| if i <= k < j { s[k + 1] } else { s[k] },
            ),
        decreases cnt - 1 - j,
    {
        let next = operator_list.operator_array[j + 1];
        operator_list.operator_array[j] = next;
        assert(operator_list.operator_array@ =~= Seq::new(
            10,
            |k: int| if i <= k < j + 1 { s[k + 1] } else { s[k] },
        ));
        j = j + 1;
    }
    assert(operator_list.operator_array@ =~= shift_out(s, i as int, cnt as int));
}

// ---------------------------------------------------------------------------
// Layout of the NFT list account: a little-endian u16 count at offset 0, then
// items of NFT_ITEM_SIZE bytes from offset 2. Item i holds the 32 bytes of the
// mint key, then passion, then stamina, then a little-endian u32 pending reward.
// ---------------------------------------------------------------------------

/// Offset of item `i` in the NFT list.
pub open spec fn item_start(i: int) -> int {
    2 + 38 * i
}

/// The little-endian u16 at offset `at`.
pub open spec fn u16_le(b: Seq<u8>, at: int) -> int {
    b[at] + 256 * b[at + 1]
}

/// The little-endian u32 at offset `at`.
pub open spec fn u32_le(b: Seq<u8>, at: int) -> int {
    b[at] + 256 * b[at + 1] + 65536 * b[at + 2] + 16777216 * b[at + 3]
}

/// The number of NFTs the list holds.
pub open spec fn nft_count(data: Seq<u8>) -> int {
    u16_le(data, 0)
}

/// The mint key of item `i`.
pub open spec fn nft_key(data: Seq<u8>, i: int) -> Seq<u8> {
    data.subrange(item_start(i), item_start(i) + 32)
}

/// The passion of item `i`.
pub open spec fn nft_passion(data: Seq<u8>, i: int) -> u8 {
    data[item_start(i) + 32]
}

/// The stamina of item `i`.
pub open spec fn nft_stamina(data: Seq<u8>, i: int) -> u8 {
    data[item_start(i) + 33]
}

/// The pending reward of item `i`.
pub open spec fn nft_reward(data: Seq<u8>, i: int) -> int {
    u32_le(data, item_start(i) + 34)
}

/// Whether two keys are the same.
pub fn key_eq(a: &KeyBytes, b: &KeyBytes) -> (same: bool)
    ensures
        same == (*a == *b),
{
    let mut i: usize = 0;
    while i < 32
        invariant
            i <= 32,
            forall|k: int| 0 <= k < i ==> a[k] == b[k],
        decreases 32 - i,
    {
        if a[i] != b[i] {
            return false;
        }
        i = i + 1;
    }
    assert(*a =~= *b);
    true
}

/// The 32 bytes at offset `at`, as a key.
pub fn read_key(data: &[u8], at: usize) -> (key: KeyBytes)
    requires
        at + 32 <= data@.len(),
    ensures
        key@ == data@.subrange(at as int, at + 32),
{
    let mut key: KeyBytes = [0u8; 32];
    let mut t: usize = 0;
    while t < 32
        invariant
            t <= 32,
            at + 32 <= data.len(),
            forall|k: int| 0 <= k < t ==> key[k] == data@[at + k],
        decreases 32 - t,
    {
        key[t] = data[at + t];
        t = t + 1;
    }
    assert(key@ =~= data@.subrange(at as int, at + 32));
    key
}

/// Writes the 32 bytes of `key` at offset `at`.
pub fn write_key(data: &mut [u8], at: usize, key: &KeyBytes)
    requires
        at + 32 <= old(data)@.len(),
    ensures
        final(data)@.len() == old(data)@.len(),
        forall|p: int|
            0 <= p < old(data)@.len() ==> #[trigger] final(data)@[p] == if at <= p < at + 32 {
                key[p - at]
            } else {
                old(data)@[p]
            },
{
    let mut t: usize = 0;
    while t < 32
        invariant
            t <= 32,
            at + 32 <= data.len(),
            data@.len() == old(data)@.len(),
            forall|p: int|
                0 <= p < old(data)@.len() ==> #[trigger] data@[p] == if at <= p < at + t {
                    key[p - at]
                } else {
                    old(data)@[p]
                },
        decreases 32 - t,
    {
        data[at + t] = key[t];
        t = t + 1;
    }
}

/// Writes `v` as a little-endian u32 at offset `at`.
pub fn write_u32_le(data: &mut [u8], at: usize, v: u32)
    requires
        at + 4 <= old(data)@.len(),
    ensures
        final(data)@.len() == old(data)@.len(),
        final(data)@[at as int] == v % 256,
        final(data)@[at + 1] == (v / 256) % 256,
        final(data)@[at + 2] == (v / 65536) % 256,
        final(data)@[at + 3] == v / 16777216,
        u32_le(final(data)@, at as int) == v,
        forall|p: int|
            0 <= p < old(data)@.len() && !(at <= p < at + 4) ==> #[trigger] final(data)@[p]
                == old(data)@[p],
{
    data[at] = (v % 256) as u8;
    data[at + 1] = ((v / 256) % 256) as u8;
    data[at + 2] = ((v / 65536) % 256) as u8;
    data[at + 3] = (v / 16777216) as u8;
}

} // verus!
