//! Properties that span the instructions of the program.
use vstd::prelude::*;
use crate::errors::ErrorCode;
use crate::state::{
    KeyBytes, WhiteListModel, item_start, nft_count, nft_key, nft_passion, nft_reward, nft_stamina,
};
use crate::instructions::initialize::initialize_outcome;
use crate::instructions::add_operator::add_operator_outcome;
use crate::instructions::del_operator::del_operator_outcome;
use crate::instructions::transfer_role::transfer_role_outcome;
use crate::utils::{roll, roll_defined};
use crate::instructions::start_race::{
    in_winner_reward, lemma_race_ranking, lemma_race_ranking_shift, prize_winner_requires,
    race_outcome, race_ranking, race_scores, race_winner_count, scores_readable,
};
use crate::state::RaceResult;
use crate::instructions::mint_nft::{add_nft_requires, nft_added};
use crate::instructions::start_race::{prize_of, race_random, lemma_race_first_place};
use crate::state::{NFT_ITEM_SIZE, NFT_LIST_SIZE, u16_le, u32_le};
use crate::utils::{FeedError, price_of};

verus! {

/// Every instruction on the white list leaves a valid list behind:
/// initialization makes one, and adding, removing and handing over the admin
/// role keep it valid (ten slots, one to ten of them in use).
pub proof fn law_white_list_stays_valid(
    w: WhiteListModel,
    admin: KeyBytes,
    key: KeyBytes,
    bump: u8,
)
    requires
        w.operators.len() == 10,
    ensures
        initialize_outcome(w, admin, bump).wf(),
        w.wf() && add_operator_outcome(w, admin, key) is Ok ==> add_operator_outcome(
            w,
            admin,
            key,
        )->Ok_0.wf(),
        w.wf() && del_operator_outcome(w, admin, key) is Ok ==> del_operator_outcome(
            w,
            admin,
            key,
        )->Ok_0.wf(),
        w.wf() && transfer_role_outcome(w, admin, key) is Ok ==> transfer_role_outcome(
            w,
            admin,
            key,
        )->Ok_0.wf(),
{
    let a = w.active();
    if w.wf() && del_operator_outcome(w, admin, key) is Ok {
        a.index_of_first_ensures(key);
    }
}

/// Adding an operator keeps the admin in slot 0 and the operators already in
/// use where they were; the new one comes last.
pub proof fn law_add_operator_appends(w: WhiteListModel, admin: KeyBytes, operator: KeyBytes)
    requires
        w.wf(),
        add_operator_outcome(w, admin, operator) is Ok,
    ensures
        add_operator_outcome(w, admin, operator)->Ok_0.admin() == w.admin(),
        add_operator_outcome(w, admin, operator)->Ok_0.active() == w.active().push(operator),
{
    let w2 = add_operator_outcome(w, admin, operator)->Ok_0;
    assert(w2.active() =~= w.active().push(operator));
}

/// Adding and removing keep the operators in use free of duplicates.
pub proof fn law_operators_stay_distinct(w: WhiteListModel, admin: KeyBytes, operator: KeyBytes)
    requires
        w.wf(),
        w.active().no_duplicates(),
    ensures
        add_operator_outcome(w, admin, operator) is Ok ==> add_operator_outcome(
            w,
            admin,
            operator,
        )->Ok_0.active().no_duplicates(),
        del_operator_outcome(w, admin, operator) is Ok ==> del_operator_outcome(
            w,
            admin,
            operator,
        )->Ok_0.active().no_duplicates(),
{
    let a = w.active();
    if add_operator_outcome(w, admin, operator) is Ok {
        let b = add_operator_outcome(w, admin, operator)->Ok_0.active();
        assert(b =~= a.push(operator));
        assert forall|i: int, j: int| 0 <= i < b.len() && 0 <= j < b.len() && i != j implies b[i]
            != b[j] by {
            if i < a.len() && j < a.len() {
            } else if i == a.len() {
                assert(a[j] == b[j]);
            } else {
                assert(a[i] == b[i]);
            }
        }
    }
    if del_operator_outcome(w, admin, operator) is Ok {
        a.index_of_first_ensures(operator);
        let k = a.index_of_first(operator)->Some_0;
        let b = del_operator_outcome(w, admin, operator)->Ok_0.active();
        assert forall|i: int, j: int| 0 <= i < b.len() && 0 <= j < b.len() && i != j implies b[i]
            != b[j] by {
            let ii = if i < k { i } else { i + 1 };
            let jj = if j < k { j } else { j + 1 };
            assert(b[i] == a[ii]);
            assert(b[j] == a[jj]);
        }
    }
}

/// Removing an operator just added undoes the addition: the same operators
/// are in use again, in the same order, with the same admin.
pub proof fn law_del_undoes_add(w: WhiteListModel, admin: KeyBytes, operator: KeyBytes)
    requires
        w.wf(),
        add_operator_outcome(w, admin, operator) is Ok,
    ensures
        del_operator_outcome(add_operator_outcome(w, admin, operator)->Ok_0, admin, operator) is Ok,
        del_operator_outcome(
            add_operator_outcome(w, admin, operator)->Ok_0,
            admin,
            operator,
        )->Ok_0.active() == w.active(),
        del_operator_outcome(
            add_operator_outcome(w, admin, operator)->Ok_0,
            admin,
            operator,
        )->Ok_0.admin() == w.admin(),
{
    let w2 = add_operator_outcome(w, admin, operator)->Ok_0;
    let a2 = w2.active();
    assert(a2 =~= w.active().push(operator));
    assert(a2[w.count as int] == operator);
    a2.index_of_first_ensures(operator);
    let k = a2.index_of_first(operator)->Some_0;
    assert(k == w.count) by {
        if k < w.count {
            assert(w.active()[k] == operator);
            assert(w.active().contains(operator));
        }
    }
    let w3 = del_operator_outcome(w2, admin, operator)->Ok_0;
    assert(w3.operators =~= w2.operators);
    assert(w3.active() =~= w.active());
}

/// Handing over the admin role (with at least two operators in use) puts the
/// new admin in slot 0 and keeps the former one in use, in the last slot,
/// with as many operators in use as before.
pub proof fn law_transfer_role_hands_over(w: WhiteListModel, admin: KeyBytes, new_admin: KeyBytes)
    requires
        w.wf(),
        w.count >= 2,
        transfer_role_outcome(w, admin, new_admin) is Ok,
    ensures
        transfer_role_outcome(w, admin, new_admin)->Ok_0.admin() == new_admin,
        transfer_role_outcome(w, admin, new_admin)->Ok_0.active().last() == admin,
        transfer_role_outcome(w, admin, new_admin)->Ok_0.count == w.count,
{
}

/// Only operators in use can be made admin.
pub proof fn law_transfer_role_needs_operator(
    w: WhiteListModel,
    admin: KeyBytes,
    new_admin: KeyBytes,
)
    requires
        w.wf(),
    ensures
        !w.active().contains(new_admin) <==> transfer_role_outcome(w, admin, new_admin) == Err::<
            WhiteListModel,
            ErrorCode,
        >(ErrorCode::TransferRoleToNormalUser),
{
    w.active().index_of_first_ensures(new_admin);
}

/// A race pays its prizes to the best: every NFT that places among the winners
/// scores at least as high as every NFT that does not, no NFT places twice,
/// and each keeps the score of its own item.
pub proof fn law_winners_outscore_the_rest(data: Seq<u8>, random_value: u8)
    requires
        data.len() >= 2,
    ensures
        forall|k: int, m: int|
            #![trigger race_ranking(data, random_value)[k], race_ranking(data, random_value)[m]]
            0 <= k < race_winner_count(data) <= m < nft_count(data) ==> race_ranking(
                data,
                random_value,
            )[k].score >= race_ranking(data, random_value)[m].score,
        forall|k: int, m: int|
            #![trigger race_ranking(data, random_value)[k], race_ranking(data, random_value)[m]]
            0 <= k < m < nft_count(data) ==> race_ranking(data, random_value)[k].nft_id
                != race_ranking(data, random_value)[m].nft_id,
        forall|k: int|
            0 <= k < nft_count(data) ==> #[trigger] race_ranking(data, random_value)[k] == race_scores(
                data,
                random_value,
            )[race_ranking(data, random_value)[k].nft_id as int],
{
    lemma_race_ranking(data, random_value);
}

/// Adding the same value to every score changes nothing in a race: with
/// random values `r1` and `r2` (each score fitting in a byte under both), the
/// ranking orders the NFTs alike, a race can run under one exactly when it can
/// under the other, and it leaves the NFT list and the race result alike.
pub proof fn law_race_ignores_common_shift(data: Seq<u8>, r1: u8, r2: u8)
    requires
        scores_readable(data, r1),
        scores_readable(data, r2),
    ensures
        forall|k: int|
            0 <= k < nft_count(data) ==> (#[trigger] race_ranking(data, r1)[k]).nft_id == race_ranking(
                data,
                r2,
            )[k].nft_id,
        prize_winner_requires(data, r1) == prize_winner_requires(data, r2),
        forall|data1: Seq<u8>, race0: RaceResult, race1: RaceResult|
            #[trigger] race_outcome(data, data1, race0, race1, r1) == race_outcome(
                data,
                data1,
                race0,
                race1,
                r2,
            ),
{
    lemma_race_ranking_shift(data, r1, r2);
    assert forall|p: int| #[trigger] in_winner_reward(data, r1, p) == in_winner_reward(data, r2, p) by {
        if in_winner_reward(data, r1, p) {
            let k = choose|k: int|
                0 <= k < race_winner_count(data) && item_start(
                    (#[trigger] race_ranking(data, r1)[k]).nft_id as int,
                ) + 34 <= p < item_start(race_ranking(data, r1)[k].nft_id as int) + 38;
            assert(race_ranking(data, r2)[k].nft_id == race_ranking(data, r1)[k].nft_id);
        }
        if in_winner_reward(data, r2, p) {
            let k = choose|k: int|
                0 <= k < race_winner_count(data) && item_start(
                    (#[trigger] race_ranking(data, r2)[k]).nft_id as int,
                ) + 34 <= p < item_start(race_ranking(data, r2)[k].nft_id as int) + 38;
            assert(race_ranking(data, r1)[k].nft_id == race_ranking(data, r2)[k].nft_id);
        }
    }
    assert(prize_winner_requires(data, r1) == prize_winner_requires(data, r2)) by {
        if prize_winner_requires(data, r1) {
            assert forall|k: int| 0 <= k < race_winner_count(data) implies item_start(
                (#[trigger] race_ranking(data, r2)[k]).nft_id as int,
            ) + 38 <= data.len() by {
                let _ = race_ranking(data, r1)[k];
            }
        }
        if prize_winner_requires(data, r2) {
            assert forall|k: int| 0 <= k < race_winner_count(data) implies item_start(
                (#[trigger] race_ranking(data, r1)[k]).nft_id as int,
            ) + 38 <= data.len() by {
                let _ = race_ranking(data, r2)[k];
            }
        }
    }
    assert forall|data1: Seq<u8>, race0: RaceResult, race1: RaceResult| #[trigger] race_outcome(
        data,
        data1,
        race0,
        race1,
        r1,
    ) == race_outcome(data, data1, race0, race1, r2) by {
        if race_outcome(data, data1, race0, race1, r1) {
            assert forall|k: int| 0 <= k < race_winner_count(data) implies ({
                let s = item_start((#[trigger] race_ranking(data, r2)[k]).nft_id as int);
                &&& data1[s + 34] == crate::instructions::start_race::prize_of(k)
                &&& data1[s + 35] == 0
                &&& data1[s + 36] == 0
                &&& data1[s + 37] == 0
                &&& nft_reward(data1, race_ranking(data, r2)[k].nft_id as int)
                    == crate::instructions::start_race::prize_of(k)
                &&& race1.winners[k]@ == nft_key(data, race_ranking(data, r2)[k].nft_id as int)
            }) by {
                let _ = race_ranking(data, r1)[k];
            }
        }
        if race_outcome(data, data1, race0, race1, r2) {
            assert forall|k: int| 0 <= k < race_winner_count(data) implies ({
                let s = item_start((#[trigger] race_ranking(data, r1)[k]).nft_id as int);
                &&& data1[s + 34] == crate::instructions::start_race::prize_of(k)
                &&& data1[s + 35] == 0
                &&& data1[s + 36] == 0
                &&& data1[s + 37] == 0
                &&& nft_reward(data1, race_ranking(data, r1)[k].nft_id as int)
                    == crate::instructions::start_race::prize_of(k)
                &&& race1.winners[k]@ == nft_key(data, race_ranking(data, r1)[k].nft_id as int)
            }) by {
                let _ = race_ranking(data, r2)[k];
            }
        }
    }
}

/// Each roll is a decimal digit, so a freshly minted horse has a passion and a
/// stamina between 20 and 29, and an upgrade adds at most 9 to each.
pub proof fn law_roll_is_a_digit(price: Option<u128>, unix_timestamp: i64)
    requires
        roll_defined(price, unix_timestamp),
    ensures
        0 <= roll(price, unix_timestamp) < 10,
{
}

/// Writing the attributes of item `i` into the NFT list (as an upgrade does)
/// is read back as written and leaves the count and every other field of the
/// list as it was.
pub proof fn law_update_reads_back(data: Seq<u8>, i: int, passion: u8, stamina: u8)
    requires
        0 <= i,
        item_start(i) + 34 <= data.len(),
    ensures
        ({
            let d = data.update(item_start(i) + 32, passion).update(item_start(i) + 33, stamina);
            &&& d.len() == data.len()
            &&& nft_passion(d, i) == passion
            &&& nft_stamina(d, i) == stamina
            &&& nft_key(d, i) == nft_key(data, i)
            &&& nft_count(d) == nft_count(data)
            &&& forall|j: int|
                0 <= j && j != i && item_start(j) + 38 <= data.len() ==> {
                    &&& #[trigger] nft_key(d, j) == nft_key(data, j)
                    &&& nft_passion(d, j) == nft_passion(data, j)
                    &&& nft_stamina(d, j) == nft_stamina(data, j)
                    &&& nft_reward(d, j) == nft_reward(data, j)
                }
        }),
{
    let d = data.update(item_start(i) + 32, passion).update(item_start(i) + 33, stamina);
    assert(nft_key(d, i) =~= nft_key(data, i));
    assert forall|j: int| 0 <= j && j != i && item_start(j) + 38 <= data.len() implies #[trigger] nft_key(
        d,
        j,
    ) == nft_key(data, j) by {
        assert(nft_key(d, j) =~= nft_key(data, j));
    }
}

/// The NFT list can read the passion and stamina of every item it counts.
pub open spec fn items_readable(data: Seq<u8>) -> bool {
    &&& data.len() >= 2
    &&& nft_count(data) > 0 ==> item_start(nft_count(data) - 1) + 34 <= data.len()
}

/// No mint appears twice among the items the NFT list counts.
pub open spec fn keys_distinct(data: Seq<u8>) -> bool {
    forall|j: int, k: int|
        0 <= j < k < nft_count(data) ==> #[trigger] nft_key(data, j) != #[trigger] nft_key(data, k)
}

/// The attributes recorded for the horses (`attrs` maps a mint key to its
/// passion and stamina) agree with their items in the NFT list.
pub open spec fn attributes_agree(data: Seq<u8>, attrs: Map<Seq<u8>, (u8, u8)>) -> bool {
    forall|k: int|
        0 <= k < nft_count(data) && attrs.contains_key(#[trigger] nft_key(data, k)) ==> attrs[nft_key(
            data,
            k,
        )] == (nft_passion(data, k), nft_stamina(data, k))
}

/// A successful upgrade keeps the horses' attributes in step with the NFT
/// list, as long as no mint appears twice in it: the upgraded horse's new
/// passion and stamina are those of its item, and every other item keeps its
/// key and attributes. (A refused upgrade changes neither.)
pub proof fn law_upgrade_keeps_attributes_in_step(
    data: Seq<u8>,
    attrs: Map<Seq<u8>, (u8, u8)>,
    nft_id: int,
    mint: KeyBytes,
    passion: u8,
    stamina: u8,
)
    requires
        items_readable(data),
        keys_distinct(data),
        attributes_agree(data, attrs),
        0 <= nft_id < nft_count(data),
        nft_key(data, nft_id) == mint@,
    ensures
        ({
            let d = data.update(item_start(nft_id) + 32, passion).update(
                item_start(nft_id) + 33,
                stamina,
            );
            &&& items_readable(d)
            &&& keys_distinct(d)
            &&& attributes_agree(d, attrs.insert(mint@, (passion, stamina)))
        }),
{
    let d = data.update(item_start(nft_id) + 32, passion).update(item_start(nft_id) + 33, stamina);
    let attrs1 = attrs.insert(mint@, (passion, stamina));
    assert(nft_count(d) == nft_count(data));
    assert forall|k: int| 0 <= k < nft_count(data) implies #[trigger] nft_key(d, k) == nft_key(data, k)
        && (k != nft_id ==> nft_passion(d, k) == nft_passion(data, k) && nft_stamina(d, k)
        == nft_stamina(data, k)) by {
        assert(nft_key(d, k) =~= nft_key(data, k));
    }
    assert forall|k: int|
        0 <= k < nft_count(d) && attrs1.contains_key(#[trigger] nft_key(d, k)) implies attrs1[nft_key(
            d,
            k,
        )] == (nft_passion(d, k), nft_stamina(d, k)) by {
        if k != nft_id {
            if k < nft_id {
                assert(nft_key(data, k) != nft_key(data, nft_id));
            } else {
                assert(nft_key(data, nft_id) != nft_key(data, k));
            }
        }
    }
    assert forall|j: int, k: int| 0 <= j < k < nft_count(d) implies #[trigger] nft_key(d, j)
        != #[trigger] nft_key(d, k) by {
        assert(nft_key(data, j) != nft_key(data, k));
    }
}

/// Minting a horse whose mint is not yet in the NFT list keeps the horses'
/// attributes in step with the list and no mint twice in it: the new item
/// carries the new horse's passion and stamina.
pub proof fn law_mint_keeps_attributes_in_step(
    data0: Seq<u8>,
    data1: Seq<u8>,
    attrs: Map<Seq<u8>, (u8, u8)>,
    mint: KeyBytes,
    passion: u8,
    stamina: u8,
)
    requires
        add_nft_requires(data0),
        keys_distinct(data0),
        attributes_agree(data0, attrs),
        forall|k: int| 0 <= k < nft_count(data0) ==> #[trigger] nft_key(data0, k) != mint@,
        nft_added(data0, data1, mint, passion, stamina),
    ensures
        items_readable(data1),
        keys_distinct(data1),
        attributes_agree(data1, attrs.insert(mint@, (passion, stamina))),
{
    let c = nft_count(data0);
    let attrs1 = attrs.insert(mint@, (passion, stamina));
    assert(nft_count(data1) == c + 1);
    assert forall|k: int| 0 <= k < c implies #[trigger] nft_key(data1, k) == nft_key(data0, k)
        && nft_passion(data1, k) == nft_passion(data0, k) && nft_stamina(data1, k) == nft_stamina(
        data0,
        k,
    ) by {
        assert(nft_key(data1, k) =~= nft_key(data0, k));
    }
    assert(nft_key(data1, c) =~= mint@) by {
        assert forall|t: int| 0 <= t < 32 implies nft_key(data1, c)[t] == mint@[t] by {
            assert(data1[item_start(c) + t] == mint[t]);
        }
    }
    assert forall|k: int|
        0 <= k < nft_count(data1) && attrs1.contains_key(#[trigger] nft_key(data1, k)) implies attrs1[nft_key(
            data1,
            k,
        )] == (nft_passion(data1, k), nft_stamina(data1, k)) by {
        if k < c {
            assert(nft_key(data0, k) != mint@);
        }
    }
    assert forall|j: int, k: int| 0 <= j < k < nft_count(data1) implies #[trigger] nft_key(data1, j)
        != #[trigger] nft_key(data1, k) by {
        if k < c {
            assert(nft_key(data0, j) != nft_key(data0, k));
        } else {
            assert(nft_key(data0, j) != mint@);
        }
    }
}

/// A roll is the last decimal digit of the price plus the timestamp (the
/// timestamp alone when there is no price); a negative timestamp counts as
/// itself plus 2^128, the way Rust casts it to u128.
pub proof fn law_roll_is_last_digit_of_sum(p: u128, t: i64)
    ensures
        t >= 0 ==> roll(Some(p), t) == (p + t) % 10,
        t >= 0 ==> roll(None, t) == t % 10,
        t < 0 ==> roll(Some(p), t) == (p + t + 0x1_0000_0000_0000_0000_0000_0000_0000_0000) % 10,
{
}

/// The random value of a race is the sum of the two prices (a missing one
/// counting as 0) and the timestamp, modulo 20.
pub proof fn law_race_random_is_sum_mod_20(sol: u128, btc: u128, t: i64)
    requires
        t >= 0,
        sol + btc + t <= u128::MAX,
    ensures
        race_random(Some(sol), Some(btc), t) == (sol + btc + t) % 20,
        race_random(Some(sol), None, t) == (sol + t) % 20,
        race_random(None, Some(btc), t) == (btc + t) % 20,
        race_random(None, None, t) == t % 20,
{
}

/// The prizes of the ten places: 70, 20, 3, then 1 for each of the other seven.
pub proof fn law_prize_table()
    ensures
        forall|k: int|
            0 <= k < 10 ==> #[trigger] prize_of(k) == seq![70u8, 20, 3, 1, 1, 1, 1, 1, 1, 1][k],
{
    assert forall|k: int| 0 <= k < 10 implies #[trigger] prize_of(k) == seq![
        70u8,
        20,
        3,
        1,
        1,
        1,
        1,
        1,
        1,
        1,
    ][k] by {
        let t = seq![70u8, 20, 3, 1, 1, 1, 1, 1, 1, 1];
        assert(t[0] == 70 && t[1] == 20 && t[2] == 3 && t[3] == 1 && t[4] == 1 && t[5] == 1);
        assert(t[6] == 1 && t[7] == 1 && t[8] == 1 && t[9] == 1);
    }
}

/// At most ten NFTs win: all of them when the list holds ten or fewer.
pub proof fn law_race_winner_count(data: Seq<u8>)
    ensures
        nft_count(data) <= 10 ==> race_winner_count(data) == nft_count(data),
        nft_count(data) >= 10 ==> race_winner_count(data) == 10,
{
}

/// Every place of a race's ranking holds an NFT of the list, with the score
/// of its own item: its passion plus its stamina plus the random value.
pub proof fn law_race_scores_are_attribute_sums(data: Seq<u8>, random_value: u8)
    requires
        scores_readable(data, random_value),
    ensures
        race_ranking(data, random_value).len() == nft_count(data),
        forall|k: int|
            0 <= k < nft_count(data) ==> {
                let id = (#[trigger] race_ranking(data, random_value)[k]).nft_id as int;
                &&& 0 <= id < nft_count(data)
                &&& race_ranking(data, random_value)[k].score == nft_passion(data, id) + nft_stamina(
                    data,
                    id,
                ) + random_value
            },
{
    lemma_race_ranking(data, random_value);
    let r = race_ranking(data, random_value);
    assert forall|k: int| 0 <= k < nft_count(data) implies {
        let id = (#[trigger] r[k]).nft_id as int;
        &&& 0 <= id < nft_count(data)
        &&& r[k].score == nft_passion(data, id) + nft_stamina(data, id) + random_value
    } by {
        let id = r[k].nft_id as int;
        assert(r[k] == race_scores(data, random_value)[id]);
        assert(nft_passion(data, id) + nft_stamina(data, id) + random_value <= 255);
    }
}

/// Adding an operator to a valid list succeeds exactly when fewer than ten
/// are in use, the caller holds slot 0 and the operator is not in use yet;
/// each refusal comes with its own error, in that order of checks.
pub proof fn law_add_operator_succeeds_exactly(w: WhiteListModel, admin: KeyBytes, operator: KeyBytes)
    requires
        w.wf(),
    ensures
        add_operator_outcome(w, admin, operator) is Ok <==> (w.count < 10 && admin == w.active()[0]
            && !w.active().contains(operator)),
        w.count == 10 ==> add_operator_outcome(w, admin, operator) == Err::<WhiteListModel, ErrorCode>(
            ErrorCode::OperatorOverflow,
        ),
        w.count < 10 && admin != w.active()[0] ==> add_operator_outcome(w, admin, operator) == Err::<
            WhiteListModel,
            ErrorCode,
        >(ErrorCode::UnknownAdmin),
        w.count < 10 && admin == w.active()[0] && w.active().contains(operator)
            ==> add_operator_outcome(w, admin, operator) == Err::<WhiteListModel, ErrorCode>(
            ErrorCode::OperatorDuplicated,
        ),
        add_operator_outcome(w, admin, operator) is Ok ==> add_operator_outcome(
            w,
            admin,
            operator,
        )->Ok_0.active() == w.active().push(operator),
{
    if add_operator_outcome(w, admin, operator) is Ok {
        law_add_operator_appends(w, admin, operator);
    }
}

/// Removing an operator from a valid list succeeds exactly when at least two
/// are in use, the caller holds slot 0 and the operator is in use; the
/// operators in use afterwards are those before with (the first occurrence
/// of) that operator taken out, in the same order.
pub proof fn law_del_operator_removes(w: WhiteListModel, admin: KeyBytes, operator: KeyBytes)
    requires
        w.wf(),
    ensures
        del_operator_outcome(w, admin, operator) is Ok <==> (w.count >= 2 && admin == w.active()[0]
            && w.active().contains(operator)),
        w.count == 1 ==> del_operator_outcome(w, admin, operator) == Err::<WhiteListModel, ErrorCode>(
            ErrorCode::OperatorNotEnough,
        ),
        w.count >= 2 && admin != w.active()[0] ==> del_operator_outcome(w, admin, operator) == Err::<
            WhiteListModel,
            ErrorCode,
        >(ErrorCode::UnknownAdmin),
        w.count >= 2 && admin == w.active()[0] && !w.active().contains(operator)
            ==> del_operator_outcome(w, admin, operator) == Err::<WhiteListModel, ErrorCode>(
            ErrorCode::OperatorNotFound,
        ),
        forall|i: int|
            0 <= i < w.count && #[trigger] w.active()[i] == operator && (forall|j: int|
                0 <= j < i ==> w.active()[j] != operator) && del_operator_outcome(w, admin, operator) is Ok
                ==> del_operator_outcome(w, admin, operator)->Ok_0.active() == w.active().remove(i),
        del_operator_outcome(w, admin, operator) is Ok ==> del_operator_outcome(
            w,
            admin,
            operator,
        )->Ok_0.count == w.count - 1,
{
    let a = w.active();
    a.index_of_first_ensures(operator);
    assert forall|i: int|
        0 <= i < w.count && #[trigger] a[i] == operator && (forall|j: int|
            0 <= j < i ==> a[j] != operator) && del_operator_outcome(w, admin, operator) is Ok
        implies del_operator_outcome(w, admin, operator)->Ok_0.active() == a.remove(i) by {
        let k = a.index_of_first(operator)->Some_0;
        assert(k == i) by {
            if k < i {
                assert(a[k] != operator);
            }
            if k > i {
                assert(a[i] != operator);
            }
        }
        let w2 = del_operator_outcome(w, admin, operator)->Ok_0;
        assert(w2.active() =~= a.remove(i));
    }
}

/// Handing the admin role from the admin (the key in slot 0) to another
/// operator in use, on a list without duplicates: the new admin moves to
/// slot 0, the former admin to the last slot in use, and every other
/// operator keeps its order in between. The operators in use are the same as
/// before, each once, and as many.
pub proof fn law_transfer_role_rotates(w: WhiteListModel, admin: KeyBytes, new_admin: KeyBytes)
    requires
        w.wf(),
        w.active().no_duplicates(),
        admin == w.active()[0],
        new_admin != admin,
        w.active().contains(new_admin),
    ensures
        transfer_role_outcome(w, admin, new_admin) is Ok,
        transfer_role_outcome(w, admin, new_admin)->Ok_0.count == w.count,
        forall|i: int|
            0 <= i < w.count && #[trigger] w.active()[i] == new_admin ==> transfer_role_outcome(
                w,
                admin,
                new_admin,
            )->Ok_0.active() == seq![new_admin] + w.active().subrange(1, i) + w.active().subrange(
                i + 1,
                w.count as int,
            ) + seq![admin],
        forall|x: KeyBytes|
            #[trigger] w.active().contains(x) <==> transfer_role_outcome(
                w,
                admin,
                new_admin,
            )->Ok_0.active().contains(x),
        transfer_role_outcome(w, admin, new_admin)->Ok_0.active().no_duplicates(),
{
    let a = w.active();
    let n = w.count as int;
    a.index_of_first_ensures(new_admin);
    let i = a.index_of_first(new_admin)->Some_0;
    assert(i != 0);
    let w2 = transfer_role_outcome(w, admin, new_admin)->Ok_0;
    let b = w2.active();
    let expect = seq![new_admin] + a.subrange(1, i) + a.subrange(i + 1, n) + seq![admin];
    assert(b =~= expect);
    assert forall|i2: int| 0 <= i2 < n && #[trigger] a[i2] == new_admin implies b == seq![new_admin]
        + a.subrange(1, i2) + a.subrange(i2 + 1, n) + seq![admin] by {
        if i2 != i {
            assert(a[i2] != a[i]);
        }
    }
    // Where each position of b comes from in a.
    assert forall|k: int| 0 <= k < n implies #[trigger] b[k] == a[if k == 0 {
        i
    } else if k < i {
        k
    } else if k < n - 1 {
        k + 1
    } else {
        0
    }] by {}
    assert forall|x: KeyBytes| #[trigger] a.contains(x) <==> b.contains(x) by {
        if a.contains(x) {
            let m = choose|m: int| 0 <= m < n && a[m] == x;
            let k = if m == i {
                0
            } else if m == 0 {
                n - 1
            } else if m < i {
                m
            } else {
                m - 1
            };
            assert(b[k] == x);
        }
        if b.contains(x) {
            let k = choose|k: int| 0 <= k < n && b[k] == x;
            let _ = b[k];
        }
    }
    assert forall|p: int, q: int| 0 <= p < b.len() && 0 <= q < b.len() && p != q implies b[p] != b[q] by {
        let _ = b[p];
        let _ = b[q];
    }
}

/// The first place of a race, the one paid 70, goes to the earliest NFT of
/// the list among those with the highest passion plus stamina.
pub proof fn law_first_place_goes_to_first_best(data: Seq<u8>, random_value: u8)
    requires
        scores_readable(data, random_value),
        nft_count(data) > 0,
    ensures
        ({
            let m = race_ranking(data, random_value)[0].nft_id as int;
            &&& 0 <= m < nft_count(data)
            &&& forall|k: int|
                0 <= k < nft_count(data) ==> #[trigger] nft_passion(data, k) + nft_stamina(data, k)
                    <= nft_passion(data, m) + nft_stamina(data, m)
            &&& forall|k: int|
                0 <= k < m ==> #[trigger] nft_passion(data, k) + nft_stamina(data, k) < nft_passion(
                    data,
                    m,
                ) + nft_stamina(data, m)
        }),
{
    lemma_race_first_place(data, random_value);
}

/// A feed's price is its latest answer when that is not negative; a negative
/// answer, or no round yet, gives no price; any other failure to read the
/// feed stays an error.
pub proof fn law_price_of_answer(answer: i128, e: FeedError)
    ensures
        answer >= 0 ==> price_of(Ok(Some(answer))) == Ok::<Option<u128>, FeedError>(
            Some(answer as u128),
        ),
        answer < 0 ==> price_of(Ok(Some(answer))) == Ok::<Option<u128>, FeedError>(None),
        price_of(Ok(None)) == Ok::<Option<u128>, FeedError>(None),
        price_of(Err(FeedError::TransmissionNotFound)) == Ok::<Option<u128>, FeedError>(None),
        e != FeedError::TransmissionNotFound ==> price_of(Err(e)) == Err::<Option<u128>, FeedError>(e),
{
}

/// The NFT list's layout: items of `NFT_ITEM_SIZE` (38) bytes after the
/// two-byte count, room for 1000 of them in `NFT_LIST_SIZE` bytes, counts
/// and rewards in little-endian order.
pub proof fn law_nft_list_layout(data: Seq<u8>, i: int)
    ensures
        NFT_ITEM_SIZE == 38,
        item_start(i) == 2 + NFT_ITEM_SIZE * i,
        NFT_LIST_SIZE == item_start(1000),
        data.len() >= 2 ==> nft_count(data) == data[0] + 256 * data[1],
        nft_count(data) == u16_le(data, 0),
        nft_reward(data, i) == u32_le(data, item_start(i) + 34),
{
}

} // verus!
