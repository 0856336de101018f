use vstd::prelude::*;
use crate::errors::ErrorCode;
use crate::state::{
    KeyBytes, OperatorWhiteList, RaceResult, Score, item_start, nft_count, nft_key, nft_passion,
    nft_reward, nft_stamina, key_eq, read_key, write_u32_le,
};
use crate::utils::{get_nft_count, min, timestamp_as_u128, timestamp_to_u128};

verus! {

// ---------------------------------------------------------------------------
// The ranking of a race
// ---------------------------------------------------------------------------

/// One pass of the exchange sort: position `i` is compared with each of the
/// positions `j .. n` in turn, and the two swap whenever the score at `i` is
/// the smaller one.
pub open spec fn exchange_pass(s: Seq<Score>, n: int, i: int, j: int) -> Seq<Score>
    decreases n - j,
{
    if j < n {
        let t = if s[i].score < s[j].score {
            s.update(i, s[j]).update(j, s[i])
        } else {
            s
        };
        exchange_pass(t, n, i, j + 1)
    } else {
        s
    }
}

/// The exchange sort from position `i` on: one pass for each position.
pub open spec fn exchange_sort(s: Seq<Score>, n: int, i: int) -> Seq<Score>
    decreases n - i,
{
    if i < n {
        exchange_sort(exchange_pass(s, n, i, i + 1), n, i + 1)
    } else {
        s
    }
}

/// The scores of a race, in the order of the NFT list: item `i` scores its
/// passion plus its stamina plus the race's random value.
pub open spec fn race_scores(data: Seq<u8>, random_value: u8) -> Seq<Score> {
    Seq::new(
        nft_count(data) as nat,
        |i: int|
            Score {
                nft_id: i as u16,
                score: (nft_passion(data, i) + nft_stamina(data, i) + random_value) as u16,
            },
    )
}

/// The race's ranking: the scores after the exchange sort, best first.
pub open spec fn race_ranking(data: Seq<u8>, random_value: u8) -> Seq<Score> {
    exchange_sort(race_scores(data, random_value), nft_count(data), 0)
}

/// How many NFTs of the list win a prize: all of them, but at most ten.
pub open spec fn race_winner_count(data: Seq<u8>) -> int {
    if nft_count(data) < 10 {
        nft_count(data)
    } else {
        10
    }
}

/// The prize of each of the ten places.
pub open spec fn prize_of(rank: int) -> u8 {
    if rank == 0 {
        70
    } else if rank == 1 {
        20
    } else if rank == 2 {
        3
    } else {
        1
    }
}

/// Each score of `s` before position `i` is at least as high as every score after it.
pub open spec fn dominates_from(s: Seq<Score>, i: int) -> bool {
    forall|a: int, b: int|
        #![trigger s[a], s[b]]
        0 <= a < i && a < b < s.len() ==> s[a].score >= s[b].score
}

/// `s` lists each entry of `orig` exactly once: each entry of `s` is the entry
/// of `orig` at its own NFT id, and no id occurs twice.
pub open spec fn is_ranking_of(s: Seq<Score>, orig: Seq<Score>) -> bool {
    &&& s.len() == orig.len()
    &&& forall|k: int|
        0 <= k < s.len() ==> 0 <= (#[trigger] s[k]).nft_id < orig.len() && s[k] == orig[s[k].nft_id as int]
    &&& forall|a: int, b: int|
        #![trigger s[a], s[b]]
        0 <= a < b < s.len() ==> s[a].nft_id != s[b].nft_id
}

/// What a pass keeps and what it achieves.
proof fn lemma_exchange_pass(s: Seq<Score>, n: int, i: int, j: int, orig: Seq<Score>)
    requires
        s.len() == n,
        0 <= i < j <= n,
        forall|k: int| i < k < j ==> s[i].score >= (#[trigger] s[k]).score,
        dominates_from(s, i),
        is_ranking_of(s, orig),
    ensures
        exchange_pass(s, n, i, j).len() == n,
        forall|k: int|
            i < k < n ==> exchange_pass(s, n, i, j)[i].score >= (#[trigger] exchange_pass(
                s,
                n,
                i,
                j,
            )[k]).score,
        dominates_from(exchange_pass(s, n, i, j), i),
        is_ranking_of(exchange_pass(s, n, i, j), orig),
    decreases n - j,
{
    if j < n {
        let t = if s[i].score < s[j].score {
            s.update(i, s[j]).update(j, s[i])
        } else {
            s
        };
        assert(t.len() == n);
        assert forall|k: int| i < k < j + 1 implies t[i].score >= (#[trigger] t[k]).score by {
            if k < j {
                assert(s[i].score >= s[k].score);
            }
        }
        assert forall|a: int, b: int| 0 <= a < i && a < b < t.len() implies t[a].score
            >= t[b].score by {
            assert(s[a].score >= s[b].score);
            assert(s[a].score >= s[i].score);
            assert(s[a].score >= s[j].score);
        }
        assert forall|k: int| 0 <= k < t.len() implies 0 <= (#[trigger] t[k]).nft_id < orig.len()
            && t[k] == orig[t[k].nft_id as int] by {
            assert(s[k] == orig[s[k].nft_id as int]);
            assert(s[i] == orig[s[i].nft_id as int]);
            assert(s[j] == orig[s[j].nft_id as int]);
        }
        assert forall|a: int, b: int| 0 <= a < b < t.len() implies t[a].nft_id
            != t[b].nft_id by {
            let _ = s[a];
            let _ = s[b];
            let _ = s[i];
            let _ = s[j];
        }
        lemma_exchange_pass(t, n, i, j + 1, orig);
    }
}

/// The exchange sort orders the scores from the highest down and keeps each entry once.
proof fn lemma_exchange_sort(s: Seq<Score>, n: int, i: int, orig: Seq<Score>)
    requires
        s.len() == n,
        0 <= i <= n,
        dominates_from(s, i),
        is_ranking_of(s, orig),
    ensures
        exchange_sort(s, n, i).len() == n,
        dominates_from(exchange_sort(s, n, i), n),
        is_ranking_of(exchange_sort(s, n, i), orig),
    decreases n - i,
{
    if i < n {
        lemma_exchange_pass(s, n, i, i + 1, orig);
        let t = exchange_pass(s, n, i, i + 1);
        assert forall|a: int, b: int| 0 <= a < i + 1 && a < b < t.len() implies t[a].score
            >= t[b].score by {
            if a == i {
                assert(t[i].score >= t[b].score);
            }
        }
        lemma_exchange_sort(t, n, i + 1, orig);
    }
}

/// The scores of a race list each NFT once, under its own id.
proof fn lemma_race_scores(data: Seq<u8>, random_value: u8)
    requires
        0 <= nft_count(data),
    ensures
        is_ranking_of(race_scores(data, random_value), race_scores(data, random_value)),
        forall|k: int|
            0 <= k < nft_count(data) ==> (#[trigger] race_scores(data, random_value)[k]).nft_id
                == k,
{
    let s = race_scores(data, random_value);
    assert forall|k: int| 0 <= k < nft_count(data) implies (#[trigger] s[k]).nft_id == k by {
        assert(nft_count(data) <= 65535);
    }
}

/// The ranking of a race: the scores from the highest down, each NFT of the
/// list exactly once, each with the score of its own item.
pub proof fn lemma_race_ranking(data: Seq<u8>, random_value: u8)
    requires
        data.len() >= 2,
    ensures
        race_ranking(data, random_value).len() == nft_count(data),
        forall|a: int, b: int|
            #![trigger race_ranking(data, random_value)[a], race_ranking(data, random_value)[b]]
            0 <= a < b < nft_count(data) ==> race_ranking(data, random_value)[a].score
                >= race_ranking(data, random_value)[b].score,
        is_ranking_of(race_ranking(data, random_value), race_scores(data, random_value)),
{
    lemma_race_scores(data, random_value);
    lemma_exchange_sort(race_scores(data, random_value), nft_count(data), 0, race_scores(data, random_value));
}

/// `s2` is `s1` with the same amount `delta` added to every score.
pub open spec fn shifted(s1: Seq<Score>, s2: Seq<Score>, delta: int) -> bool {
    &&& s1.len() == s2.len()
    &&& forall|k: int|
        0 <= k < s1.len() ==> (#[trigger] s1[k]).nft_id == s2[k].nft_id && s2[k].score == s1[k].score
            + delta
}

/// A pass does the same swaps on scores that differ by a common amount.
proof fn lemma_exchange_pass_shift(s1: Seq<Score>, s2: Seq<Score>, n: int, i: int, j: int, delta: int)
    requires
        shifted(s1, s2, delta),
        s1.len() == n,
        0 <= i < j <= n,
    ensures
        shifted(exchange_pass(s1, n, i, j), exchange_pass(s2, n, i, j), delta),
    decreases n - j,
{
    if j < n {
        let t1 = if s1[i].score < s1[j].score {
            s1.update(i, s1[j]).update(j, s1[i])
        } else {
            s1
        };
        let t2 = if s2[i].score < s2[j].score {
            s2.update(i, s2[j]).update(j, s2[i])
        } else {
            s2
        };
        assert(s1[i].score < s1[j].score <==> s2[i].score < s2[j].score) by {
            let _ = s1[i];
            let _ = s1[j];
        }
        assert(shifted(t1, t2, delta)) by {
            assert forall|k: int| 0 <= k < t1.len() implies (#[trigger] t1[k]).nft_id == t2[k].nft_id
                && t2[k].score == t1[k].score + delta by {
                let _ = s1[k];
                let _ = s1[i];
                let _ = s1[j];
            }
        }
        lemma_exchange_pass_shift(t1, t2, n, i, j + 1, delta);
    }
}

/// The exchange sort ranks scores that differ by a common amount in the same order.
proof fn lemma_exchange_sort_shift(s1: Seq<Score>, s2: Seq<Score>, n: int, i: int, delta: int)
    requires
        shifted(s1, s2, delta),
        s1.len() == n,
        0 <= i <= n,
    ensures
        shifted(exchange_sort(s1, n, i), exchange_sort(s2, n, i), delta),
    decreases n - i,
{
    if i < n {
        lemma_exchange_pass_shift(s1, s2, n, i, i + 1, delta);
        lemma_exchange_pass_len(s1, n, i, i + 1);
        lemma_exchange_sort_shift(exchange_pass(s1, n, i, i + 1), exchange_pass(s2, n, i, i + 1), n, i + 1, delta);
    }
}

/// A pass keeps the length.
proof fn lemma_exchange_pass_len(s: Seq<Score>, n: int, i: int, j: int)
    requires
        s.len() == n,
        0 <= i < j <= n,
    ensures
        exchange_pass(s, n, i, j).len() == n,
    decreases n - j,
{
    if j < n {
        let t = if s[i].score < s[j].score {
            s.update(i, s[j]).update(j, s[i])
        } else {
            s
        };
        lemma_exchange_pass_len(t, n, i, j + 1);
    }
}

/// Adding the same random value to every score does not change the ranking:
/// two races on the same list rank the NFTs in the same order.
pub proof fn lemma_race_ranking_shift(data: Seq<u8>, r1: u8, r2: u8)
    requires
        scores_readable(data, r1),
        scores_readable(data, r2),
    ensures
        race_ranking(data, r1).len() == race_ranking(data, r2).len(),
        forall|k: int|
            0 <= k < nft_count(data) ==> (#[trigger] race_ranking(data, r1)[k]).nft_id == race_ranking(
                data,
                r2,
            )[k].nft_id,
{
    let s1 = race_scores(data, r1);
    let s2 = race_scores(data, r2);
    assert(shifted(s1, s2, r2 - r1)) by {
        assert forall|k: int| 0 <= k < s1.len() implies (#[trigger] s1[k]).nft_id == s2[k].nft_id
            && s2[k].score == s1[k].score + (r2 - r1) by {
            assert(nft_passion(data, k) + nft_stamina(data, k) + r1 <= 255);
            assert(nft_passion(data, k) + nft_stamina(data, k) + r2 <= 255);
        }
    }
    lemma_exchange_sort_shift(s1, s2, nft_count(data), 0, r2 - r1);
    lemma_race_ranking(data, r1);
    lemma_race_ranking(data, r2);
}

/// A pass from a position after the first leaves the first place alone.
proof fn lemma_exchange_pass_keeps_head(s: Seq<Score>, n: int, i: int, j: int)
    requires
        s.len() == n,
        1 <= i < j <= n,
    ensures
        exchange_pass(s, n, i, j).len() == n,
        exchange_pass(s, n, i, j)[0] == s[0],
    decreases n - j,
{
    if j < n {
        let t = if s[i].score < s[j].score {
            s.update(i, s[j]).update(j, s[i])
        } else {
            s
        };
        lemma_exchange_pass_keeps_head(t, n, i, j + 1);
    }
}

/// The passes after the first leave the first place alone.
proof fn lemma_exchange_sort_keeps_head(s: Seq<Score>, n: int, i: int)
    requires
        s.len() == n,
        1 <= i <= n,
        n >= 1,
    ensures
        exchange_sort(s, n, i)[0] == s[0],
    decreases n - i,
{
    if i < n {
        lemma_exchange_pass_keeps_head(s, n, i, i + 1);
        lemma_exchange_sort_keeps_head(exchange_pass(s, n, i, i + 1), n, i + 1);
    }
}

/// The first pass brings to the first place the earliest entry with the
/// highest score: a later entry takes the place only with a strictly higher one.
proof fn lemma_first_pass(s: Seq<Score>, orig: Seq<Score>, n: int, j: int, m: int) -> (m2: int)
    requires
        s.len() == n,
        orig.len() == n,
        1 <= j <= n,
        0 <= m < j,
        s[0] == orig[m],
        forall|k: int| j <= k < n ==> #[trigger] s[k] == orig[k],
        forall|k: int| 0 <= k < j ==> (#[trigger] orig[k]).score <= orig[m].score,
        forall|k: int| 0 <= k < m ==> (#[trigger] orig[k]).score < orig[m].score,
    ensures
        0 <= m2 < n,
        exchange_pass(s, n, 0, j)[0] == orig[m2],
        forall|k: int| 0 <= k < n ==> (#[trigger] orig[k]).score <= orig[m2].score,
        forall|k: int| 0 <= k < m2 ==> (#[trigger] orig[k]).score < orig[m2].score,
    decreases n - j,
{
    if j < n {
        assert(s[j] == orig[j]);
        if s[0].score < s[j].score {
            let t = s.update(0, s[j]).update(j, s[0]);
            assert forall|k: int| j + 1 <= k < n implies #[trigger] t[k] == orig[k] by {
                assert(s[k] == orig[k]);
            }
            assert forall|k: int| 0 <= k < j + 1 implies (#[trigger] orig[k]).score <= orig[j].score by {
                if k < j {
                    assert(orig[k].score <= orig[m].score);
                }
            }
            assert forall|k: int| 0 <= k < j implies (#[trigger] orig[k]).score < orig[j].score by {
                assert(orig[k].score <= orig[m].score);
            }
            lemma_first_pass(t, orig, n, j + 1, j)
        } else {
            assert forall|k: int| j + 1 <= k < n implies #[trigger] s[k] == orig[k] by {}
            assert forall|k: int| 0 <= k < j + 1 implies (#[trigger] orig[k]).score <= orig[m].score by {
                if k < j {
                    assert(orig[k].score <= orig[m].score);
                }
            }
            lemma_first_pass(s, orig, n, j + 1, m)
        }
    } else {
        m
    }
}

/// The first place of a race goes to the earliest NFT of the list among those
/// with the highest passion plus stamina.
pub proof fn lemma_race_first_place(data: Seq<u8>, random_value: u8)
    requires
        scores_readable(data, random_value),
        nft_count(data) > 0,
    ensures
        ({
            let m = race_ranking(data, random_value)[0].nft_id as int;
            &&& 0 <= m < nft_count(data)
            &&& forall|k: int|
                0 <= k < nft_count(data) ==> #[trigger] nft_passion(data, k) + nft_stamina(data, k)
                    <= nft_passion(data, m) + nft_stamina(data, m)
            &&& forall|k: int|
                0 <= k < m ==> #[trigger] nft_passion(data, k) + nft_stamina(data, k) < nft_passion(
                    data,
                    m,
                ) + nft_stamina(data, m)
        }),
{
    let n = nft_count(data);
    let sc = race_scores(data, random_value);
    lemma_race_scores(data, random_value);
    assert forall|k: int| 0 <= k < n implies (#[trigger] sc[k]).score == nft_passion(data, k)
        + nft_stamina(data, k) + random_value by {
        assert(nft_passion(data, k) + nft_stamina(data, k) + random_value <= 255);
    }
    let m2 = lemma_first_pass(sc, sc, n, 1, 0);
    lemma_exchange_pass_len(sc, n, 0, 1);
    lemma_exchange_sort_keeps_head(exchange_pass(sc, n, 0, 1), n, 1);
    assert(race_ranking(data, random_value)[0] == sc[m2]);
    assert(sc[m2].nft_id == m2);
    assert forall|k: int| 0 <= k < n implies #[trigger] nft_passion(data, k) + nft_stamina(data, k)
        <= nft_passion(data, m2) + nft_stamina(data, m2) by {
        assert(sc[k].score <= sc[m2].score);
    }
    assert forall|k: int| 0 <= k < m2 implies #[trigger] nft_passion(data, k) + nft_stamina(data, k)
        < nft_passion(data, m2) + nft_stamina(data, m2) by {
        assert(sc[k].score < sc[m2].score);
    }
}

/// The NFT list's count and every item's passion and stamina can be read,
/// and each score fits in a byte.
pub open spec fn scores_readable(data: Seq<u8>, random_value: u8) -> bool {
    &&& data.len() >= 2
    &&& nft_count(data) > 0 ==> item_start(nft_count(data) - 1) + 34 <= data.len()
    &&& forall|i: int|
        0 <= i < nft_count(data) ==> nft_passion(data, i) + nft_stamina(data, i) + random_value
            <= 255
}

/// What `prize_winner` needs of the NFT list: the count and every item's
/// passion and stamina can be read, each score fits in a byte, and the
/// reward of each winner can be written.
pub open spec fn prize_winner_requires(data: Seq<u8>, random_value: u8) -> bool {
    &&& scores_readable(data, random_value)
    &&& forall|k: int|
        0 <= k < race_winner_count(data) ==> item_start(
            (#[trigger] race_ranking(data, random_value)[k]).nft_id as int,
        ) + 38 <= data.len()
}

/// Whether byte `p` lies in the pending reward of one of the winners.
pub open spec fn in_winner_reward(data: Seq<u8>, random_value: u8, p: int) -> bool {
    exists|k: int|
        0 <= k < race_winner_count(data) && item_start(
            (#[trigger] race_ranking(data, random_value)[k]).nft_id as int,
        ) + 34 <= p < item_start(race_ranking(data, random_value)[k].nft_id as int) + 38
}

/// What a race with the given random value does to the NFT list and to the
/// race result: the list keeps its length; the pending reward of the NFT in
/// place `k` (of the first, at most ten, places) becomes the prize of place
/// `k`; every other byte of the list stays as it was; the winners are the
/// mint keys of the NFTs in those places, best first; the other winner slots,
/// and the bump, stay as they were.
pub open spec fn race_outcome(
    data0: Seq<u8>,
    data1: Seq<u8>,
    race0: RaceResult,
    race1: RaceResult,
    random_value: u8,
) -> bool {
    &&& data1.len() == data0.len()
    &&& forall|k: int|
        #![trigger race_ranking(data0, random_value)[k]]
        0 <= k < race_winner_count(data0) ==> {
            let s = item_start(race_ranking(data0, random_value)[k].nft_id as int);
            &&& data1[s + 34] == prize_of(k)
            &&& data1[s + 35] == 0
            &&& data1[s + 36] == 0
            &&& data1[s + 37] == 0
            &&& nft_reward(data1, race_ranking(data0, random_value)[k].nft_id as int) == prize_of(k)
            &&& race1.winners[k]@ == nft_key(data0, race_ranking(data0, random_value)[k].nft_id as int)
        }
    &&& forall|p: int|
        0 <= p < data0.len() && !in_winner_reward(data0, random_value, p) ==> #[trigger] data1[p]
            == data0[p]
    &&& forall|k: int| race_winner_count(data0) <= k < 10 ==> #[trigger] race1.winners[k] == race0.winners[k]
    &&& race1.winner_cnt == race_winner_count(data0)
    &&& race1.bump == race0.bump
}

/// Scores the NFTs of the list and ranks them with the exchange sort.
fn rank_nfts(random_value: u8, nft_list_data: &[u8]) -> (ranking: Vec<Score>)
    requires
        scores_readable(nft_list_data@, random_value),
    ensures
        ranking@ == race_ranking(nft_list_data@, random_value),
{
    let ghost data0 = nft_list_data@;
    let count: u16 = get_nft_count(nft_list_data);
    let cnt: usize = count as usize;
    let ghost scores = race_scores(data0, random_value);
    let mut score_arr: Vec<Score> = Vec::new();
    let mut i: usize = 0;
    while i < cnt
        invariant
            nft_list_data@ == data0,
            cnt == nft_count(data0),
            i <= cnt,
            scores_readable(data0, random_value),
            scores == race_scores(data0, random_value),
            score_arr@ == scores.take(i as int),
        decreases cnt - i,
    {
        let start: usize = 2 + 38 * i;
        let t_passion: u8 = nft_list_data[start + 32];
        let t_stamina: u8 = nft_list_data[start + 33];
        assert(t_passion == nft_passion(data0, i as int) && t_stamina == nft_stamina(data0, i as int));
        assert(t_passion + t_stamina + random_value <= 255);
        score_arr.push(Score { score: (t_passion + t_stamina + random_value) as u16, nft_id: i as u16 });
        assert(score_arr@ =~= scores.take(i + 1));
        i = i + 1;
    }
    assert(score_arr@ =~= scores);

    let mut i: usize = 0;
    while i < cnt
        invariant
            i <= cnt,
            score_arr@.len() == cnt,
            exchange_sort(score_arr@, cnt as int, i as int) == exchange_sort(scores, cnt as int, 0),
        decreases cnt - i,
    {
        let mut j: usize = i + 1;
        while j < cnt
            invariant
                i < cnt,
                i + 1 <= j <= cnt,
                score_arr@.len() == cnt,
                exchange_sort(exchange_pass(score_arr@, cnt as int, i as int, j as int), cnt as int, i + 1)
                    == exchange_sort(scores, cnt as int, 0),
            decreases cnt - j,
        {
            if score_arr[i].score < score_arr[j].score {
                let temp = score_arr[i];
                let other = score_arr[j];
                score_arr[i] = other;
                score_arr[j] = temp;
            }
            j = j + 1;
        }
        i = i + 1;
    }
    score_arr
}

/// Whether `prize_winner` can run on this NFT list with this random value
/// (see `prize_winner_requires`); where it cannot, a race does not complete.
pub fn prize_winner_ready(random_value: u8, nft_list_data: &[u8]) -> (ready: bool)
    ensures
        ready == prize_winner_requires(nft_list_data@, random_value),
{
    let ghost data0 = nft_list_data@;
    if nft_list_data.len() < 2 {
        return false;
    }
    let count: u16 = get_nft_count(nft_list_data);
    let cnt: usize = count as usize;
    if cnt > 0 && 2 + 38 * (cnt - 1) + 34 > nft_list_data.len() {
        return false;
    }
    let mut i: usize = 0;
    while i < cnt
        invariant
            data0 == nft_list_data@,
            data0.len() >= 2,
            cnt == nft_count(data0),
            cnt > 0 ==> item_start(cnt - 1) + 34 <= data0.len(),
            i <= cnt,
            forall|k: int|
                0 <= k < i ==> nft_passion(data0, k) + nft_stamina(data0, k) + random_value <= 255,
        decreases cnt - i,
    {
        let start: usize = 2 + 38 * i;
        let t_passion: u8 = nft_list_data[start + 32];
        let t_stamina: u8 = nft_list_data[start + 33];
        if t_passion as u16 + t_stamina as u16 + random_value as u16 > 255 {
            assert(!scores_readable(data0, random_value)) by {
                assert(t_passion == nft_passion(data0, i as int));
                assert(t_stamina == nft_stamina(data0, i as int));
            }
            return false;
        }
        i = i + 1;
    }
    assert(scores_readable(data0, random_value));
    let ranking = rank_nfts(random_value, nft_list_data);
    proof {
        lemma_race_ranking(data0, random_value);
    }
    let winner_count: usize = min(count, 10) as usize;
    let mut k: usize = 0;
    while k < winner_count
        invariant
            data0 == nft_list_data@,
            winner_count == race_winner_count(data0),
            ranking@ == race_ranking(data0, random_value),
            ranking@.len() == cnt,
            cnt == nft_count(data0),
            k <= winner_count,
            forall|j: int|
                0 <= j < k ==> item_start(
                    (#[trigger] race_ranking(data0, random_value)[j]).nft_id as int,
                ) + 38 <= data0.len(),
        decreases winner_count - k,
    {
        let idx: usize = ranking[k].nft_id as usize;
        if 2 + 38 * idx + 38 > nft_list_data.len() {
            assert(!prize_winner_requires(data0, random_value)) by {
                let _ = race_ranking(data0, random_value)[k as int];
            }
            return false;
        }
        k = k + 1;
    }
    true
}

/// Runs a race on the NFT list with the given random value: scores each NFT,
/// ranks them with the exchange sort, writes the prize of each of the first
/// (at most ten) places into the pending reward of its NFT, and records the
/// mint keys of those NFTs, best first, as the race's winners.
pub fn prize_winner(random_value: u8, nft_list_data: &mut [u8], race_result: &mut RaceResult)
    requires
        prize_winner_requires(old(nft_list_data)@, random_value),
    ensures
        race_outcome(
            old(nft_list_data)@,
            final(nft_list_data)@,
            *old(race_result),
            *final(race_result),
            random_value,
        ),
{
    let ghost data0 = nft_list_data@;
    let count: u16 = get_nft_count(nft_list_data);
    let cnt: usize = count as usize;
    proof {
        lemma_race_ranking(data0, random_value);
    }
    let score_arr = rank_nfts(random_value, nft_list_data);
    let ghost ranking = race_ranking(data0, random_value);

    let prize: [u8; 10] = [70, 20, 3, 1, 1, 1, 1, 1, 1, 1];
    let winner_count: usize = min(count, 10) as usize;
    let ghost race0 = *race_result;
    let mut i: usize = 0;
    while i < winner_count
        invariant
            i <= winner_count,
            winner_count == race_winner_count(data0),
            cnt == nft_count(data0),
            prize_winner_requires(data0, random_value),
            score_arr@ == ranking,
            ranking == race_ranking(data0, random_value),
            ranking.len() == cnt,
            is_ranking_of(ranking, race_scores(data0, random_value)),
            prize@ == seq![70u8, 20, 3, 1, 1, 1, 1, 1, 1, 1],
            nft_list_data@.len() == data0.len(),
            forall|k: int|
                #![trigger ranking[k]]
                0 <= k < i ==> {
                    let s = item_start(ranking[k].nft_id as int);
                    &&& nft_list_data@[s + 34] == prize_of(k)
                    &&& nft_list_data@[s + 35] == 0
                    &&& nft_list_data@[s + 36] == 0
                    &&& nft_list_data@[s + 37] == 0
                    &&& race_result.winners[k]@ == nft_key(data0, ranking[k].nft_id as int)
                },
            forall|p: int|
                0 <= p < data0.len() && (forall|k: int|
                    0 <= k < i ==> !(item_start(#[trigger] ranking[k].nft_id as int) + 34 <= p
                        < item_start(ranking[k].nft_id as int) + 38)) ==> #[trigger] nft_list_data@[p]
                    == data0[p],
            forall|k: int| i <= k < 10 ==> #[trigger] race_result.winners[k] == race0.winners[k],
            race_result.bump == race0.bump,
        decreases winner_count - i,
    {
        let p: u32 = prize[i] as u32;
        let idx: usize = score_arr[i].nft_id as usize;
        let start: usize = 2 + 38 * idx;
        let ghost before = nft_list_data@;
        write_u32_le(nft_list_data, start + 34, p);
        let nft_key_bytes: KeyBytes = read_key(nft_list_data, start);
        assert(nft_key_bytes@ =~= nft_key(data0, idx as int)) by {
            assert forall|q: int| start <= q < start + 32 implies #[trigger] nft_list_data@[q] == data0[q] by {
                assert forall|k: int| 0 <= k < i implies !(item_start(
                    #[trigger] ranking[k].nft_id as int,
                ) + 34 <= q < item_start(ranking[k].nft_id as int) + 38) by {
                    assert(ranking[k].nft_id != ranking[i as int].nft_id);
                }
            }
        }
        race_result.winners[i] = nft_key_bytes;
        proof {
            assert forall|k: int| 0 <= k < i implies ranking[k].nft_id != ranking[i as int].nft_id by {
                let _ = ranking[k];
            }
        }
        i = i + 1;
    }
    race_result.winner_cnt = winner_count as u8;
    proof {
        assert forall|p: int|
            0 <= p < data0.len() && !in_winner_reward(data0, random_value, p) implies #[trigger] nft_list_data@[p]
            == data0[p] by {
            assert forall|k: int| 0 <= k < winner_count implies !(item_start(
                #[trigger] ranking[k].nft_id as int,
            ) + 34 <= p < item_start(ranking[k].nft_id as int) + 38) by {
                if item_start(ranking[k].nft_id as int) + 34 <= p < item_start(ranking[k].nft_id as int) + 38 {
                    assert(in_winner_reward(data0, random_value, p));
                }
            }
        }
    }
}

} // verus!

verus! {

/// The random value of a race before its reduction: the SOL price (or 0 when
/// the feed has none) plus the BTC price (or 0) plus the wrapped timestamp.
pub open spec fn race_random_sum(sol_price: Option<u128>, btc_price: Option<u128>, unix_timestamp: i64) -> int {
    (match sol_price { Some(p) => p as int, None => 0 }) + (match btc_price {
        Some(p) => p as int,
        None => 0,
    }) + timestamp_as_u128(unix_timestamp)
}

/// The random value of a race: its sum, which must fit in a u128, modulo 20.
pub open spec fn race_random(sol_price: Option<u128>, btc_price: Option<u128>, unix_timestamp: i64) -> u8 {
    (race_random_sum(sol_price, btc_price, unix_timestamp) % 20) as u8
}

/// Draws the random value of a race from the two price feeds and the clock.
pub fn race_random_value(sol_price: Option<u128>, btc_price: Option<u128>, unix_timestamp: i64) -> (r: u8)
    requires
        race_random_sum(sol_price, btc_price, unix_timestamp) <= u128::MAX,
    ensures
        r == race_random(sol_price, btc_price, unix_timestamp),
        r < 20,
{
    let mut random_value: u128 = 0;
    if let Some(sol_price) = sol_price {
        random_value = random_value + sol_price;
    }
    if let Some(btc_price) = btc_price {
        random_value = random_value + btc_price;
    }
    random_value = random_value + timestamp_to_u128(unix_timestamp);
    (random_value % 20) as u8
}

/// Whether `key` is in one of the ten slots of the white list (in use or not).
pub open spec fn may_start_race(operator_list: OperatorWhiteList, key: KeyBytes) -> bool {
    operator_list.operator_array@.contains(key)
}

/// Whether `operator` may start a race: whether it is in one of the ten slots
/// of the white list, in use or not.
pub fn is_race_operator(operator_list: &OperatorWhiteList, operator: &KeyBytes) -> (listed: bool)
    ensures
        listed == may_start_race(*operator_list, *operator),
{
    let mut i: usize = 0;
    while i < 10
        invariant
            i <= 10,
            forall|k: int| 0 <= k < i ==> operator_list.operator_array[k] != *operator,
        decreases 10 - i,
    {
        if key_eq(&operator_list.operator_array[i], operator) {
            assert(operator_list.operator_array@[i as int] == *operator);
            return true;
        }
        i = i + 1;
    }
    false
}

/// Starts a race: an operator found in any of the ten slots of the white list
/// runs it with the random value that the price feeds and the clock give;
/// anyone else is refused with `InvalidOperator` and nothing changes.
pub fn process(
    operator_list: &OperatorWhiteList,
    operator: &KeyBytes,
    race_result: &mut RaceResult,
    nft_list_data: &mut [u8],
    sol_price: Option<u128>,
    btc_price: Option<u128>,
    unix_timestamp: i64,
) -> (r: Result<(), ErrorCode>)
    requires
        may_start_race(*operator_list, *operator) ==> {
            &&& race_random_sum(sol_price, btc_price, unix_timestamp) <= u128::MAX
            &&& prize_winner_requires(
                old(nft_list_data)@,
                race_random(sol_price, btc_price, unix_timestamp),
            )
        },
    ensures
        !may_start_race(*operator_list, *operator) ==> {
            &&& r == Err::<(), ErrorCode>(ErrorCode::InvalidOperator)
            &&& final(nft_list_data)@ == old(nft_list_data)@
            &&& *final(race_result) == *old(race_result)
        },
        may_start_race(*operator_list, *operator) ==> {
            &&& r is Ok
            &&& race_outcome(
                old(nft_list_data)@,
                final(nft_list_data)@,
                *old(race_result),
                *final(race_result),
                race_random(sol_price, btc_price, unix_timestamp),
            )
        },
{
    if !is_race_operator(operator_list, operator) {
        return Err(ErrorCode::InvalidOperator);
    }

    let random_value = race_random_value(sol_price, btc_price, unix_timestamp);
    prize_winner(random_value, nft_list_data, race_result);
    Ok(())
}

} // verus!
