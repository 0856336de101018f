use horse_racing::errors::ErrorCode;
use horse_racing::instructions::{mint_nft, start_race};
use horse_racing::state::{KeyBytes, OperatorWhiteList, RaceResult, UpgradableMetadata};

fn key(n: u8) -> KeyBytes {
    [n; 32]
}

fn list_with(attrs: &[(u8, u8)]) -> Vec<u8> {
    let mut data = vec![0u8; 2 + 38 * attrs.len()];
    for (i, (p, s)) in attrs.iter().enumerate() {
        let m = UpgradableMetadata { bump: 0, passion: *p, stamina: *s, nft_id: 0 };
        mint_nft::add_nft(&key(i as u8 + 1), &mut data, &m);
    }
    data
}

fn reward(data: &[u8], i: usize) -> u32 {
    let s = 2 + 38 * i;
    u32::from_le_bytes([data[s + 34], data[s + 35], data[s + 36], data[s + 37]])
}

fn fresh_race() -> RaceResult {
    RaceResult { winners: [[0u8; 32]; 10], winner_cnt: 0, bump: 3 }
}

#[test]
fn race_pays_by_rank() {
    // Scores 1, 2, 2, 3: the exchange sort ranks item 3, then item 2, then item 1, then item 0.
    let mut data = list_with(&[(1, 0), (2, 0), (2, 0), (3, 0)]);
    let mut race = fresh_race();
    start_race::prize_winner(0, &mut data, &mut race);
    assert_eq!(race.winner_cnt, 4);
    assert_eq!(&race.winners[..4], &[key(4), key(3), key(2), key(1)]);
    assert_eq!(reward(&data, 3), 70);
    assert_eq!(reward(&data, 2), 20);
    assert_eq!(reward(&data, 1), 3);
    assert_eq!(reward(&data, 0), 1);
    assert_eq!(race.bump, 3);
}

#[test]
fn race_keeps_ties_in_list_order_when_nothing_overtakes() {
    let mut data = list_with(&[(1, 0), (2, 0), (2, 0)]);
    let mut race = fresh_race();
    start_race::prize_winner(5, &mut data, &mut race);
    assert_eq!(&race.winners[..3], &[key(2), key(3), key(1)]);
}

#[test]
fn race_pays_at_most_ten() {
    let attrs: Vec<(u8, u8)> = (0..12).map(|i| (20 + i as u8, 20)).collect();
    let mut data = list_with(&attrs);
    let mut race = fresh_race();
    start_race::prize_winner(0, &mut data, &mut race);
    assert_eq!(race.winner_cnt, 10);
    assert_eq!(race.winners[0], key(12));
    assert_eq!(race.winners[9], key(3));
    assert_eq!(reward(&data, 11), 70);
    assert_eq!(reward(&data, 10), 20);
    assert_eq!(reward(&data, 9), 3);
    assert_eq!(reward(&data, 2), 1);
    assert_eq!(reward(&data, 1), 0);
    assert_eq!(reward(&data, 0), 0);
}

#[test]
fn race_on_empty_list() {
    let mut data = vec![0u8; 2];
    let mut race = fresh_race();
    race.winners[0] = key(9);
    start_race::prize_winner(0, &mut data, &mut race);
    assert_eq!(race.winner_cnt, 0);
    assert_eq!(race.winners[0], key(9));
}

#[test]
fn random_value_of_a_race() {
    assert_eq!(start_race::race_random_value(Some(7), Some(8), 100), 15);
    assert_eq!(start_race::race_random_value(None, None, 25), 5);
    assert_eq!(start_race::race_random_value(Some(1), None, -1), 0);
}

#[test]
fn start_race_refuses_unknown_operator() {
    let mut list = OperatorWhiteList { operator_array: [[0u8; 32]; 10], operator_cnt: 1, bump: 0 };
    list.operator_array[0] = key(50);
    let mut data = list_with(&[(20, 20)]);
    let before = data.clone();
    let mut race = fresh_race();
    let r = start_race::process(&list, &key(51), &mut race, &mut data, Some(1), Some(2), 3);
    assert_eq!(r, Err(ErrorCode::InvalidOperator));
    assert_eq!(data, before);
    assert_eq!(race.winner_cnt, 0);
}

#[test]
fn start_race_by_operator() {
    let mut list = OperatorWhiteList { operator_array: [[0u8; 32]; 10], operator_cnt: 1, bump: 0 };
    list.operator_array[0] = key(50);
    let mut data = list_with(&[(20, 20), (21, 25)]);
    let mut race = fresh_race();
    let r = start_race::process(&list, &key(50), &mut race, &mut data, Some(7), Some(8), 100);
    assert_eq!(r, Ok(()));
    assert_eq!(race.winner_cnt, 2);
    assert_eq!(&race.winners[..2], &[key(2), key(1)]);
    assert_eq!(reward(&data, 1), 70);
    assert_eq!(reward(&data, 0), 20);
}

#[test]
fn race_readiness() {
    let data = list_with(&[(20, 20), (21, 25)]);
    assert!(start_race::prize_winner_ready(0, &data));
    // A score that does not fit in a byte.
    let big = list_with(&[(200, 50)]);
    assert!(!start_race::prize_winner_ready(6, &big));
    assert!(start_race::prize_winner_ready(5, &big));
    // Too short to hold the count.
    assert!(!start_race::prize_winner_ready(0, &[1]));
    // The last item is cut inside its pending reward: fine while it does not win.
    let mut cut = list_with(&[(20, 20); 11]);
    cut.truncate(2 + 38 * 10 + 35);
    assert!(start_race::prize_winner_ready(0, &cut));
    let mut cut_winner = list_with(&[(20, 20), (30, 30)]);
    cut_winner.truncate(2 + 38 + 35);
    assert!(!start_race::prize_winner_ready(0, &cut_winner));
}

#[test]
fn race_operators_include_unused_slots() {
    let mut list = OperatorWhiteList { operator_array: [[0u8; 32]; 10], operator_cnt: 1, bump: 0 };
    list.operator_array[0] = key(50);
    list.operator_array[4] = key(60);
    assert!(start_race::is_race_operator(&list, &key(50)));
    assert!(start_race::is_race_operator(&list, &key(60)));
    assert!(!start_race::is_race_operator(&list, &key(61)));
}

#[test]
fn race_ignores_a_common_shift() {
    let attrs = [(1, 0), (2, 0), (2, 0), (3, 0), (9, 4)];
    let mut d1 = list_with(&attrs);
    let mut d2 = list_with(&attrs);
    let mut r1 = fresh_race();
    let mut r2 = fresh_race();
    start_race::prize_winner(0, &mut d1, &mut r1);
    start_race::prize_winner(19, &mut d2, &mut r2);
    assert_eq!(d1, d2);
    assert_eq!(r1.winners, r2.winners);
    assert_eq!(r1.winner_cnt, r2.winner_cnt);
}
