use horse_racing::errors::ErrorCode;
use horse_racing::instructions::{add_operator, del_operator, initialize, transfer_role};
use horse_racing::state::{KeyBytes, OperatorWhiteList, RaceResult};

fn key(n: u8) -> KeyBytes {
    [n; 32]
}

fn fresh_list() -> OperatorWhiteList {
    OperatorWhiteList { operator_array: [[0u8; 32]; 10], operator_cnt: 0, bump: 0 }
}

fn fresh_race() -> RaceResult {
    RaceResult { winners: [[0u8; 32]; 10], winner_cnt: 0, bump: 0 }
}

fn list_of(keys: &[u8]) -> OperatorWhiteList {
    let mut list = fresh_list();
    for (i, k) in keys.iter().enumerate() {
        list.operator_array[i] = key(*k);
    }
    list.operator_cnt = keys.len() as u8;
    list
}

fn active(list: &OperatorWhiteList) -> Vec<KeyBytes> {
    list.operator_array[..list.operator_cnt as usize].to_vec()
}

#[test]
fn initialize_makes_admin_sole_operator() {
    let mut list = fresh_list();
    let mut race = fresh_race();
    let r = initialize::process(&mut list, &mut race, &key(1), 254, 253);
    assert_eq!(r, Ok(()));
    assert_eq!(list.operator_array[0], key(1));
    assert_eq!(list.operator_cnt, 1);
    assert_eq!(list.bump, 254);
    assert_eq!(race.bump, 253);
    assert_eq!(race.winner_cnt, 0);
    assert_eq!(list.operator_array[1], [0u8; 32]);
}

#[test]
fn add_operator_appends() {
    let mut list = list_of(&[1, 2]);
    assert_eq!(add_operator::process(&mut list, &key(1), &key(3)), Ok(()));
    assert_eq!(active(&list), vec![key(1), key(2), key(3)]);
    assert_eq!(list.operator_cnt, 3);
}

#[test]
fn add_operator_refuses_when_full() {
    let mut list = list_of(&[1, 2, 3, 4, 5, 6, 7, 8, 9, 10]);
    assert_eq!(add_operator::process(&mut list, &key(1), &key(11)), Err(ErrorCode::OperatorOverflow));
    assert_eq!(list.operator_cnt, 10);
}

#[test]
fn add_operator_refuses_unknown_admin() {
    let mut list = list_of(&[1, 2]);
    assert_eq!(add_operator::process(&mut list, &key(2), &key(3)), Err(ErrorCode::UnknownAdmin));
    assert_eq!(active(&list), vec![key(1), key(2)]);
}

#[test]
fn add_operator_refuses_duplicate() {
    let mut list = list_of(&[1, 2]);
    assert_eq!(add_operator::process(&mut list, &key(1), &key(2)), Err(ErrorCode::OperatorDuplicated));
    assert_eq!(list.operator_cnt, 2);
}

#[test]
fn del_operator_shifts_the_rest_up() {
    let mut list = list_of(&[1, 2, 3, 4]);
    assert_eq!(del_operator::process(&mut list, &key(1), &key(2)), Ok(()));
    assert_eq!(active(&list), vec![key(1), key(3), key(4)]);
    // The last slot that was in use keeps its key.
    assert_eq!(list.operator_array[3], key(4));
}

#[test]
fn del_operator_refuses_last_operator() {
    let mut list = list_of(&[1]);
    assert_eq!(del_operator::process(&mut list, &key(1), &key(1)), Err(ErrorCode::OperatorNotEnough));
    assert_eq!(list.operator_cnt, 1);
}

#[test]
fn del_operator_refuses_unknown_admin() {
    let mut list = list_of(&[1, 2]);
    assert_eq!(del_operator::process(&mut list, &key(2), &key(2)), Err(ErrorCode::UnknownAdmin));
    assert_eq!(list.operator_cnt, 2);
}

#[test]
fn del_operator_refuses_missing_operator() {
    let mut list = list_of(&[1, 2]);
    assert_eq!(del_operator::process(&mut list, &key(1), &key(7)), Err(ErrorCode::OperatorNotFound));
    assert_eq!(active(&list), vec![key(1), key(2)]);
}

#[test]
fn del_operator_of_admin_promotes_next() {
    let mut list = list_of(&[1, 2, 3]);
    assert_eq!(del_operator::process(&mut list, &key(1), &key(1)), Ok(()));
    assert_eq!(active(&list), vec![key(2), key(3)]);
}

#[test]
fn del_undoes_add() {
    let mut list = list_of(&[1, 2, 3]);
    let before = active(&list);
    assert_eq!(add_operator::process(&mut list, &key(1), &key(9)), Ok(()));
    assert_eq!(del_operator::process(&mut list, &key(1), &key(9)), Ok(()));
    assert_eq!(active(&list), before);
}

#[test]
fn transfer_role_hands_over() {
    let mut list = list_of(&[1, 2, 3]);
    assert_eq!(transfer_role::process(&mut list, &key(1), &key(2)), Ok(()));
    assert_eq!(active(&list), vec![key(2), key(3), key(1)]);
    assert_eq!(list.operator_cnt, 3);
}

#[test]
fn transfer_role_refuses_normal_user() {
    let mut list = list_of(&[1, 2, 3]);
    assert_eq!(
        transfer_role::process(&mut list, &key(1), &key(8)),
        Err(ErrorCode::TransferRoleToNormalUser)
    );
    assert_eq!(active(&list), vec![key(1), key(2), key(3)]);
}

#[test]
fn transfer_role_with_one_operator_leaves_signer_in_slot_zero() {
    let mut list = list_of(&[1]);
    assert_eq!(transfer_role::process(&mut list, &key(5), &key(1)), Ok(()));
    assert_eq!(active(&list), vec![key(5)]);
}

#[test]
fn error_messages() {
    assert_eq!(ErrorCode::InvalidOperator.msg(), "Invalid Operator to start race");
    assert_eq!(ErrorCode::OperatorOverflow.msg(), "Operator Count is Maximum!");
    assert_eq!(ErrorCode::OperatorNotEnough.msg(), "No Operator to remove");
    assert_eq!(ErrorCode::OperatorDuplicated.msg(), "Operator is already existing");
    assert_eq!(ErrorCode::OperatorNotFound.msg(), "Operator not found in operator_list");
    assert_eq!(ErrorCode::TransferRoleToNormalUser.msg(), "Only Operator can be an Admin!");
    assert_eq!(ErrorCode::UnknownAdmin.msg(), "Admin's key is wrong.");
    assert_eq!(ErrorCode::NftMintMismatch.msg(), "NFT mint is mismatch with NFT pk in list");
}

#[test]
fn overfull_list_refuses_unknown_admin() {
    let mut list = list_of(&[1, 2, 3, 4, 5, 6, 7, 8, 9, 10]);
    list.operator_cnt = 11;
    assert_eq!(add_operator::process(&mut list, &key(2), &key(12)), Err(ErrorCode::UnknownAdmin));
    assert_eq!(del_operator::process(&mut list, &key(2), &key(3)), Err(ErrorCode::UnknownAdmin));
    assert_eq!(list.operator_cnt, 11);
}

#[test]
fn overfull_list_finds_duplicate() {
    let mut list = list_of(&[1, 2, 3, 4, 5, 6, 7, 8, 9, 10]);
    list.operator_cnt = 11;
    assert_eq!(add_operator::process(&mut list, &key(1), &key(4)), Err(ErrorCode::OperatorDuplicated));
}
