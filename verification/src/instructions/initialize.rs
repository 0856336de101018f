use vstd::prelude::*;
use crate::errors::ErrorCode;
use crate::state::{KeyBytes, OperatorWhiteList, RaceResult, WhiteListModel};

verus! {

/// The white list that initialization leaves: the admin in slot 0, as the
/// only operator in use, and the given bump; the other slots as they were.
pub open spec fn initialize_outcome(
    w: WhiteListModel,
    admin: KeyBytes,
    operator_list_bump: u8,
) -> WhiteListModel {
    WhiteListModel { operators: w.operators.update(0, admin), count: 1, bump: operator_list_bump }
}

/// Sets up a fresh white list, with the admin as its only operator, and a
/// fresh race result with its bump.
pub fn process(
    operator_list: &mut OperatorWhiteList,
    race_result: &mut RaceResult,
    admin: &KeyBytes,
    operator_list_bump: u8,
    race_bump: u8,
) -> (r: Result<(), ErrorCode>)
    ensures
        r is Ok,
        final(operator_list)@ == initialize_outcome(old(operator_list)@, *admin, operator_list_bump),
        final(operator_list)@.wf(),
        final(operator_list)@.active() == seq![*admin],
        final(race_result).winners == old(race_result).winners,
        final(race_result).winner_cnt == old(race_result).winner_cnt,
        final(race_result).bump == race_bump,
{
    operator_list.operator_array[0] = *admin;
    operator_list.operator_cnt = 1;
    operator_list.bump = operator_list_bump;

    race_result.bump = race_bump;
    assert(operator_list@ =~= initialize_outcome(old(operator_list)@, *admin, operator_list_bump));
    assert(operator_list@.active() =~= seq![*admin]);
    Ok(())
}

} // verus!
