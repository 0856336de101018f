use vstd::prelude::*;
use crate::errors::ErrorCode;
use crate::state::{
    KeyBytes, OperatorWhiteList, WhiteListModel, first_slot_of, key_eq, shift_out, shift_out_slot,
};

verus! {

/// What removing `operator` does to a white list on behalf of `admin`:
/// refused when only one slot is in use, when `admin` is not the key in
/// slot 0, or when `operator` is not in use; otherwise the first slot that
/// holds `operator` is shifted out and one slot fewer is in use.
pub open spec fn del_operator_outcome(
    w: WhiteListModel,
    admin: KeyBytes,
    operator: KeyBytes,
) -> Result<WhiteListModel, ErrorCode> {
    if w.count == 1 {
        Err(ErrorCode::OperatorNotEnough)
    } else if admin != w.admin() {
        Err(ErrorCode::UnknownAdmin)
    } else {
        match w.active().index_of_first(operator) {
            None => Err(ErrorCode::OperatorNotFound),
            Some(i) => Ok(
                WhiteListModel {
                    operators: shift_out(w.operators, i, w.count as int),
                    count: (w.count - 1) as nat,
                    bump: w.bump,
                },
            ),
        }
    }
}

/// Removes `operator` from the white list; `admin` must hold slot 0.
/// A refused request changes nothing.
pub fn process(operator_list: &mut OperatorWhiteList, admin: &KeyBytes, operator: &KeyBytes) -> (r:
    Result<(), ErrorCode>)
    requires
        1 <= old(operator_list).operator_cnt <= 10 || *admin != old(operator_list).operator_array[0],
    ensures
        match del_operator_outcome(old(operator_list)@, *admin, *operator) {
            Ok(w) => r is Ok && final(operator_list)@ == w,
            Err(e) => r == Err::<(), ErrorCode>(e) && *final(operator_list) == *old(operator_list),
        },
{
    let cnt: usize = operator_list.operator_cnt as usize;

    if cnt == 1 {
        return Err(ErrorCode::OperatorNotEnough);
    }

    if !key_eq(admin, &operator_list.operator_array[0]) {
        return Err(ErrorCode::UnknownAdmin);
    }

    match first_slot_of(operator_list, operator) {
        None => Err(ErrorCode::OperatorNotFound),
        Some(i) => {
            shift_out_slot(operator_list, i);
            operator_list.operator_cnt = operator_list.operator_cnt - 1;
            assert(operator_list@ =~= del_operator_outcome(old(operator_list)@, *admin, *operator).unwrap());
            Ok(())
        },
    }
}

} // verus!
