use vstd::prelude::*;
use crate::errors::ErrorCode;
use crate::state::{KeyBytes, OperatorWhiteList, WhiteListModel, first_slot_of, shift_out, shift_out_slot};

verus! {

/// What handing the admin role from `admin` to `new_admin` does to a white
/// list: refused when `new_admin` is not in use; otherwise the first slot
/// that holds `new_admin` is shifted out, `new_admin` takes slot 0 and
/// `admin` the last slot in use.
pub open spec fn transfer_role_outcome(
    w: WhiteListModel,
    admin: KeyBytes,
    new_admin: KeyBytes,
) -> Result<WhiteListModel, ErrorCode> {
    match w.active().index_of_first(new_admin) {
        None => Err(ErrorCode::TransferRoleToNormalUser),
        Some(i) => Ok(
            WhiteListModel {
                operators: shift_out(w.operators, i, w.count as int).update(0, new_admin).update(
                    w.count - 1,
                    admin,
                ),
                count: w.count,
                bump: w.bump,
            },
        ),
    }
}

/// Makes `new_admin`, which must already be an operator, the admin, and
/// keeps the signer `admin` as an operator. A refused request changes nothing.
pub fn process(operator_list: &mut OperatorWhiteList, admin: &KeyBytes, new_admin: &KeyBytes) -> (r:
    Result<(), ErrorCode>)
    requires
        old(operator_list).operator_cnt <= 10,
    ensures
        match transfer_role_outcome(old(operator_list)@, *admin, *new_admin) {
            Ok(w) => r is Ok && final(operator_list)@ == w,
            Err(e) => r == Err::<(), ErrorCode>(e) && *final(operator_list) == *old(operator_list),
        },
{
    let cnt: usize = operator_list.operator_cnt as usize;
    match first_slot_of(operator_list, new_admin) {
        None => Err(ErrorCode::TransferRoleToNormalUser),
        Some(i) => {
            shift_out_slot(operator_list, i);
            operator_list.operator_array[0] = *new_admin;
            operator_list.operator_array[cnt - 1] = *admin;
            assert(operator_list@ =~= transfer_role_outcome(old(operator_list)@, *admin, *new_admin).unwrap());
            Ok(())
        },
    }
}

} // verus!
