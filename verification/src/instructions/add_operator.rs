use vstd::prelude::*;
use crate::errors::ErrorCode;
use crate::state::{KeyBytes, OperatorWhiteList, WhiteListModel, key_eq};

verus! {

/// What adding `operator` does to a white list on behalf of `admin`: refused
/// when all ten slots are in use, when `admin` is not the key in slot 0, or
/// when `operator` is already in use; otherwise `operator` takes the first
/// free slot.
pub open spec fn add_operator_outcome(
    w: WhiteListModel,
    admin: KeyBytes,
    operator: KeyBytes,
) -> Result<WhiteListModel, ErrorCode> {
    if w.count == 10 {
        Err(ErrorCode::OperatorOverflow)
    } else if admin != w.admin() {
        Err(ErrorCode::UnknownAdmin)
    } else if w.active().contains(operator) {
        Err(ErrorCode::OperatorDuplicated)
    } else {
        Ok(
            WhiteListModel {
                operators: w.operators.update(w.count as int, operator),
                count: w.count + 1,
                bump: w.bump,
            },
        )
    }
}

/// Adds `operator` to the white list; `admin` must hold slot 0.
/// A refused request changes nothing.
pub fn process(operator_list: &mut OperatorWhiteList, admin: &KeyBytes, operator: &KeyBytes) -> (r:
    Result<(), ErrorCode>)
    requires
        old(operator_list).operator_cnt <= 10 || *admin != old(operator_list).operator_array[0]
            || old(operator_list).operator_array@.contains(*operator),
    ensures
        match add_operator_outcome(old(operator_list)@, *admin, *operator) {
            Ok(w) => r is Ok && final(operator_list)@ == w,
            Err(e) => r == Err::<(), ErrorCode>(e) && *final(operator_list) == *old(operator_list),
        },
{
    let cnt: usize = operator_list.operator_cnt as usize;

    if cnt == 10 {
        return Err(ErrorCode::OperatorOverflow);
    }

    if !key_eq(admin, &operator_list.operator_array[0]) {
        return Err(ErrorCode::UnknownAdmin);
    }
    assert(cnt > 10 ==> exists|k: int| 0 <= k < 10 && operator_list.operator_array[k] == *operator);

    let mut i: usize = 0;
    while i < cnt
        invariant
            cnt != 10,
            cnt == old(operator_list).operator_cnt,
            cnt > 10 ==> exists|k: int| i <= k < 10 && operator_list.operator_array[k] == *operator,
            *operator_list == *old(operator_list),
            *admin == operator_list.operator_array[0],
            i <= cnt,
            forall|k: int| 0 <= k < i ==> operator_list.operator_array[k] != *operator,
        decreases cnt - i,
    {
        if key_eq(&operator_list.operator_array[i], operator) {
            assert(operator_list@.active()[i as int] == *operator);
            assert(operator_list@.active().contains(*operator));
            return Err(ErrorCode::OperatorDuplicated);
        }
        i = i + 1;
    }
    assert(!operator_list@.active().contains(*operator));

    operator_list.operator_array[cnt] = *operator;
    operator_list.operator_cnt = operator_list.operator_cnt + 1;
    assert(operator_list@ =~= add_operator_outcome(old(operator_list)@, *admin, *operator).unwrap());
    Ok(())
}

} // verus!
