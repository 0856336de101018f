use vstd::prelude::*;

verus! {

/// The reasons for which an instruction is refused.
#[derive(Debug, Clone, Copy, PartialEq, Eq, Structural)]
pub enum ErrorCode {
    InvalidOperator,
    OperatorOverflow,
    OperatorNotEnough,
    OperatorDuplicated,
    OperatorNotFound,
    TransferRoleToNormalUser,
    UnknownAdmin,
    NftMintMismatch,
}

/// The message shown for each error.
pub open spec fn error_message(e: ErrorCode) -> Seq<char> {
    match e {
        ErrorCode::InvalidOperator => "Invalid Operator to start race"@,
        ErrorCode::OperatorOverflow => "Operator Count is Maximum!"@,
        ErrorCode::OperatorNotEnough => "No Operator to remove"@,
        ErrorCode::OperatorDuplicated => "Operator is already existing"@,
        ErrorCode::OperatorNotFound => "Operator not found in operator_list"@,
        ErrorCode::TransferRoleToNormalUser => "Only Operator can be an Admin!"@,
        ErrorCode::UnknownAdmin => "Admin's key is wrong."@,
        ErrorCode::NftMintMismatch => "NFT mint is mismatch with NFT pk in list"@,
    }
}

impl ErrorCode {
    /// The message of this error.
    pub fn msg(&self) -> (m: &'static str)
        ensures
            m@ == error_message(*self),
    {
        match self {
            ErrorCode::InvalidOperator => "Invalid Operator to start race",
            ErrorCode::OperatorOverflow => "Operator Count is Maximum!",
            ErrorCode::OperatorNotEnough => "No Operator to remove",
            ErrorCode::OperatorDuplicated => "Operator is already existing",
            ErrorCode::OperatorNotFound => "Operator not found in operator_list",
            ErrorCode::TransferRoleToNormalUser => "Only Operator can be an Admin!",
            ErrorCode::UnknownAdmin => "Admin's key is wrong.",
            ErrorCode::NftMintMismatch => "NFT mint is mismatch with NFT pk in list",
        }
    }
}

} // verus!
