pub mod initialize;
pub mod add_operator;
pub mod del_operator;
pub mod transfer_role;
pub mod mint_nft;
pub mod upgrade_nft;
pub mod start_race;
pub mod get_award;
