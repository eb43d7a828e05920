pub mod kitty;
pub mod ledger;
pub mod migration;
pub mod store;
