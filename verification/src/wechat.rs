//! WeChat (iLink Bot) account storage.
//!
//! Layout under `<state_dir>/wechat/`:
//! - `accounts/<account_id>.json`: the credentials of one account
//! - `accounts.json`: the ordered index of known account ids
//! - `sync_buf/<account_id>`: the long-poll cursor of one account

pub mod accounts;
pub mod flows;
pub mod guarantees;
pub mod index;
pub mod laws;
pub mod paths;
pub mod report;
