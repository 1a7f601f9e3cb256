//! Friend requests between users: adding and withdrawing directed requests,
//! telling mutual friends from one-sided ones, and filtering name searches.
pub mod types;
pub mod user_code;
pub mod store;
pub mod friends;
pub mod users;
pub mod laws;
