//! What the server promises to those who publish, visit and administer sites,
//! stated of whole operations and in plain terms, and proved of the contracts.
pub mod accounts;
pub mod addresses;
pub mod api;
pub mod archives;
pub mod forms;
pub mod inputs;
pub mod pages;
pub mod patches;
pub mod replies;
pub mod requests;
pub mod rows;
pub mod serving;
pub mod setup;
pub mod slugs;
pub mod texts;
