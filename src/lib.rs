//! Birthday reminders and the one-time-passcode sign-in flow, with the
//! passcode ledger and its issuance protocol verified.

pub mod command;
pub mod error;
pub mod friend;
pub mod handler;
pub mod issue;
pub mod ledger;
pub mod otp;
pub mod user;
pub mod validate;
