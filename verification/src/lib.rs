//! A poll contract: create polls, vote on their options, close them, and query
//! the stored polls, ballots and configuration.

pub mod error;
pub mod state;
pub mod msg;
pub mod decimal;
pub mod order;
pub mod entries;
pub mod poll;
pub mod contract;
pub mod laws;
