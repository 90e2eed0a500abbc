//! The texts the bot answers with and posts.

pub mod ign;
pub mod tournament;
