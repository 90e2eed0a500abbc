//! Clan bot library: in-game-name bookkeeping and an elimination tournament
//! run by community vote.

pub mod access;
pub mod clock;
pub mod config;
pub mod game;
pub mod replies;
pub mod text;
pub mod tournament;
