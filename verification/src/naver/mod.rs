//! The Naver sports data: the records its responses carry and how they
//! become games, standings and the live state of a game.
pub mod dto;
pub mod map;
pub mod urls;
