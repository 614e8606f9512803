//! Core logic of a terminal KBO baseball viewer: calendar arithmetic, time
//! zones, feed text processing and the data model of games and play-by-play.
use vstd::prelude::*;

pub mod dateutil;
pub mod strutil;
pub mod localtime;
pub mod text;
pub mod rss;
pub mod model;
pub mod error;
pub mod config;
pub mod poller;
pub mod launch;
pub mod naver;
pub mod app;
pub mod sources;

verus! {
}
