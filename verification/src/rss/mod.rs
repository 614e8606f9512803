//! News from publishers' RSS feeds: the feeds read, the key that tells two
//! items apart, and the merged list newest first.
pub mod parse;
pub mod feed;
pub mod merge;
