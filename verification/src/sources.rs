//! Where the data comes from, as the poller sees it.
use vstd::prelude::*;
use crate::error::Error;
use crate::model::{AtBat, Game, LiveState, NewsItem, Standing};

verus! {

/// A source of game data.
pub trait DataSource: Send + Sync {
    fn games(&self, date: &str) -> Result<Vec<Game>, Error>;

    fn live(&self, game: &Game) -> Result<LiveState, Error>;

    fn standings(&self, year: u16) -> Result<Vec<Standing>, Error>;

    /// The at-bats of a past inning. A source without them has none: the
    /// rewinding then stops at the inning boundary.
    fn at_bats_of_inning(&self, game: &Game, inning: u8) -> (r: Result<Vec<AtBat>, Error>)
        default_ensures
            r matches Ok(v) && v@.len() == 0,
    {
        Ok(Vec::new())
    }

    /// Tips fetched at start-up; a source without them has none (the
    /// built-in ones stay).
    fn tips(&self) -> (r: Result<Vec<String>, Error>)
        default_ensures
            r matches Ok(v) && v@.len() == 0,
    {
        Ok(Vec::new())
    }
}

/// A source of news headlines, apart from the game data.
pub trait NewsSource: Send + Sync {
    fn news(&self) -> Result<Vec<NewsItem>, Error>;
}

} // verus!
