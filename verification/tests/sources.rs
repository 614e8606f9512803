use kbotop::error::Error;
use kbotop::model::{Game, GameStatus, LiveState, Standing, Team};
use kbotop::sources::DataSource;

/// A source with only the required methods.
struct BareSource;

impl DataSource for BareSource {
    fn games(&self, _date: &str) -> Result<Vec<Game>, Error> {
        Ok(vec![])
    }
    fn live(&self, _game: &Game) -> Result<LiveState, Error> {
        Err(Error::Data("not implemented".into()))
    }
    fn standings(&self, _year: u16) -> Result<Vec<Standing>, Error> {
        Ok(vec![])
    }
}

fn dummy_game() -> Game {
    Game {
        id: "g".into(),
        start: String::new(),
        status: GameStatus::Live,
        status_label: String::new(),
        home: Team { code: "LG".into(), name: "LG".into() },
        away: Team { code: "KT".into(), name: "KT".into() },
        home_score: None,
        away_score: None,
        away_starter: String::new(),
        home_starter: String::new(),
        stadium: String::new(),
        broadcast: String::new(),
    }
}

#[test]
fn a_source_without_inning_support_returns_no_at_bats_rather_than_failing() {
    let at_bats = BareSource.at_bats_of_inning(&dummy_game(), 3).unwrap();
    assert!(at_bats.is_empty());
}

#[test]
fn a_source_without_tips_returns_an_empty_list() {
    assert!(BareSource.tips().unwrap().is_empty());
}

#[test]
fn the_default_inning_implementation_is_total_over_its_input() {
    for inning in [0u8, 1, 9, 12, u8::MAX] {
        assert!(BareSource.at_bats_of_inning(&dummy_game(), inning).unwrap().is_empty());
    }
}
