//! The records of the Naver responses, each field already read leniently (a
//! missing or mistyped field is its default).
use vstd::prelude::*;

verus! {

pub struct ApiEnvelope<T> {
    pub result: Option<T>,
}

pub struct ScheduleResult {
    pub games: Vec<ScheduleGame>,
}

/// One game of the schedule. Identifiers may be missing; such a record is skipped.
pub struct ScheduleGame {
    pub game_id: Option<String>,
    pub game_date_time: String,
    pub home_team_code: Option<String>,
    pub home_team_name: Option<String>,
    pub away_team_code: Option<String>,
    pub away_team_name: Option<String>,
    pub home_team_score: Option<u16>,
    pub away_team_score: Option<u16>,
    /// "RESULT", "BEFORE" or a value meaning the game is on.
    pub status_code: String,
    /// "9회말".
    pub status_info: String,
    pub cancel: bool,
    pub suspended: bool,
}

pub struct StandingsResult {
    pub season_team_stats: Vec<TeamStat>,
}

/// One team's line of the standings (the fractional rates are read by the
/// drawing side).
pub struct TeamStat {
    pub ranking: u16,
    pub team_id: String,
    pub team_name: String,
    pub game_count: u16,
    pub win_game_count: u16,
    pub lose_game_count: u16,
    pub drawn_game_count: u16,
}

pub struct NewsResult {
    pub news_list: Vec<NewsArticle>,
}

pub struct NewsArticle {
    pub title: String,
    pub source_name: String,
    pub oid: String,
    pub aid: String,
    /// A summary of about a hundred characters, possibly with HTML.
    pub sub_content: String,
}

pub struct RelayResult {
    pub text_relay_data: Option<TextRelayData>,
}

pub struct TextRelayData {
    pub current_game_state: Option<CurrentGameState>,
    /// Newest first.
    pub text_relays: Vec<TextRelay>,
    pub home_lineup: Option<Lineup>,
    pub away_lineup: Option<Lineup>,
}

/// The scoreboard, its values as the text the source sends ("3").
pub struct CurrentGameState {
    pub home_score: String,
    pub away_score: String,
    pub strike: String,
    pub ball: String,
    pub out: String,
    pub base1: String,
    pub base2: String,
    pub base3: String,
    /// Player id of the pitcher.
    pub pitcher: String,
    pub batter: String,
}

impl Default for CurrentGameState {
    fn default() -> (r: Self)
        ensures
            r.home_score@.len() == 0 && r.away_score@.len() == 0 && r.strike@.len() == 0
                && r.ball@.len() == 0 && r.out@.len() == 0 && r.base1@.len() == 0
                && r.base2@.len() == 0 && r.base3@.len() == 0 && r.pitcher@.len() == 0
                && r.batter@.len() == 0,
    {
        CurrentGameState {
            home_score: String::new(),
            away_score: String::new(),
            strike: String::new(),
            ball: String::new(),
            out: String::new(),
            base1: String::new(),
            base2: String::new(),
            base3: String::new(),
            pitcher: String::new(),
            batter: String::new(),
        }
    }
}

/// One entry of the text relay: an at-bat or a progress notice.
pub struct TextRelay {
    /// The at-bat number over the whole game.
    pub no: i64,
    pub inn: i32,
    /// "0": top (away bats), "1": bottom (home bats).
    pub home_or_away: String,
    pub text_options: Vec<TextOption>,
    pub pts_options: Vec<PtsOption>,
}

/// One relay line.
pub struct TextOption {
    pub seqno: i64,
    pub text: String,
    /// The line's kind; 8 announces a batter.
    pub type_code: i32,
    /// The `pitchId` of the pitch this line describes; empty on lines that
    /// are not pitches.
    pub pts_pitch_id: String,
}

/// One measured pitch. The release speed is computed from the measured
/// velocity (fractional) when the record is read.
pub struct PtsOption {
    pub ballcount: u8,
    /// "YYMMDD_HHMMSS".
    pub pitch_id: String,
    pub stance: String,
    pub speed_kmh: Option<u16>,
}

pub struct Lineup {
    pub batter: Vec<Player>,
    pub pitcher: Vec<Player>,
}

pub struct Player {
    pub pcode: String,
    pub name: String,
    /// Batting order 1 to 9; 0 when unknown.
    pub bat_order: u8,
}

} // verus!
