//! The addresses of the Naver sports endpoints the viewer reads.
use vstd::prelude::*;
use crate::error::concat_text;
use crate::strutil::{fmt_int, push_int, string_from_chars};

verus! {

/// The schedule of one date, with the starting pitchers, the ballpark and the
/// broadcast channel requested besides the basic fields.
pub open spec fn spec_games_url(base: Seq<char>, date: Seq<char>) -> Seq<char> {
    base
        + "/schedule/games?fields=basic,stadium,homeStarterName,awayStarterName,broadChannel&upperCategoryId=kbaseball&categoryId=kbo&fromDate="@
        + date + "&toDate="@ + date
}

/// The relay (play-by-play) of one game.
pub open spec fn spec_relay_url(base: Seq<char>, game_id: Seq<char>) -> Seq<char> {
    base + "/schedule/games/"@ + game_id + "/relay"@
}

/// The relay of one inning of a game.
pub open spec fn spec_inning_url(base: Seq<char>, game_id: Seq<char>, inning: u8) -> Seq<char> {
    spec_relay_url(base, game_id) + "?inning="@ + fmt_int(inning as int, 0)
}

/// The team table of one season.
pub open spec fn spec_standings_url(base: Seq<char>, year: u16) -> Seq<char> {
    base + "/statistics/categories/kbo/seasons/"@ + fmt_int(year as int, 0) + "/teams"@
}

fn number_text(n: u16) -> (r: String)
    ensures
        r@ == fmt_int(n as int, 0),
{
    let mut v: Vec<char> = Vec::new();
    push_int(&mut v, n as i64, 0);
    string_from_chars(&v)
}

pub fn games_url(base: &str, date: &str) -> (r: String)
    ensures
        r@ == spec_games_url(base@, date@),
{
    let a = concat_text(
        base,
        "/schedule/games?fields=basic,stadium,homeStarterName,awayStarterName,broadChannel&upperCategoryId=kbaseball&categoryId=kbo&fromDate=",
    );
    let b = concat_text(a.as_str(), date);
    let c = concat_text(b.as_str(), "&toDate=");
    concat_text(c.as_str(), date)
}

pub fn relay_url(base: &str, game_id: &str) -> (r: String)
    ensures
        r@ == spec_relay_url(base@, game_id@),
{
    let a = concat_text(base, "/schedule/games/");
    let b = concat_text(a.as_str(), game_id);
    concat_text(b.as_str(), "/relay")
}

pub fn inning_url(base: &str, game_id: &str, inning: u8) -> (r: String)
    ensures
        r@ == spec_inning_url(base@, game_id@, inning),
{
    let a = relay_url(base, game_id);
    let b = concat_text(a.as_str(), "?inning=");
    let n = number_text(inning as u16);
    concat_text(b.as_str(), n.as_str())
}

pub fn standings_url(base: &str, year: u16) -> (r: String)
    ensures
        r@ == spec_standings_url(base@, year),
{
    let a = concat_text(base, "/statistics/categories/kbo/seasons/");
    let n = number_text(year);
    let b = concat_text(a.as_str(), n.as_str());
    concat_text(b.as_str(), "/teams")
}

} // verus!
