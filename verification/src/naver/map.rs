//! From the Naver records to games, standings, at-bats and the live state.
use vstd::prelude::*;
use crate::error::Error;
use crate::model::{
    AtBat, BaseState, Count, Game, GameStatus, LiveState, Pitch, PitchResult, RelayLine, Standing,
    Team,
};
use crate::naver::dto::{
    ApiEnvelope, CurrentGameState, Lineup, Player, PtsOption, RelayResult, ScheduleGame,
    ScheduleResult, StandingsResult, TeamStat, TextOption, TextRelay, TextRelayData,
};
use crate::strutil::{
    all_digits, chars_eq, chars_of, chars_split_once, chars_starts_with, fmt_int, is_ascii_digit,
    parse_int, parse_u16 as parse_u16_chars, parse_u8 as parse_u8_chars, push_int, slice_range,
    split_once, starts_with, string_from_chars, trim, trim_chars, trim_start,
};
use crate::text::matches_at;

verus! {

pub open spec fn opt_text(o: Option<String>) -> Option<Seq<char>> {
    match o {
        Some(s) => Some(s@),
        None => None,
    }
}

/// A cancelled game is cancelled and a suspended one suspended whatever the
/// status code says; `RESULT` is over, `BEFORE` or nothing is scheduled, any
/// other code means the game is on.
pub open spec fn spec_status_of(g: ScheduleGame) -> GameStatus {
    if g.cancel {
        GameStatus::Canceled
    } else if g.suspended {
        GameStatus::Suspended
    } else if g.status_code@ == "RESULT"@ {
        GameStatus::Final
    } else if g.status_code@ == "BEFORE"@ || g.status_code@.len() == 0 {
        GameStatus::Scheduled
    } else {
        GameStatus::Live
    }
}

fn text_is(a: &[char], b: &str) -> (r: bool)
    ensures
        r == (a@ == b@),
{
    let bv = chars_of(b);
    chars_eq(a, &bv)
}

pub fn status_of(g: &ScheduleGame) -> (r: GameStatus)
    ensures
        r == spec_status_of(*g),
{
    if g.cancel {
        return GameStatus::Canceled;
    }
    if g.suspended {
        return GameStatus::Suspended;
    }
    let c = chars_of(g.status_code.as_str());
    if text_is(&c, "RESULT") {
        GameStatus::Final
    } else if text_is(&c, "BEFORE") || c.len() == 0 {
        GameStatus::Scheduled
    } else {
        GameStatus::Live
    }
}

/// A present, non-empty identifier.
pub open spec fn has_id(o: Option<String>) -> bool {
    o matches Some(s) && s@.len() > 0
}

/// The schedule record `g` is usable: it has a game id and both team codes.
pub open spec fn usable(g: ScheduleGame) -> bool {
    has_id(g.game_id) && has_id(g.home_team_code) && has_id(g.away_team_code)
}

pub open spec fn name_or_empty(o: Option<String>) -> Seq<char> {
    match o {
        Some(s) => s@,
        None => Seq::empty(),
    }
}

/// `out` is the game of the usable record `g`.
pub open spec fn game_of(out: Game, g: ScheduleGame) -> bool {
    &&& out.id@ == g.game_id.unwrap()@
    &&& out.start@ == g.game_date_time@
    &&& out.status == spec_status_of(g)
    &&& out.status_label@ == g.status_info@
    &&& out.home.code@ == g.home_team_code.unwrap()@
    &&& out.home.name@ == name_or_empty(g.home_team_name)
    &&& out.away.code@ == g.away_team_code.unwrap()@
    &&& out.away.name@ == name_or_empty(g.away_team_name)
    &&& out.home_score == g.home_team_score
    &&& out.away_score == g.away_team_score
    &&& out.away_starter@.len() == 0
    &&& out.home_starter@.len() == 0
    &&& out.stadium@.len() == 0
    &&& out.broadcast@.len() == 0
}

/// The usable records, in order.
pub open spec fn usable_records(s: Seq<ScheduleGame>) -> Seq<ScheduleGame>
    decreases s.len(),
{
    if s.len() == 0 {
        Seq::empty()
    } else {
        usable_records(s.drop_last()) + (if usable(s.last()) { seq![s.last()] } else { Seq::empty() })
    }
}

/// The games of a schedule are its records filtered by usability, in their
/// order: exactly the records with a game id and both team codes.
pub proof fn law_schedule_keeps_exactly_the_usable_records(s: Seq<ScheduleGame>)
    ensures
        usable_records(s) == s.filter(|g: ScheduleGame| usable(g)),
    decreases s.len(),
{
    let pred = |g: ScheduleGame| usable(g);
    reveal(Seq::filter);
    if s.len() > 0 {
        law_schedule_keeps_exactly_the_usable_records(s.drop_last());
        assert(s.filter(pred) == if pred(s.last()) {
            s.drop_last().filter(pred).push(s.last())
        } else {
            s.drop_last().filter(pred)
        });
        if usable(s.last()) {
            assert(usable_records(s) == usable_records(s.drop_last()).push(s.last()));
        } else {
            assert(usable_records(s) == usable_records(s.drop_last()));
        }
    }
}

fn nonempty(o: &Option<String>) -> (r: bool)
    ensures
        r == has_id(*o),
{
    match o {
        Some(s) => chars_of(s.as_str()).len() > 0,
        None => false,
    }
}

fn text_or_empty(o: &Option<String>) -> (r: String)
    ensures
        r@ == name_or_empty(*o),
{
    match o {
        Some(s) => s.clone(),
        None => String::new(),
    }
}

/// The games of a schedule response: a record without a game id or a team
/// code is skipped alone, a missing result is no games; the starters,
/// ballpark and channel are not in the schedule record and stay empty.
/// `r` are the games of the schedule response `env` (see `games_from_schedule`).
pub open spec fn schedule_games(env: ApiEnvelope<ScheduleResult>, r: Seq<Game>) -> bool {
    match env.result {
        Some(res) => r.len() == usable_records(res.games@).len() && forall|i: int|
            0 <= i < r.len() ==> game_of(#[trigger] r[i], usable_records(res.games@)[i]),
        None => r.len() == 0,
    }
}

pub fn games_from_schedule(env: &ApiEnvelope<ScheduleResult>) -> (r: Vec<Game>)
    ensures
        schedule_games(*env, r@),
{
    let res = match &env.result {
        Some(res) => res,
        None => {
            return Vec::new();
        },
    };
    let games = &res.games;
    let mut out: Vec<Game> = Vec::new();
    let mut i: usize = 0;
    while i < games.len()
        invariant
            i <= games.len(),
            out.len() == usable_records(games@.take(i as int)).len(),
            forall|k: int| 0 <= k < out.len() ==> game_of(#[trigger] out@[k], usable_records(games@.take(i as int))[k]),
        decreases games.len() - i,
    {
        let g = &games[i];
        assert(games@.take(i + 1).drop_last() == games@.take(i as int));
        assert(games@.take(i + 1).last() == *g);
        if nonempty(&g.game_id) && nonempty(&g.home_team_code) && nonempty(&g.away_team_code) {
            let id = text_or_empty(&g.game_id);
            let home_code = text_or_empty(&g.home_team_code);
            let away_code = text_or_empty(&g.away_team_code);
            let game = Game {
                id,
                start: g.game_date_time.clone(),
                status: status_of(g),
                status_label: g.status_info.clone(),
                home: Team { code: home_code, name: text_or_empty(&g.home_team_name) },
                away: Team { code: away_code, name: text_or_empty(&g.away_team_name) },
                home_score: g.home_team_score,
                away_score: g.away_team_score,
                away_starter: String::new(),
                home_starter: String::new(),
                stadium: String::new(),
                broadcast: String::new(),
            };
            let ghost before = out@;
            out.push(game);
            assert forall|k: int| 0 <= k < out.len() implies game_of(#[trigger] out@[k], usable_records(games@.take(i + 1))[k]) by {
                if k < before.len() {
                    assert(out@[k] == before[k]);
                }
            }
        } else {
            assert(usable_records(games@.take(i + 1)) == usable_records(games@.take(i as int)) + Seq::<ScheduleGame>::empty());
            assert(usable_records(games@.take(i as int)) + Seq::<ScheduleGame>::empty() == usable_records(games@.take(i as int)));
        }
        i += 1;
    }
    assert(games@.take(games.len() as int) == games@);
    out
}

/// The standing row of `t`: identity, record; the last-five and streak
/// texts are not in this record and stay empty.
pub open spec fn standing_of(s: Standing, t: TeamStat) -> bool {
    &&& s.rank == t.ranking
    &&& s.team.code@ == t.team_id@
    &&& s.team.name@ == t.team_name@
    &&& s.games == t.game_count
    &&& s.wins == t.win_game_count
    &&& s.losses == t.lose_game_count
    &&& s.draws == t.drawn_game_count
    &&& s.last_five@.len() == 0
    &&& s.streak@.len() == 0
}

/// `x` placed after every row whose rank is at most its own.
pub open spec fn insert_by_rank(sorted: Seq<TeamStat>, x: TeamStat) -> Seq<TeamStat>
    decreases sorted.len(),
{
    if sorted.len() == 0 {
        seq![x]
    } else if x.ranking < sorted[0].ranking {
        seq![x] + sorted
    } else {
        seq![sorted[0]] + insert_by_rank(sorted.drop_first(), x)
    }
}

/// The stable sort by rank (`sort_by_key`).
pub open spec fn sort_by_rank(s: Seq<TeamStat>) -> Seq<TeamStat>
    decreases s.len(),
{
    if s.len() == 0 {
        Seq::empty()
    } else {
        insert_by_rank(sort_by_rank(s.drop_last()), s.last())
    }
}

proof fn lemma_insert_by_rank_at(sorted: Seq<TeamStat>, x: TeamStat, p: int)
    requires
        0 <= p <= sorted.len(),
        forall|k: int| 0 <= k < p ==> !(x.ranking < #[trigger] sorted[k].ranking),
        p < sorted.len() ==> x.ranking < sorted[p].ranking,
    ensures
        insert_by_rank(sorted, x) == sorted.insert(p, x),
    decreases sorted.len(),
{
    if sorted.len() == 0 {
        assert(sorted.insert(p, x) == seq![x]);
    } else if p == 0 {
        assert(sorted.insert(0, x) == seq![x] + sorted);
    } else {
        let t = sorted.drop_first();
        assert forall|k: int| 0 <= k < p - 1 implies !(x.ranking < #[trigger] t[k].ranking) by {
            assert(t[k] == sorted[k + 1]);
        }
        if p - 1 < t.len() {
            assert(t[p - 1] == sorted[p]);
        }
        lemma_insert_by_rank_at(t, x, p - 1);
        assert(seq![sorted[0]] + t.insert(p - 1, x) == sorted.insert(p, x));
    }
}

fn sort_stats_by_rank(stats: &Vec<TeamStat>) -> (r: Vec<usize>)
    ensures
        r.len() == stats.len(),
        forall|i: int| 0 <= i < r.len() ==> #[trigger] r@[i] < stats.len(),
        r@.map_values(|j: usize| stats@[j as int]) == sort_by_rank(stats@),
{
    let mut order: Vec<usize> = Vec::new();
    let mut i: usize = 0;
    while i < stats.len()
        invariant
            i <= stats.len(),
            order.len() == i,
            forall|k: int| 0 <= k < order.len() ==> #[trigger] order@[k] < stats.len(),
            order@.map_values(|j: usize| stats@[j as int]) == sort_by_rank(stats@.take(i as int)),
        decreases stats.len() - i,
    {
        let ghost cur = order@.map_values(|j: usize| stats@[j as int]);
        let mut p: usize = 0;
        while p < order.len() && !(stats[i].ranking < stats[order[p]].ranking)
            invariant
                i < stats.len(),
                p <= order.len(),
                forall|k: int| 0 <= k < order.len() ==> #[trigger] order@[k] < stats.len(),
                cur == order@.map_values(|j: usize| stats@[j as int]),
                forall|k: int| 0 <= k < p ==> !(stats@[i as int].ranking < #[trigger] cur[k].ranking),
            decreases order.len() - p,
        {
            p += 1;
        }
        proof {
            lemma_insert_by_rank_at(cur, stats@[i as int], p as int);
            assert(stats@.take(i + 1).drop_last() == stats@.take(i as int));
            assert(stats@.take(i + 1).last() == stats@[i as int]);
        }
        order.insert(p, i);
        assert(order@.map_values(|j: usize| stats@[j as int]) == cur.insert(p as int, stats@[i as int]));
        i += 1;
    }
    assert(stats@.take(stats.len() as int) == stats@);
    order
}

/// The standings of a decoded JSON response, by rank (rows of equal rank keep their
/// order); a missing result is no rows.
/// `r` are the standings rows of the response `env` (see `standings_from_json`).
pub open spec fn standings_rows(env: ApiEnvelope<StandingsResult>, r: Seq<Standing>) -> bool {
    match env.result {
        Some(res) => r.len() == res.season_team_stats.len() && forall|i: int|
            0 <= i < r.len() ==> standing_of(#[trigger] r[i], sort_by_rank(res.season_team_stats@)[i]),
        None => r.len() == 0,
    }
}

pub fn standings_from_json(env: &ApiEnvelope<StandingsResult>) -> (r: Vec<Standing>)
    ensures
        standings_rows(*env, r@),
{
    let res = match &env.result {
        Some(res) => res,
        None => {
            return Vec::new();
        },
    };
    let stats = &res.season_team_stats;
    let order = sort_stats_by_rank(stats);
    let ghost sorted = order@.map_values(|j: usize| stats@[j as int]);
    let mut out: Vec<Standing> = Vec::new();
    let mut i: usize = 0;
    while i < order.len()
        invariant
            i <= order.len() == stats.len(),
            forall|k: int| 0 <= k < order.len() ==> #[trigger] order@[k] < stats.len(),
            sorted == order@.map_values(|j: usize| stats@[j as int]),
            out.len() == i,
            forall|k: int| 0 <= k < i ==> standing_of(#[trigger] out@[k], sorted[k]),
        decreases order.len() - i,
    {
        let t = &stats[order[i]];
        assert(sorted[i as int] == *t);
        out.push(Standing {
            rank: t.ranking,
            team: Team { code: t.team_id.clone(), name: t.team_name.clone() },
            games: t.game_count,
            wins: t.win_game_count,
            losses: t.lose_game_count,
            draws: t.drawn_game_count,
            last_five: String::new(),
            streak: String::new(),
        });
        i += 1;
    }
    out
}

/// A scoreboard number: the trimmed text as a `u8`, zero when it is not one.
pub open spec fn spec_lenient_u8(s: Seq<char>) -> int {
    match parse_int(trim(s), false, 0, u8::MAX as int) {
        Some(v) => v,
        None => 0,
    }
}

pub open spec fn spec_lenient_u16(s: Seq<char>) -> int {
    match parse_int(trim(s), false, 0, u16::MAX as int) {
        Some(v) => v,
        None => 0,
    }
}

pub fn parse_u8(s: &str) -> (r: u8)
    ensures
        r == spec_lenient_u8(s@),
{
    let t = trim_chars(&chars_of(s));
    match parse_u8_chars(&t) {
        Some(v) => v,
        None => 0,
    }
}

pub fn parse_u16(s: &str) -> (r: u16)
    ensures
        r == spec_lenient_u16(s@),
{
    let t = trim_chars(&chars_of(s));
    match parse_u16_chars(&t) {
        Some(v) => v,
        None => 0,
    }
}

/// A base is occupied when its runner id is neither empty nor "0".
pub open spec fn spec_base_on(s: Seq<char>) -> bool {
    trim(s) != "0"@ && trim(s).len() > 0
}

pub fn base_on(s: &str) -> (r: bool)
    ensures
        r == spec_base_on(s@),
{
    let t = trim_chars(&chars_of(s));
    !text_is(&t, "0") && t.len() > 0
}

/// `HH:MM:SS` of a pitch id `YYMMDD_HHMMSS`; none for any other shape.
pub open spec fn spec_time_from_pitch_id(id: Seq<char>) -> Option<Seq<char>> {
    match split_once(id, '_') {
        Some((d, t)) => if d.len() == 6 && t.len() == 6 && all_digits(d) && all_digits(t) {
            Some(t.take(2) + seq![':'] + t.subrange(2, 4) + seq![':'] + t.subrange(4, 6))
        } else {
            None
        },
        None => None,
    }
}

/// `HH:MM` of a pitch id, under the same conditions.
pub open spec fn spec_hm_from_pitch_id(id: Seq<char>) -> Option<Seq<char>> {
    match spec_time_from_pitch_id(id) {
        Some(t) => Some(t.take(5)),
        None => None,
    }
}

fn all_digit_chars(s: &[char]) -> (r: bool)
    ensures
        r == all_digits(s@),
{
    let mut i: usize = 0;
    while i < s.len()
        invariant
            i <= s.len(),
            forall|j: int| 0 <= j < i ==> is_ascii_digit(#[trigger] s@[j]),
        decreases s.len() - i,
    {
        if !crate::strutil::char_is_ascii_digit(s[i]) {
            return false;
        }
        i += 1;
    }
    true
}

fn time_chars(id: &[char]) -> (r: Option<Vec<char>>)
    ensures
        match spec_time_from_pitch_id(id@) {
            Some(t) => r matches Some(v) && v@ == t,
            None => r is None,
        },
{
    let (d, t) = match chars_split_once(id, '_') {
        Some(p) => p,
        None => {
            return None;
        },
    };
    if d.len() != 6 || t.len() != 6 || !all_digit_chars(&d) || !all_digit_chars(&t) {
        return None;
    }
    let mut out: Vec<char> = Vec::new();
    out.push(t[0]);
    out.push(t[1]);
    out.push(':');
    out.push(t[2]);
    out.push(t[3]);
    out.push(':');
    out.push(t[4]);
    out.push(t[5]);
    assert(out@ == t@.take(2) + seq![':'] + t@.subrange(2, 4) + seq![':'] + t@.subrange(4, 6));
    Some(out)
}

pub fn time_from_pitch_id(id: &str) -> (r: Option<String>)
    ensures
        opt_text(r) == spec_time_from_pitch_id(id@),
{
    match time_chars(&chars_of(id)) {
        Some(v) => Some(string_from_chars(&v)),
        None => None,
    }
}

fn hm_from_pitch_id(id: &str) -> (r: Option<String>)
    ensures
        opt_text(r) == spec_hm_from_pitch_id(id@),
{
    match time_chars(&chars_of(id)) {
        Some(v) => Some(string_from_chars(&slice_range(&v, 0, 5))),
        None => None,
    }
}

/// `p` occurs in `s` at index `i`.
pub open spec fn occurs_at(s: Seq<char>, p: Seq<char>, i: int) -> bool {
    0 <= i && i + p.len() <= s.len() && s.skip(i).take(p.len() as int) == p
}

/// `str::contains`.
pub open spec fn contains_text(s: Seq<char>, p: Seq<char>) -> bool {
    exists|i: int| #[trigger] occurs_at(s, p, i)
}

fn contains_chars(s: &[char], p: &str) -> (r: bool)
    ensures
        r == contains_text(s@, p@),
{
    let pv = chars_of(p);
    if pv.len() == 0 {
        assert(s@.skip(0).take(0) == pv@);
        assert(occurs_at(s@, pv@, 0));
        return true;
    }
    let mut i: usize = 0;
    while i < s.len() && pv.len() <= s.len() - i
        invariant
            pv@ == p@,
            pv.len() > 0,
            i <= s.len(),
            forall|j: int| 0 <= j < i ==> !#[trigger] occurs_at(s@, pv@, j),
        decreases s.len() - i,
    {
        if matches_at(s, i, &pv) {
            assert(occurs_at(s@, pv@, i as int));
            return true;
        }
        i += 1;
    }
    proof {
        assert forall|j: int| !#[trigger] occurs_at(s@, pv@, j) by {
            if 0 <= j && j < i {
            }
        }
    }
    false
}

/// The pitch result a relay text names: a swinging strike, a called strike
/// (`루킹`, `스트라이크`), a foul, a ball, a ball in play (`타`, `아웃`,
/// `홈런`), tested in that order.
pub open spec fn spec_result_of(text: Seq<char>) -> PitchResult {
    if contains_text(text, "헛스윙"@) {
        PitchResult::StrikeSwinging
    } else if contains_text(text, "루킹"@) || contains_text(text, "스트라이크"@) {
        PitchResult::StrikeLooking
    } else if contains_text(text, "파울"@) {
        PitchResult::Foul
    } else if contains_text(text, "볼"@) {
        PitchResult::Ball
    } else if contains_text(text, "타"@) || contains_text(text, "아웃"@) || contains_text(text, "홈런"@) {
        PitchResult::InPlay
    } else {
        PitchResult::Unknown
    }
}

pub fn result_of(text: &str) -> (r: PitchResult)
    ensures
        r == spec_result_of(text@),
{
    let t = chars_of(text);
    result_of_chars(&t)
}

fn result_of_chars(t: &[char]) -> (r: PitchResult)
    ensures
        r == spec_result_of(t@),
{
    if contains_chars(t, "헛스윙") {
        PitchResult::StrikeSwinging
    } else if contains_chars(t, "루킹") || contains_chars(t, "스트라이크") {
        PitchResult::StrikeLooking
    } else if contains_chars(t, "파울") {
        PitchResult::Foul
    } else if contains_chars(t, "볼") {
        PitchResult::Ball
    } else if contains_chars(t, "타") || contains_chars(t, "아웃") || contains_chars(t, "홈런") {
        PitchResult::InPlay
    } else {
        PitchResult::Unknown
    }
}

/// The kind of relay line that announces a batter.
pub const BATTER_ANNOUNCEMENT_TYPE: i32 = 8;

/// An entry counts as an at-bat when it has measured pitches or announces a
/// batter (notices such as an inning start do not).
pub open spec fn spec_is_at_bat_worthy(t: TextRelay) -> bool {
    t.pts_options@.len() > 0 || exists|i: int| 0 <= i < t.text_options@.len() && #[trigger] t.text_options@[i].type_code == BATTER_ANNOUNCEMENT_TYPE
}

pub fn is_at_bat_worthy(t: &TextRelay) -> (r: bool)
    ensures
        r == spec_is_at_bat_worthy(*t),
{
    if t.pts_options.len() > 0 {
        return true;
    }
    let mut i: usize = 0;
    while i < t.text_options.len()
        invariant
            i <= t.text_options.len(),
            forall|j: int| 0 <= j < i ==> #[trigger] t.text_options@[j].type_code != BATTER_ANNOUNCEMENT_TYPE,
        decreases t.text_options.len() - i,
    {
        if t.text_options[i].type_code == BATTER_ANNOUNCEMENT_TYPE {
            return true;
        }
        i += 1;
    }
    false
}

/// `T9` (top), `B9` (bottom), or `Inn 9` when the half is unknown.
pub open spec fn spec_inning_label(t: TextRelay) -> Seq<char> {
    if t.home_or_away@ == "0"@ {
        seq!['T'] + fmt_int(t.inn as int, 0)
    } else if t.home_or_away@ == "1"@ {
        seq!['B'] + fmt_int(t.inn as int, 0)
    } else {
        seq!['I', 'n', 'n', ' '] + fmt_int(t.inn as int, 0)
    }
}

pub fn inning_label_of(t: &TextRelay) -> (r: String)
    ensures
        r@ == spec_inning_label(*t),
{
    let h = chars_of(t.home_or_away.as_str());
    let mut out: Vec<char> = if text_is(&h, "0") {
        vec!['T']
    } else if text_is(&h, "1") {
        vec!['B']
    } else {
        vec!['I', 'n', 'n', ' ']
    };
    push_int(&mut out, t.inn as i64, 0);
    string_from_chars(&out)
}

/// Index of the first measured pitch whose id is `id` (none for an empty id).
pub open spec fn pitch_index(pts: Seq<PtsOption>, id: Seq<char>, from: int) -> Option<int>
    decreases pts.len() - from,
{
    if id.len() == 0 || from < 0 || from >= pts.len() {
        None
    } else if pts[from].pitch_id@ == id {
        Some(from)
    } else {
        pitch_index(pts, id, from + 1)
    }
}

pub open spec fn idx_view(o: Option<usize>) -> Option<int> {
    match o {
        Some(i) => Some(i as int),
        None => None,
    }
}

pub fn pitch_idx_of_line(t: &TextRelay, pts_pitch_id: &str) -> (r: Option<usize>)
    ensures
        idx_view(r) == pitch_index(t.pts_options@, pts_pitch_id@, 0),
{
    let id = chars_of(pts_pitch_id);
    if id.len() == 0 {
        return None;
    }
    let mut i: usize = 0;
    while i < t.pts_options.len()
        invariant
            i <= t.pts_options.len(),
            id@ == pts_pitch_id@,
            id@.len() > 0,
            pitch_index(t.pts_options@, id@, 0) == pitch_index(t.pts_options@, id@, i as int),
        decreases t.pts_options.len() - i,
    {
        let pid = chars_of(t.pts_options[i].pitch_id.as_str());
        if chars_eq(&pid, &id) {
            return Some(i);
        }
        i += 1;
    }
    None
}

/// The relay lines of an entry, oldest first, blank ones left out.
pub open spec fn kept_options(opts: Seq<TextOption>) -> Seq<TextOption>
    decreases opts.len(),
{
    if opts.len() == 0 {
        Seq::empty()
    } else {
        kept_options(opts.drop_last()) + (if trim(opts.last().text@).len() > 0 {
            seq![opts.last()]
        } else {
            Seq::empty()
        })
    }
}

/// `l` is the relay line of option `o` of entry `t`.
pub open spec fn line_of(l: RelayLine, t: TextRelay, o: TextOption) -> bool {
    &&& l.text@ == o.text@
    &&& idx_view(l.pitch_idx) == pitch_index(t.pts_options@, o.pts_pitch_id@, 0)
    &&& l.is_pitch == (o.pts_pitch_id@.len() > 0)
    &&& opt_text(l.time_hm) == spec_hm_from_pitch_id(o.pts_pitch_id@)
}

pub open spec fn lines_of(ls: Seq<RelayLine>, t: TextRelay) -> bool {
    &&& ls.len() == kept_options(t.text_options@).len()
    &&& forall|i: int| 0 <= i < ls.len() ==> line_of(#[trigger] ls[i], t, kept_options(t.text_options@)[i])
}

pub fn relay_lines_of(t: &TextRelay) -> (r: Vec<RelayLine>)
    ensures
        lines_of(r@, *t),
{
    let opts = &t.text_options;
    let mut out: Vec<RelayLine> = Vec::new();
    let mut i: usize = 0;
    while i < opts.len()
        invariant
            i <= opts.len(),
            opts@ == t.text_options@,
            out.len() == kept_options(opts@.take(i as int)).len(),
            forall|k: int| 0 <= k < out.len() ==> line_of(#[trigger] out@[k], *t, kept_options(opts@.take(i as int))[k]),
        decreases opts.len() - i,
    {
        let o = &opts[i];
        assert(opts@.take(i + 1).drop_last() == opts@.take(i as int));
        assert(opts@.take(i + 1).last() == *o);
        let trimmed = trim_chars(&chars_of(o.text.as_str()));
        if trimmed.len() > 0 {
            let pid = chars_of(o.pts_pitch_id.as_str());
            let line = RelayLine {
                text: o.text.clone(),
                pitch_idx: pitch_idx_of_line(t, o.pts_pitch_id.as_str()),
                is_pitch: pid.len() > 0,
                time_hm: hm_from_pitch_id(o.pts_pitch_id.as_str()),
            };
            let ghost before = out@;
            out.push(line);
            assert forall|k: int| 0 <= k < out.len() implies line_of(#[trigger] out@[k], *t, kept_options(opts@.take(i + 1))[k]) by {
                if k < before.len() {
                    assert(out@[k] == before[k]);
                }
            }
        } else {
            assert(kept_options(opts@.take(i as int)) + Seq::<TextOption>::empty() == kept_options(opts@.take(i as int)));
        }
        i += 1;
    }
    assert(opts@.take(opts.len() as int) == opts@);
    out
}

/// `"{n}구"`, the prefix of the relay text of pitch number `n`.
pub open spec fn ball_prefix(n: u8) -> Seq<char> {
    fmt_int(n as int, 0) + "구"@
}

/// Index of the first line whose pitch id is `id` (none for an empty id).
pub open spec fn line_with_pitch_id(opts: Seq<TextOption>, id: Seq<char>, from: int) -> Option<int>
    decreases opts.len() - from,
{
    if from < 0 || from >= opts.len() {
        None
    } else if opts[from].pts_pitch_id@.len() > 0 && opts[from].pts_pitch_id@ == id {
        Some(from)
    } else {
        line_with_pitch_id(opts, id, from + 1)
    }
}

/// Index of the first line starting with `prefix`.
pub open spec fn line_with_prefix(opts: Seq<TextOption>, prefix: Seq<char>, from: int) -> Option<int>
    decreases opts.len() - from,
{
    if from < 0 || from >= opts.len() {
        None
    } else if starts_with(opts[from].text@, prefix) {
        Some(from)
    } else {
        line_with_prefix(opts, prefix, from + 1)
    }
}

/// The relay text of a measured pitch: the line that names its id, else the
/// first line that starts with its number (`"3구"`), else empty.
pub open spec fn pitch_text(t: TextRelay, p: PtsOption) -> Seq<char> {
    match line_with_pitch_id(t.text_options@, p.pitch_id@, 0) {
        Some(i) => t.text_options@[i].text@,
        None => match line_with_prefix(t.text_options@, ball_prefix(p.ballcount), 0) {
            Some(i) => t.text_options@[i].text@,
            None => Seq::empty(),
        },
    }
}

pub open spec fn pitch_of(x: Pitch, t: TextRelay, p: PtsOption) -> bool {
    &&& x.order == p.ballcount
    &&& x.speed_kmh == p.speed_kmh
    &&& x.text@ == pitch_text(t, p)
    &&& x.result == spec_result_of(pitch_text(t, p))
    &&& opt_text(x.time_hms) == spec_time_from_pitch_id(p.pitch_id@)
}

pub open spec fn pitches_of_entry(xs: Seq<Pitch>, t: TextRelay) -> bool {
    &&& xs.len() == t.pts_options@.len()
    &&& forall|i: int| 0 <= i < xs.len() ==> pitch_of(#[trigger] xs[i], t, t.pts_options@[i])
}

fn text_of_pitch(t: &TextRelay, p: &PtsOption) -> (r: String)
    ensures
        r@ == pitch_text(*t, *p),
{
    let opts = &t.text_options;
    let id = chars_of(p.pitch_id.as_str());
    let mut i: usize = 0;
    while i < opts.len()
        invariant
            i <= opts.len(),
            opts@ == t.text_options@,
            id@ == p.pitch_id@,
            line_with_pitch_id(opts@, id@, 0) == line_with_pitch_id(opts@, id@, i as int),
        decreases opts.len() - i,
    {
        let pid = chars_of(opts[i].pts_pitch_id.as_str());
        if pid.len() > 0 && chars_eq(&pid, &id) {
            return opts[i].text.clone();
        }
        i += 1;
    }
    let mut prefix: Vec<char> = Vec::new();
    push_int(&mut prefix, p.ballcount as i64, 0);
    let gu = chars_of("구");
    let mut k: usize = 0;
    let ghost p0 = prefix@;
    while k < gu.len()
        invariant
            k <= gu.len(),
            prefix@ == p0 + gu@.take(k as int),
        decreases gu.len() - k,
    {
        prefix.push(gu[k]);
        k += 1;
        assert(gu@.take(k as int) == gu@.take(k - 1).push(gu@[k - 1]));
    }
    assert(gu@.take(gu.len() as int) == gu@);
    assert(prefix@ == ball_prefix(p.ballcount));
    let mut j: usize = 0;
    while j < opts.len()
        invariant
            j <= opts.len(),
            opts@ == t.text_options@,
            prefix@ == ball_prefix(p.ballcount),
            line_with_pitch_id(opts@, p.pitch_id@, 0) is None,
            line_with_prefix(opts@, prefix@, 0) == line_with_prefix(opts@, prefix@, j as int),
        decreases opts.len() - j,
    {
        let text = chars_of(opts[j].text.as_str());
        if chars_starts_with(&text, &prefix) {
            return opts[j].text.clone();
        }
        j += 1;
    }
    String::new()
}

pub fn pitches_of(t: &TextRelay) -> (r: Vec<Pitch>)
    ensures
        pitches_of_entry(r@, *t),
{
    let mut out: Vec<Pitch> = Vec::new();
    let mut i: usize = 0;
    while i < t.pts_options.len()
        invariant
            i <= t.pts_options.len(),
            out.len() == i,
            forall|k: int| 0 <= k < i ==> pitch_of(#[trigger] out@[k], *t, t.pts_options@[k]),
        decreases t.pts_options.len() - i,
    {
        let p = &t.pts_options[i];
        let text = text_of_pitch(t, p);
        let result = result_of(text.as_str());
        out.push(Pitch {
            order: p.ballcount,
            speed_kmh: p.speed_kmh,
            result,
            text,
            time_hms: time_from_pitch_id(p.pitch_id.as_str()),
        });
        i += 1;
    }
    out
}

/// Index of the first line of kind `k`.
pub open spec fn line_of_kind(opts: Seq<TextOption>, k: i32, from: int) -> Option<int>
    decreases opts.len() - from,
{
    if from < 0 || from >= opts.len() {
        None
    } else if opts[from].type_code == k {
        Some(from)
    } else {
        line_of_kind(opts, k, from + 1)
    }
}

/// Index of the first occurrence of `p` in `s` at or after `from`.
pub open spec fn find_text(s: Seq<char>, p: Seq<char>, from: int) -> Option<int>
    decreases s.len() + 1 - from,
{
    if from < 0 || from > s.len() {
        None
    } else if occurs_at(s, p, from) {
        Some(from)
    } else {
        find_text(s, p, from + 1)
    }
}

/// The batter's name in the entry's announcement ("9번타자 천성호" gives
/// "천성호"; an announcement of another shape is kept whole); empty without
/// an announcement.
pub open spec fn spec_batter_name(t: TextRelay) -> Seq<char> {
    match line_of_kind(t.text_options@, BATTER_ANNOUNCEMENT_TYPE, 0) {
        None => Seq::empty(),
        Some(i) => {
            let text = t.text_options@[i].text@;
            match find_text(text, "번타자 "@, 0) {
                Some(k) => trim(text.skip(k + "번타자 "@.len())),
                None => text,
            }
        },
    }
}

proof fn lemma_find_text_none_past(s: Seq<char>, p: Seq<char>, k: int)
    requires
        0 <= k,
        k + p.len() > s.len(),
    ensures
        find_text(s, p, k) is None,
    decreases s.len() + 1 - k,
{
    if k <= s.len() {
        assert(!occurs_at(s, p, k));
        lemma_find_text_none_past(s, p, k + 1);
    }
}

pub fn batter_name_of(t: &TextRelay) -> (r: String)
    ensures
        r@ == spec_batter_name(*t),
{
    let opts = &t.text_options;
    let mut i: usize = 0;
    while i < opts.len()
        invariant
            i <= opts.len(),
            opts@ == t.text_options@,
            line_of_kind(opts@, BATTER_ANNOUNCEMENT_TYPE, 0) == line_of_kind(opts@, BATTER_ANNOUNCEMENT_TYPE, i as int),
        decreases opts.len() - i,
    {
        if opts[i].type_code == BATTER_ANNOUNCEMENT_TYPE {
            let text = chars_of(opts[i].text.as_str());
            let sep = chars_of("번타자 ");
            proof {
                reveal_strlit("번타자 ");
            }
            assert(sep.len() > 0);
            let mut k: usize = 0;
            while k < text.len() && sep.len() <= text.len() - k
                invariant
                    i < opts.len(),
                    opts@ == t.text_options@,
                    opts@[i as int].type_code == BATTER_ANNOUNCEMENT_TYPE,
                    line_of_kind(opts@, BATTER_ANNOUNCEMENT_TYPE, 0) == line_of_kind(opts@, BATTER_ANNOUNCEMENT_TYPE, i as int),
                    text@ == opts@[i as int].text@,
                    k <= text.len(),
                    sep.len() > 0,
                    sep@ == "번타자 "@,
                    find_text(text@, sep@, 0) == find_text(text@, sep@, k as int),
                decreases text.len() - k,
            {
                if matches_at(&text, k, &sep) {
                    assert(occurs_at(text@, sep@, k as int));
                    let rest = slice_range(&text, k + sep.len(), text.len());
                    assert(rest@ == text@.skip(k + sep@.len()));
                    return string_from_chars(&trim_chars(&rest));
                }
                k += 1;
            }
            proof {
                lemma_find_text_none_past(text@, sep@, k as int);
            }
            return opts[i].text.clone();
        }
        i += 1;
    }
    String::new()
}

pub open spec fn at_bat_of_entry(ab: AtBat, t: TextRelay) -> bool {
    &&& ab.seq == t.no
    &&& ab.batter_name@ == spec_batter_name(t)
    &&& ab.inning_label@ == spec_inning_label(t)
    &&& lines_of(ab.relay_lines@, t)
    &&& pitches_of_entry(ab.pitches@, t)
}

pub fn at_bat_of(t: &TextRelay) -> (r: AtBat)
    ensures
        at_bat_of_entry(r, *t),
{
    AtBat {
        seq: t.no,
        batter_name: batter_name_of(t),
        inning_label: inning_label_of(t),
        relay_lines: relay_lines_of(t),
        pitches: pitches_of(t),
    }
}

/// The entries that count as at-bats, in the response's order (newest first).
pub open spec fn worthy_entries(s: Seq<TextRelay>) -> Seq<TextRelay>
    decreases s.len(),
{
    if s.len() == 0 {
        Seq::empty()
    } else {
        worthy_entries(s.drop_last()) + (if spec_is_at_bat_worthy(s.last()) {
            seq![s.last()]
        } else {
            Seq::empty()
        })
    }
}

/// `abs` are the at-bats of the entries, oldest first.
pub open spec fn at_bats_of_entries(abs: Seq<AtBat>, relays: Seq<TextRelay>) -> bool {
    let w = worthy_entries(relays);
    &&& abs.len() == w.len()
    &&& forall|i: int| 0 <= i < abs.len() ==> at_bat_of_entry(#[trigger] abs[i], w[w.len() - 1 - i])
}

pub fn at_bats_of(text_relays: &Vec<TextRelay>) -> (r: Vec<AtBat>)
    ensures
        at_bats_of_entries(r@, text_relays@),
{
    let mut newest_first: Vec<AtBat> = Vec::new();
    let mut i: usize = 0;
    while i < text_relays.len()
        invariant
            i <= text_relays.len(),
            newest_first.len() == worthy_entries(text_relays@.take(i as int)).len(),
            forall|k: int| 0 <= k < newest_first.len() ==> at_bat_of_entry(#[trigger] newest_first@[k], worthy_entries(text_relays@.take(i as int))[k]),
        decreases text_relays.len() - i,
    {
        let t = &text_relays[i];
        assert(text_relays@.take(i + 1).drop_last() == text_relays@.take(i as int));
        assert(text_relays@.take(i + 1).last() == *t);
        if is_at_bat_worthy(t) {
            let ab = at_bat_of(t);
            let ghost before = newest_first@;
            newest_first.push(ab);
            assert forall|k: int| 0 <= k < newest_first.len() implies at_bat_of_entry(#[trigger] newest_first@[k], worthy_entries(text_relays@.take(i + 1))[k]) by {
                if k < before.len() {
                    assert(newest_first@[k] == before[k]);
                }
            }
        } else {
            assert(worthy_entries(text_relays@.take(i as int)) + Seq::<TextRelay>::empty() == worthy_entries(text_relays@.take(i as int)));
        }
        i += 1;
    }
    assert(text_relays@.take(text_relays.len() as int) == text_relays@);
    let ghost w = worthy_entries(text_relays@);
    let mut out: Vec<AtBat> = Vec::new();
    while newest_first.len() > 0
        invariant
            newest_first.len() + out.len() == w.len(),
            forall|k: int| 0 <= k < newest_first.len() ==> at_bat_of_entry(#[trigger] newest_first@[k], w[k]),
            forall|k: int| 0 <= k < out.len() ==> at_bat_of_entry(#[trigger] out@[k], w[w.len() - 1 - k]),
        decreases newest_first.len(),
    {
        let ghost nf = newest_first@;
        let ab = newest_first.pop().unwrap();
        assert(at_bat_of_entry(ab, w[nf.len() - 1]));
        let ghost before = out@;
        out.push(ab);
        assert forall|k: int| 0 <= k < newest_first.len() implies at_bat_of_entry(#[trigger] newest_first@[k], w[k]) by {
            assert(newest_first@[k] == nf[k]);
        }
        assert forall|k: int| 0 <= k < out.len() implies at_bat_of_entry(#[trigger] out@[k], w[w.len() - 1 - k]) by {
            if k < before.len() {
                assert(out@[k] == before[k]);
            }
        }
    }
    out
}

/// The name of the first player whose id is `id`.
pub open spec fn name_in(ps: Seq<Player>, id: Seq<char>, from: int) -> Option<Seq<char>>
    decreases ps.len() - from,
{
    if from < 0 || from >= ps.len() {
        None
    } else if ps[from].pcode@ == id {
        Some(ps[from].name@)
    } else {
        name_in(ps, id, from + 1)
    }
}

/// The name of player `id` in a lineup: batters first, then pitchers.
pub open spec fn name_in_lineup(l: Option<Lineup>, id: Seq<char>) -> Option<Seq<char>> {
    match l {
        None => None,
        Some(lu) => match name_in(lu.batter@, id, 0) {
            Some(n) => Some(n),
            None => name_in(lu.pitcher@, id, 0),
        },
    }
}

/// The name of player `id`, home lineup first; empty for an empty id (an
/// empty id would match a player whose own id is missing) or an unknown one.
pub open spec fn spec_name_of(id: Seq<char>, home: Option<Lineup>, away: Option<Lineup>) -> Seq<char> {
    if id.len() == 0 {
        Seq::empty()
    } else {
        match name_in_lineup(home, id) {
            Some(n) => n,
            None => match name_in_lineup(away, id) {
                Some(n) => n,
                None => Seq::empty(),
            },
        }
    }
}

fn find_name(ps: &Vec<Player>, id: &[char]) -> (r: Option<String>)
    ensures
        opt_text(r) == name_in(ps@, id@, 0),
{
    let mut i: usize = 0;
    while i < ps.len()
        invariant
            i <= ps.len(),
            name_in(ps@, id@, 0) == name_in(ps@, id@, i as int),
        decreases ps.len() - i,
    {
        let code = chars_of(ps[i].pcode.as_str());
        if chars_eq(&code, id) {
            return Some(ps[i].name.clone());
        }
        i += 1;
    }
    None
}

fn find_in_lineup(l: &Option<Lineup>, id: &[char]) -> (r: Option<String>)
    ensures
        opt_text(r) == name_in_lineup(*l, id@),
{
    match l {
        None => None,
        Some(lu) => match find_name(&lu.batter, id) {
            Some(n) => Some(n),
            None => find_name(&lu.pitcher, id),
        },
    }
}

pub fn name_of(id: &str, home: &Option<Lineup>, away: &Option<Lineup>) -> (r: String)
    ensures
        r@ == spec_name_of(id@, *home, *away),
{
    let idv = chars_of(id);
    if idv.len() == 0 {
        return String::new();
    }
    match find_in_lineup(home, &idv) {
        Some(n) => n,
        None => match find_in_lineup(away, &idv) {
            Some(n) => n,
            None => String::new(),
        },
    }
}

/// The at-bats of a past inning's response, oldest first; an error when the
/// response carries no relay data.
pub fn at_bats_from_relay(env: &ApiEnvelope<RelayResult>) -> (r: Result<Vec<AtBat>, Error>)
    ensures
        match env.result {
            Some(res) => match res.text_relay_data {
                Some(trd) => r matches Ok(v) && at_bats_of_entries(v@, trd.text_relays@),
                None => r matches Err(Error::Data(m)) && m@ == "no textRelayData"@,
            },
            None => r matches Err(Error::Data(m)) && m@ == "no textRelayData"@,
        },
{
    broadcast use vstd::string::group_string_axioms;
    match &env.result {
        Some(res) => match &res.text_relay_data {
            Some(trd) => Ok(at_bats_of(&trd.text_relays)),
            None => Err(Error::Data("no textRelayData".to_string())),
        },
        None => Err(Error::Data("no textRelayData".to_string())),
    }
}

/// The scoreboard texts, all empty when the response has no scoreboard.
#[verifier::ext_equal]
pub struct GameStateText {
    pub home_score: Seq<char>,
    pub away_score: Seq<char>,
    pub strike: Seq<char>,
    pub ball: Seq<char>,
    pub out: Seq<char>,
    pub base1: Seq<char>,
    pub base2: Seq<char>,
    pub base3: Seq<char>,
    pub pitcher: Seq<char>,
    pub batter: Seq<char>,
}

pub open spec fn state_text(o: Option<CurrentGameState>) -> GameStateText {
    match o {
        Some(c) => GameStateText {
            home_score: c.home_score@,
            away_score: c.away_score@,
            strike: c.strike@,
            ball: c.ball@,
            out: c.out@,
            base1: c.base1@,
            base2: c.base2@,
            base3: c.base3@,
            pitcher: c.pitcher@,
            batter: c.batter@,
        },
        None => GameStateText {
            home_score: Seq::empty(),
            away_score: Seq::empty(),
            strike: Seq::empty(),
            ball: Seq::empty(),
            out: Seq::empty(),
            base1: Seq::empty(),
            base2: Seq::empty(),
            base3: Seq::empty(),
            pitcher: Seq::empty(),
            batter: Seq::empty(),
        },
    }
}

/// Index of the first entry that counts as an at-bat.
pub open spec fn first_worthy(s: Seq<TextRelay>, from: int) -> Option<int>
    decreases s.len() - from,
{
    if from < 0 || from >= s.len() {
        None
    } else if spec_is_at_bat_worthy(s[from]) {
        Some(from)
    } else {
        first_worthy(s, from + 1)
    }
}

/// The current at-bat: the newest entry that counts as one, else the newest entry.
pub open spec fn current_entry(s: Seq<TextRelay>) -> Option<int> {
    match first_worthy(s, 0) {
        Some(i) => Some(i),
        None => if s.len() > 0 { Some(0) } else { None },
    }
}

/// The lineup at bat in entry `t`: away in the top half, home in the bottom.
pub open spec fn batting_lineup(trd: TextRelayData, cur: Option<int>) -> Option<Lineup> {
    match cur {
        Some(i) => if trd.text_relays@[i].home_or_away@ == "0"@ {
            trd.away_lineup
        } else if trd.text_relays@[i].home_or_away@ == "1"@ {
            trd.home_lineup
        } else {
            None
        },
        None => None,
    }
}

/// Index of the first batter whose id is `id`.
pub open spec fn batter_with_id(bs: Seq<Player>, id: Seq<char>, from: int) -> Option<int>
    decreases bs.len() - from,
{
    if from < 0 || from >= bs.len() {
        None
    } else if bs[from].pcode@ == id {
        Some(from)
    } else {
        batter_with_id(bs, id, from + 1)
    }
}

/// Index of the first batter in batting-order slot `o`.
pub open spec fn batter_in_slot(bs: Seq<Player>, o: int, from: int) -> Option<int>
    decreases bs.len() - from,
{
    if from < 0 || from >= bs.len() {
        None
    } else if bs[from].bat_order == o {
        Some(from)
    } else {
        batter_in_slot(bs, o, from + 1)
    }
}

/// The next batter: the first in the slot after the current batter's (9
/// wraps to 1); empty when the batter, his slot or the next one is unknown.
pub open spec fn spec_next_batter(lu: Option<Lineup>, batter: Seq<char>) -> Seq<char> {
    match lu {
        None => Seq::empty(),
        Some(l) => if batter.len() == 0 {
            Seq::empty()
        } else {
            match batter_with_id(l.batter@, batter, 0) {
                None => Seq::empty(),
                Some(i) => if l.batter@[i].bat_order == 0 {
                    Seq::empty()
                } else {
                    match batter_in_slot(l.batter@, l.batter@[i].bat_order % 9 + 1, 0) {
                        Some(j) => l.batter@[j].name@,
                        None => Seq::empty(),
                    }
                },
            }
        },
    }
}

/// `s` is the live state of relay data `trd` between `home` and `away`.
pub open spec fn live_of(s: LiveState, trd: TextRelayData, home: Team, away: Team) -> bool {
    let g = state_text(trd.current_game_state);
    let cur = current_entry(trd.text_relays@);
    &&& s.home == home
    &&& s.away == away
    &&& s.count.ball == spec_lenient_u8(g.ball)
    &&& s.count.strike == spec_lenient_u8(g.strike)
    &&& s.count.out == spec_lenient_u8(g.out)
    &&& s.bases.first == spec_base_on(g.base1)
    &&& s.bases.second == spec_base_on(g.base2)
    &&& s.bases.third == spec_base_on(g.base3)
    &&& s.home_score == spec_lenient_u16(g.home_score)
    &&& s.away_score == spec_lenient_u16(g.away_score)
    &&& s.pitcher_name@ == spec_name_of(g.pitcher, trd.home_lineup, trd.away_lineup)
    &&& s.batter_name@ == spec_name_of(g.batter, trd.home_lineup, trd.away_lineup)
    &&& match cur {
        Some(i) => s.inning_label@ == spec_inning_label(trd.text_relays@[i])
            && lines_of(s.relay_log@, trd.text_relays@[i])
            && pitches_of_entry(s.current_pitches@, trd.text_relays@[i]),
        None => s.inning_label@.len() == 0 && s.relay_log@.len() == 0 && s.current_pitches@.len() == 0,
    }
    &&& at_bats_of_entries(s.at_bats@, trd.text_relays@)
    &&& s.next_batter_name@ == spec_next_batter(batting_lineup(trd, cur), g.batter)
    &&& s.inning_score@.len() == 0
}

fn state_or_default(o: &Option<CurrentGameState>) -> (r: CurrentGameState)
    ensures
        state_text(Some(r)) == state_text(*o),
{
    let r = match o {
        Some(c) => CurrentGameState {
            home_score: c.home_score.clone(),
            away_score: c.away_score.clone(),
            strike: c.strike.clone(),
            ball: c.ball.clone(),
            out: c.out.clone(),
            base1: c.base1.clone(),
            base2: c.base2.clone(),
            base3: c.base3.clone(),
            pitcher: c.pitcher.clone(),
            batter: c.batter.clone(),
        },
        None => CurrentGameState::default(),
    };
    assert(state_text(Some(r)) =~= state_text(*o));
    r
}

fn current_index(s: &Vec<TextRelay>) -> (r: Option<usize>)
    ensures
        idx_view(r) == current_entry(s@),
        r matches Some(i) ==> i < s.len(),
{
    let mut i: usize = 0;
    while i < s.len()
        invariant
            i <= s.len(),
            first_worthy(s@, 0) == first_worthy(s@, i as int),
        decreases s.len() - i,
    {
        if is_at_bat_worthy(&s[i]) {
            return Some(i);
        }
        i += 1;
    }
    if s.len() > 0 {
        Some(0)
    } else {
        None
    }
}

fn batter_index(bs: &Vec<Player>, id: &[char]) -> (r: Option<usize>)
    ensures
        idx_view(r) == batter_with_id(bs@, id@, 0),
        r matches Some(i) ==> i < bs.len(),
{
    let mut i: usize = 0;
    while i < bs.len()
        invariant
            i <= bs.len(),
            batter_with_id(bs@, id@, 0) == batter_with_id(bs@, id@, i as int),
        decreases bs.len() - i,
    {
        let code = chars_of(bs[i].pcode.as_str());
        if chars_eq(&code, id) {
            return Some(i);
        }
        i += 1;
    }
    None
}

fn slot_index(bs: &Vec<Player>, o: u8) -> (r: Option<usize>)
    ensures
        idx_view(r) == batter_in_slot(bs@, o as int, 0),
        r matches Some(i) ==> i < bs.len(),
{
    let mut j: usize = 0;
    while j < bs.len()
        invariant
            j <= bs.len(),
            batter_in_slot(bs@, o as int, 0) == batter_in_slot(bs@, o as int, j as int),
        decreases bs.len() - j,
    {
        if bs[j].bat_order == o {
            return Some(j);
        }
        j += 1;
    }
    None
}

fn next_batter_name(lu: Option<&Lineup>, batter: &str) -> (r: String)
    ensures
        r@ == spec_next_batter(match lu { Some(l) => Some(*l), None => None }, batter@),
{
    let l = match lu {
        Some(l) => l,
        None => {
            return String::new();
        },
    };
    let id = chars_of(batter);
    if id.len() == 0 {
        return String::new();
    }
    let bs = &l.batter;
    let i = match batter_index(bs, &id) {
        Some(i) => i,
        None => {
            return String::new();
        },
    };
    let o = bs[i].bat_order;
    if o == 0 {
        return String::new();
    }
    let next: u8 = o % 9 + 1;
    match slot_index(bs, next) {
        Some(j) => bs[j].name.clone(),
        None => String::new(),
    }
}

/// The live state of a game's relay response; an error when the response
/// carries no relay data.
pub fn live_from_relay(env: &ApiEnvelope<RelayResult>, home: Team, away: Team) -> (r: Result<LiveState, Error>)
    ensures
        match env.result {
            Some(res) => match res.text_relay_data {
                Some(trd) => r matches Ok(s) && live_of(s, trd, home, away),
                None => r matches Err(Error::Data(m)) && m@ == "no textRelayData"@,
            },
            None => r matches Err(Error::Data(m)) && m@ == "no textRelayData"@,
        },
{
    broadcast use vstd::string::group_string_axioms;
    let trd = match &env.result {
        Some(res) => match &res.text_relay_data {
            Some(trd) => trd,
            None => {
                return Err(Error::Data("no textRelayData".to_string()));
            },
        },
        None => {
            return Err(Error::Data("no textRelayData".to_string()));
        },
    };
    let cgs = state_or_default(&trd.current_game_state);
    let count = Count {
        ball: parse_u8(cgs.ball.as_str()),
        strike: parse_u8(cgs.strike.as_str()),
        out: parse_u8(cgs.out.as_str()),
    };
    let bases = BaseState {
        first: base_on(cgs.base1.as_str()),
        second: base_on(cgs.base2.as_str()),
        third: base_on(cgs.base3.as_str()),
    };
    let relays = &trd.text_relays;
    let cur = current_index(relays);
    let (inning_label, relay_log, current_pitches) = match cur {
        Some(i) => (inning_label_of(&relays[i]), relay_lines_of(&relays[i]), pitches_of(&relays[i])),
        None => (String::new(), Vec::new(), Vec::new()),
    };
    let at_bats = at_bats_of(relays);
    let lineup: Option<&Lineup> = match cur {
        Some(i) => {
            let h = chars_of(relays[i].home_or_away.as_str());
            if text_is(&h, "0") {
                trd.away_lineup.as_ref()
            } else if text_is(&h, "1") {
                trd.home_lineup.as_ref()
            } else {
                None
            }
        },
        None => None,
    };
    let next_batter = next_batter_name(lineup, cgs.batter.as_str());
    let pitcher_name = name_of(cgs.pitcher.as_str(), &trd.home_lineup, &trd.away_lineup);
    let batter_name = name_of(cgs.batter.as_str(), &trd.home_lineup, &trd.away_lineup);
    Ok(LiveState {
        inning_label,
        home,
        away,
        home_score: parse_u16(cgs.home_score.as_str()),
        away_score: parse_u16(cgs.away_score.as_str()),
        count,
        bases,
        pitcher_name,
        batter_name,
        relay_log,
        current_pitches,
        next_batter_name: next_batter,
        at_bats,
        inning_score: Vec::new(),
    })
}

proof fn lemma_first_worthy(s: Seq<TextRelay>, from: int)
    requires
        0 <= from,
    ensures
        match first_worthy(s, from) {
            Some(i) => from <= i < s.len() && spec_is_at_bat_worthy(s[i]) && forall|j: int|
                from <= j < i ==> !spec_is_at_bat_worthy(#[trigger] s[j]),
            None => forall|j: int| from <= j < s.len() ==> !spec_is_at_bat_worthy(#[trigger] s[j]),
        },
    decreases s.len() - from,
{
    if from < s.len() && !spec_is_at_bat_worthy(s[from]) {
        lemma_first_worthy(s, from + 1);
    }
}

proof fn lemma_no_worthy_entries(s: Seq<TextRelay>)
    requires
        forall|j: int| 0 <= j < s.len() ==> !spec_is_at_bat_worthy(#[trigger] s[j]),
    ensures
        worthy_entries(s).len() == 0,
    decreases s.len(),
{
    if s.len() > 0 {
        assert forall|j: int| 0 <= j < s.drop_last().len() implies !spec_is_at_bat_worthy(#[trigger] s.drop_last()[j]) by {
            assert(s.drop_last()[j] == s[j]);
        }
        lemma_no_worthy_entries(s.drop_last());
        assert(!spec_is_at_bat_worthy(s[s.len() - 1]));
    }
}

proof fn lemma_first_worthy_entry(s: Seq<TextRelay>, i: int)
    requires
        0 <= i < s.len(),
        spec_is_at_bat_worthy(s[i]),
        forall|j: int| 0 <= j < i ==> !spec_is_at_bat_worthy(#[trigger] s[j]),
    ensures
        worthy_entries(s).len() > 0,
        worthy_entries(s)[0] == s[i],
    decreases s.len(),
{
    let init = s.drop_last();
    if i == s.len() - 1 {
        assert forall|j: int| 0 <= j < init.len() implies !spec_is_at_bat_worthy(#[trigger] init[j]) by {
            assert(init[j] == s[j]);
        }
        lemma_no_worthy_entries(init);
    } else {
        assert forall|j: int| 0 <= j < i implies !spec_is_at_bat_worthy(#[trigger] init[j]) by {
            assert(init[j] == s[j]);
        }
        assert(init[i] == s[i]);
        lemma_first_worthy_entry(init, i);
    }
}

/// The at-bats of the live state are the entries that count as at-bats,
/// oldest first (the response lists them newest first), and the latest
/// at-bat is the current at-bat: its entry is the one the relay log and the
/// current pitches come from.
pub proof fn law_latest_at_bat_is_the_current_one(s: LiveState, trd: TextRelayData, home: Team, away: Team)
    requires
        live_of(s, trd, home, away),
        first_worthy(trd.text_relays@, 0) is Some,
    ensures
        s.at_bats@.len() == worthy_entries(trd.text_relays@).len(),
        forall|i: int|
            0 <= i < s.at_bats@.len() ==> at_bat_of_entry(
                #[trigger] s.at_bats@[i],
                worthy_entries(trd.text_relays@)[s.at_bats@.len() - 1 - i],
            ),
        s.at_bats@.len() > 0,
        at_bat_of_entry(s.at_bats@.last(), trd.text_relays@[current_entry(trd.text_relays@).unwrap()]),
        lines_of(s.relay_log@, trd.text_relays@[current_entry(trd.text_relays@).unwrap()]),
        pitches_of_entry(s.current_pitches@, trd.text_relays@[current_entry(trd.text_relays@).unwrap()]),
{
    let rs = trd.text_relays@;
    lemma_first_worthy(rs, 0);
    let i = first_worthy(rs, 0).unwrap();
    lemma_first_worthy_entry(rs, i);
    let w = worthy_entries(rs);
    assert(at_bat_of_entry(s.at_bats@[s.at_bats@.len() - 1], w[w.len() - 1 - (s.at_bats@.len() - 1)]));
}


/// Each game of a schedule is the record it came from, field by field: the
/// usable records (those with a game id and both team codes) in their
/// order, each game carrying its record's id, teams and scores — the home
/// score is the record's home team score and the away score its away team
/// score.
pub proof fn law_game_is_its_record(env: ApiEnvelope<ScheduleResult>, r: Seq<Game>, i: int)
    requires
        schedule_games(env, r),
        env.result is Some,
        0 <= i < r.len(),
    ensures
        r.len() == env.result->0.games@.filter(|g: ScheduleGame| usable(g)).len(),
        ({
            let g = env.result->0.games@.filter(|g: ScheduleGame| usable(g))[i];
            &&& g.game_id matches Some(id) && r[i].id@ == id@
            &&& g.home_team_code matches Some(c) && r[i].home.code@ == c@
            &&& g.away_team_code matches Some(c) && r[i].away.code@ == c@
            &&& r[i].home_score == g.home_team_score
            &&& r[i].away_score == g.away_team_score
            &&& r[i].home.name@ == match g.home_team_name {
                Some(n) => n@,
                None => Seq::empty(),
            }
            &&& r[i].away.name@ == match g.away_team_name {
                Some(n) => n@,
                None => Seq::empty(),
            }
        }),
{
    law_schedule_keeps_exactly_the_usable_records(env.result->0.games@);
    assert(game_of(r[i], usable_records(env.result->0.games@)[i]));
}

/// The rows are sorted by rank.
pub open spec fn ranked(s: Seq<TeamStat>) -> bool {
    forall|i: int, j: int| 0 <= i < j < s.len() ==> s[i].ranking <= s[j].ranking
}

proof fn lemma_insert_by_rank(sorted: Seq<TeamStat>, x: TeamStat)
    requires
        ranked(sorted),
    ensures
        ranked(insert_by_rank(sorted, x)),
        insert_by_rank(sorted, x).len() == sorted.len() + 1,
        forall|k: int|
            0 <= k < insert_by_rank(sorted, x).len() ==> #[trigger] insert_by_rank(sorted, x)[k] == x
                || exists|j: int| 0 <= j < sorted.len() && sorted[j] == insert_by_rank(sorted, x)[k],
        exists|k: int| 0 <= k < insert_by_rank(sorted, x).len() && insert_by_rank(sorted, x)[k] == x,
    decreases sorted.len(),
{
    let ins = insert_by_rank(sorted, x);
    if sorted.len() == 0 {
        assert(ins[0] == x);
    } else if x.ranking < sorted[0].ranking {
        assert(ins == seq![x] + sorted);
        assert(ins[0] == x);
        assert forall|k: int| 0 <= k < ins.len() implies #[trigger] ins[k] == x || exists|j: int|
            0 <= j < sorted.len() && sorted[j] == ins[k] by {
            if k > 0 {
                assert(sorted[k - 1] == ins[k]);
            }
        }
    } else {
        let t = sorted.drop_first();
        assert forall|a: int, b: int| 0 <= a < b < t.len() implies t[a].ranking <= t[b].ranking by {
            assert(t[a] == sorted[a + 1] && t[b] == sorted[b + 1]);
        }
        lemma_insert_by_rank(t, x);
        let it = insert_by_rank(t, x);
        assert(ins == seq![sorted[0]] + it);
        assert forall|k: int| 0 <= k < it.len() implies sorted[0].ranking <= #[trigger] it[k].ranking by {
            if it[k] != x {
                let j = choose|j: int| 0 <= j < t.len() && t[j] == it[k];
                assert(t[j] == sorted[j + 1]);
            }
        }
        assert forall|a: int, b: int| 0 <= a < b < ins.len() implies ins[a].ranking <= ins[b].ranking by {
            if a == 0 {
                assert(ins[b] == it[b - 1]);
            } else {
                assert(ins[a] == it[a - 1] && ins[b] == it[b - 1]);
            }
        }
        assert forall|k: int| 0 <= k < ins.len() implies #[trigger] ins[k] == x || exists|j: int|
            0 <= j < sorted.len() && sorted[j] == ins[k] by {
            if k == 0 {
                assert(sorted[0] == ins[0]);
            } else {
                assert(ins[k] == it[k - 1]);
                if it[k - 1] != x {
                    let j = choose|j: int| 0 <= j < t.len() && t[j] == it[k - 1];
                    assert(sorted[j + 1] == ins[k]);
                }
            }
        }
        let k0 = choose|k: int| 0 <= k < it.len() && it[k] == x;
        assert(ins[k0 + 1] == x);
    }
}

/// Sorting by rank gives rows in rank order, as many as there were, each
/// one of the input rows.
pub proof fn lemma_sort_by_rank(s: Seq<TeamStat>)
    ensures
        ranked(sort_by_rank(s)),
        sort_by_rank(s).len() == s.len(),
        forall|k: int|
            0 <= k < sort_by_rank(s).len() ==> exists|j: int| 0 <= j < s.len() && s[j] == #[trigger] sort_by_rank(s)[k],
    decreases s.len(),
{
    if s.len() > 0 {
        let init = s.drop_last();
        lemma_sort_by_rank(init);
        lemma_insert_by_rank(sort_by_rank(init), s.last());
        let r = sort_by_rank(s);
        assert forall|k: int| 0 <= k < r.len() implies exists|j: int| 0 <= j < s.len() && s[j] == #[trigger] r[k] by {
            if r[k] == s.last() {
                assert(s[s.len() - 1] == r[k]);
            } else {
                let j = choose|j: int| 0 <= j < sort_by_rank(init).len() && sort_by_rank(init)[j] == r[k];
                let j2 = choose|j2: int| 0 <= j2 < init.len() && init[j2] == sort_by_rank(init)[j];
                assert(s[j2] == r[k]);
            }
        }
    }
}

/// The standings rows run in rank order, one per record of the response,
/// and each row is a record of the response field by field: its rank, team,
/// games played, wins (the record's won games), losses (its lost games) and
/// draws.
pub proof fn law_standings_rows_are_records_by_rank(env: ApiEnvelope<StandingsResult>, r: Seq<Standing>)
    requires
        standings_rows(env, r),
        env.result is Some,
    ensures
        r.len() == env.result->0.season_team_stats@.len(),
        forall|i: int, j: int| 0 <= i < j < r.len() ==> r[i].rank <= r[j].rank,
        forall|i: int|
            #![trigger r[i]]
            0 <= i < r.len() ==> exists|j: int|
                0 <= j < env.result->0.season_team_stats@.len() && {
                    let t = #[trigger] env.result->0.season_team_stats@[j];
                    &&& r[i].rank == t.ranking
                    &&& r[i].team.code@ == t.team_id@
                    &&& r[i].team.name@ == t.team_name@
                    &&& r[i].games == t.game_count
                    &&& r[i].wins == t.win_game_count
                    &&& r[i].losses == t.lose_game_count
                    &&& r[i].draws == t.drawn_game_count
                },
{
    let stats = env.result->0.season_team_stats@;
    lemma_sort_by_rank(stats);
    let sorted = sort_by_rank(stats);
    assert forall|i: int, j: int| 0 <= i < j < r.len() implies r[i].rank <= r[j].rank by {
        assert(standing_of(r[i], sorted[i]) && standing_of(r[j], sorted[j]));
    }
    assert forall|i: int| #![trigger r[i]] 0 <= i < r.len() implies exists|j: int|
        0 <= j < stats.len() && {
            let t = #[trigger] stats[j];
            &&& r[i].rank == t.ranking
            &&& r[i].team.code@ == t.team_id@
            &&& r[i].team.name@ == t.team_name@
            &&& r[i].games == t.game_count
            &&& r[i].wins == t.win_game_count
            &&& r[i].losses == t.lose_game_count
            &&& r[i].draws == t.drawn_game_count
        } by {
        assert(standing_of(r[i], sorted[i]));
        let j = choose|j: int| 0 <= j < stats.len() && stats[j] == sorted[i];
        assert(stats[j] == sorted[i]);
    }
}

/// The count, score and bases of the live state are read from the
/// response's current game state by name: balls from `ball`, strikes from
/// `strike`, outs from `out`, each score from its own team's field, each
/// base from its own field, the pitcher and batter names from the players
/// whose ids the `pitcher` and `batter` fields hold (all zero without a game
/// state).
pub proof fn law_live_count_is_the_game_state(s: LiveState, trd: TextRelayData, home: Team, away: Team)
    requires
        live_of(s, trd, home, away),
    ensures
        s.home == home && s.away == away,
        match trd.current_game_state {
            Some(c) => {
                &&& s.count.ball == spec_lenient_u8(c.ball@)
                &&& s.count.strike == spec_lenient_u8(c.strike@)
                &&& s.count.out == spec_lenient_u8(c.out@)
                &&& s.home_score == spec_lenient_u16(c.home_score@)
                &&& s.away_score == spec_lenient_u16(c.away_score@)
                &&& s.bases.first == spec_base_on(c.base1@)
                &&& s.bases.second == spec_base_on(c.base2@)
                &&& s.bases.third == spec_base_on(c.base3@)
                &&& s.pitcher_name@ == spec_name_of(c.pitcher@, trd.home_lineup, trd.away_lineup)
                &&& s.batter_name@ == spec_name_of(c.batter@, trd.home_lineup, trd.away_lineup)
            },
            None => s.count.ball == 0 && s.count.strike == 0 && s.count.out == 0 && s.home_score == 0
                && s.away_score == 0 && !s.bases.first && !s.bases.second && !s.bases.third,
        },
{
    if trd.current_game_state is None {
        assert(trim_start(Seq::<char>::empty()) == Seq::<char>::empty());
        assert(trim(Seq::<char>::empty()) == Seq::<char>::empty());
    }
}

} // verus!
