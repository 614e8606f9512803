//! What the background poller decides: which fetch is due, how long to wait
//! after failures, and what a command from the screen changes. The thread
//! that sleeps, calls the data source and sends updates lives outside.
use vstd::prelude::*;
use crate::model::{AtBat, Game, GameStatus, LiveState, NewsItem, Standing};
use crate::strutil::{chars_of, parse_int, parse_u16};

verus! {

/// What the poller hands the screen.
pub enum Update {
    Games(Vec<Game>),
    /// The live state of the game with this id; a late reply for a game no
    /// longer shown is recognized by the id.
    Live(String, LiveState),
    Standings(Vec<Standing>),
    Error(String),
    /// A fetch is about to start (the spinner); its data or error ends it.
    Fetching,
    /// News headlines; their failures are never reported as errors.
    News(Vec<NewsItem>),
    /// Tips fetched at start-up, shown instead of the built-in ones.
    Tips(Vec<String>),
    /// The at-bats of a past inning of a game, asked for by rewinding.
    Inning { game_id: String, inning: u8, at_bats: Vec<AtBat> },
}

/// Commands from the screen to the poller.
pub enum Command {
    /// Start polling the relay of this game.
    WatchGame(Game),
    /// Back to the list: stop polling a game.
    StopWatch,
    RefreshStandings,
    Shutdown,
}

/// Minimum time between two standings fetches, in seconds.
pub const STANDINGS_POLL_SECS: u64 = 90;
/// Live poll interval for a game that is over (nothing changes any more:
/// once every five minutes), in seconds.
pub const FINAL_LIVE_POLL_SECS: u64 = 300;
/// News poll interval, in seconds.
pub const NEWS_POLL_SECS: u64 = 300;
/// Upper bound of the backoff, in seconds (unless the base is longer).
pub const BACKOFF_CAP_SECS: u64 = 60;
/// Games poll interval, in seconds.
pub const GAMES_POLL_SECS: u64 = 60;

pub open spec fn pow2(n: nat) -> nat
    decreases n,
{
    if n == 0 { 1 } else { 2 * pow2((n - 1) as nat) }
}

/// `base * 2^min(errors, 6)`, no longer than `max(base, 60 s)`.
pub open spec fn spec_backoff(base: int, errors: int) -> int {
    let shift = if errors < 6 { errors } else { 6 };
    let scaled = base * pow2(shift as nat);
    let cap = if base > BACKOFF_CAP_SECS * 1000 { base } else { BACKOFF_CAP_SECS * 1000 };
    if scaled < cap { scaled } else { cap }
}

/// The wait before the next poll after `errors` failures in a row, in
/// milliseconds: the base doubled per failure (at most six times), cut at
/// sixty seconds or at the base when that is longer.
pub fn backoff_delay(base_ms: u64, errors: u32) -> (r: u64)
    ensures
        r == spec_backoff(base_ms as int, errors as int),
        base_ms <= r,
        r <= if base_ms > 60000 { base_ms } else { 60000 },
{
    let shift: u32 = if errors < 6 { errors } else { 6 };
    let mut factor: u64 = 1;
    let mut k: u32 = 0;
    while k < shift
        invariant
            k <= shift <= 6,
            factor == pow2(k as nat),
            1 <= factor <= 64,
        decreases shift - k,
    {
        proof {
            reveal_with_fuel(pow2, 7);
            assert(pow2((k + 1) as nat) == 2 * pow2(k as nat));
        }
        assert(k < 6);
        assert(factor <= 32) by {
            reveal_with_fuel(pow2, 7);
            if k == 0 {} else if k == 1 {} else if k == 2 {} else if k == 3 {} else if k == 4 {} else {}
        }
        factor = factor * 2;
        k += 1;
    }
    let cap: u64 = if base_ms > 60000 { base_ms } else { 60000 };
    let scaled: u64 = if base_ms <= u64::MAX / factor {
        assert(base_ms * factor <= u64::MAX) by (nonlinear_arith)
            requires base_ms <= u64::MAX / factor, factor >= 1;
        base_ms * factor
    } else {
        u64::MAX
    };
    proof {
        if base_ms > u64::MAX / factor {
            assert(base_ms * factor > u64::MAX) by (nonlinear_arith)
                requires base_ms > u64::MAX / factor, factor >= 1;
        }
        assert(base_ms <= base_ms * factor) by (nonlinear_arith)
            requires factor >= 1;
    }
    if scaled < cap { scaled } else { cap }
}

/// Doubling per failure never shortens the wait, and the wait never exceeds
/// the cap (or the base when that is longer).
pub proof fn law_backoff_grows_then_caps(base: int, e1: int, e2: int)
    requires
        0 <= base,
        0 <= e1 <= e2,
    ensures
        spec_backoff(base, e1) <= spec_backoff(base, e2),
        base <= spec_backoff(base, e1),
{
    let s1 = if e1 < 6 { e1 } else { 6 };
    let s2 = if e2 < 6 { e2 } else { 6 };
    lemma_pow2_monotone(s1 as nat, s2 as nat);
    lemma_pow2_positive(s1 as nat);
    assert(base * pow2(s1 as nat) <= base * pow2(s2 as nat)) by (nonlinear_arith)
        requires base >= 0, pow2(s1 as nat) <= pow2(s2 as nat);
    assert(base <= base * pow2(s1 as nat)) by (nonlinear_arith)
        requires base >= 0, pow2(s1 as nat) >= 1;
}

proof fn lemma_pow2_positive(n: nat)
    ensures
        pow2(n) >= 1,
    decreases n,
{
    if n > 0 {
        lemma_pow2_positive((n - 1) as nat);
    }
}

proof fn lemma_pow2_monotone(a: nat, b: nat)
    requires
        a <= b,
    ensures
        pow2(a) <= pow2(b),
    decreases b,
{
    if a < b {
        lemma_pow2_monotone(a, (b - 1) as nat);
        lemma_pow2_positive((b - 1) as nat);
    }
}

/// The season year of a `YYYY-MM-DD` date: its first four characters as a
/// number, 2026 when they are not one.
pub open spec fn spec_standings_year(date: Seq<char>) -> int {
    if date.len() >= 4 {
        match parse_int(date.take(4), false, 0, u16::MAX as int) {
            Some(y) => y,
            None => 2026,
        }
    } else {
        2026
    }
}

pub fn standings_year(date: &str) -> (r: u16)
    ensures
        r == spec_standings_year(date@),
{
    let v = chars_of(date);
    if v.len() < 4 {
        return 2026;
    }
    let head = crate::strutil::slice_range(&v, 0, 4);
    assert(head@ == v@.take(4));
    match parse_u16(&head) {
        Some(y) => y,
        None => 2026,
    }
}

/// The base interval of the live poll in milliseconds: five minutes for a
/// game that is over, the configured interval (saturating) otherwise.
pub open spec fn spec_live_base(live_poll_secs: u64, status: GameStatus) -> int {
    if status == GameStatus::Final {
        FINAL_LIVE_POLL_SECS * 1000
    } else if live_poll_secs * 1000 > u64::MAX {
        u64::MAX as int
    } else {
        live_poll_secs * 1000
    }
}

/// The poller's clock-driven state; times are milliseconds on a monotonic clock.
pub struct PollerState {
    pub watching: Option<Game>,
    pub next_games: u64,
    pub next_live: u64,
    pub next_standings: u64,
    pub next_news: u64,
    pub games_errors: u32,
    pub live_errors: u32,
    /// Live poll interval of a game in progress, in seconds.
    pub live_poll_secs: u64,
    /// Minimum time between standings fetches, in seconds.
    pub standings_poll_secs: u64,
}

/// What the poller thread does after a command.
#[derive(Debug, Clone, Copy, PartialEq, Eq, Structural)]
pub enum CommandOutcome {
    Continue,
    /// Fetch the standings of this season now.
    FetchStandings(u16),
    Stop,
}

/// `now + secs` seconds, saturating.
pub open spec fn later(now: u64, secs: u64) -> u64 {
    if now + secs * 1000 > u64::MAX { u64::MAX } else { (now + secs * 1000) as u64 }
}

fn sat_mul_1000(x: u64) -> (r: u64)
    ensures
        r == if x * 1000 > u64::MAX { u64::MAX as int } else { x * 1000 },
{
    if x <= u64::MAX / 1000 { x * 1000 } else { u64::MAX }
}

fn later_exec(now: u64, secs: u64) -> (r: u64)
    ensures
        r == later(now, secs),
{
    let ms = sat_mul_1000(secs);
    proof {
        if secs * 1000 > u64::MAX {
            assert(now + secs * 1000 > u64::MAX);
        }
    }
    now.saturating_add(ms)
}

fn later_ms(now: u64, ms: u64) -> (r: u64)
    ensures
        r == if now + ms > u64::MAX { u64::MAX as int } else { now + ms },
{
    now.saturating_add(ms)
}

impl PollerState {
    /// Everything due at once (a first poll happens immediately).
    pub fn new(live_poll_secs: u64, standings_poll_secs: u64, now: u64) -> (r: PollerState)
        ensures
            r.watching is None,
            r.next_games == now && r.next_live == now && r.next_standings == now && r.next_news == now,
            r.games_errors == 0 && r.live_errors == 0,
            r.live_poll_secs == live_poll_secs,
            r.standings_poll_secs == standings_poll_secs,
    {
        PollerState {
            watching: None,
            next_games: now,
            next_live: now,
            next_standings: now,
            next_news: now,
            games_errors: 0,
            live_errors: 0,
            live_poll_secs,
            standings_poll_secs,
        }
    }

    /// A command from the screen. Watching a new game polls it at once and
    /// forgets the previous game's failures; a standings refresh before its
    /// gate opens is dropped.
    pub fn on_command(&mut self, cmd: Command, now: u64, date: &str) -> (r: CommandOutcome)
        ensures
            match cmd {
                Command::WatchGame(g) => final(self).watching == Some(g) && final(self).next_live == now
                    && final(self).live_errors == 0 && r == CommandOutcome::Continue
                    && final(self).next_standings == old(self).next_standings,
                Command::StopWatch => final(self).watching is None && r == CommandOutcome::Continue
                    && final(self).next_live == old(self).next_live
                    && final(self).next_standings == old(self).next_standings,
                Command::RefreshStandings => {
                    let step = refresh_step(old(self).next_standings, now, old(self).standings_poll_secs);
                    &&& final(self).next_standings == step.1
                    &&& r == if step.0 {
                        CommandOutcome::FetchStandings(spec_standings_year(date@) as u16)
                    } else {
                        CommandOutcome::Continue
                    }
                },
                Command::Shutdown => r == CommandOutcome::Stop,
            },
            final(self).next_games == old(self).next_games,
            final(self).next_news == old(self).next_news,
            final(self).games_errors == old(self).games_errors,
            final(self).live_poll_secs == old(self).live_poll_secs,
            final(self).standings_poll_secs == old(self).standings_poll_secs,
            !(cmd is WatchGame) && !(cmd is StopWatch) ==> final(self).watching == old(self).watching,
            !(cmd is WatchGame) ==> final(self).live_errors == old(self).live_errors
                && final(self).next_live == old(self).next_live,
    {
        match cmd {
            Command::WatchGame(g) => {
                self.watching = Some(g);
                self.next_live = now;
                self.live_errors = 0;
                CommandOutcome::Continue
            },
            Command::StopWatch => {
                self.watching = None;
                CommandOutcome::Continue
            },
            Command::RefreshStandings => {
                if now >= self.next_standings {
                    let year = standings_year(date);
                    self.next_standings = later_exec(now, self.standings_poll_secs);
                    CommandOutcome::FetchStandings(year)
                } else {
                    CommandOutcome::Continue
                }
            },
            Command::Shutdown => CommandOutcome::Stop,
        }
    }

    pub fn games_due(&self, now: u64) -> (b: bool)
        ensures
            b == (now >= self.next_games),
    {
        now >= self.next_games
    }

    pub fn news_due(&self, now: u64) -> (b: bool)
        ensures
            b == (now >= self.next_news),
    {
        now >= self.next_news
    }

    /// The watched game when its relay is due.
    pub fn live_due(&self, now: u64) -> (r: Option<&Game>)
        ensures
            match self.watching {
                Some(g) => if now >= self.next_live { r == Some(&g) } else { r is None },
                None => r is None,
            },
    {
        match &self.watching {
            Some(g) => if now >= self.next_live { Some(g) } else { None },
            None => None,
        }
    }

    /// After a games fetch: success clears the failure count, a failure adds
    /// one; the next fetch waits the backoff of the sixty-second base.
    pub fn after_games(&mut self, now: u64, ok: bool)
        ensures
            final(self).games_errors == if ok { 0 } else if old(self).games_errors == u32::MAX {
                u32::MAX as int
            } else {
                old(self).games_errors + 1
            },
            final(self).next_games == if now + spec_backoff(GAMES_POLL_SECS * 1000, final(self).games_errors as int) > u64::MAX {
                u64::MAX as int
            } else {
                now + spec_backoff(GAMES_POLL_SECS * 1000, final(self).games_errors as int)
            },
            final(self).watching == old(self).watching,
            final(self).next_live == old(self).next_live,
            final(self).live_errors == old(self).live_errors,
            final(self).next_news == old(self).next_news,
            final(self).next_standings == old(self).next_standings,
            final(self).live_poll_secs == old(self).live_poll_secs,
            final(self).standings_poll_secs == old(self).standings_poll_secs,
    {
        self.games_errors = if ok { 0 } else { self.games_errors.saturating_add(1) };
        let d = backoff_delay(GAMES_POLL_SECS * 1000, self.games_errors);
        self.next_games = later_ms(now, d);
    }

    /// After a news fetch, successful or not: the next one in five minutes.
    pub fn after_news(&mut self, now: u64)
        ensures
            final(self).next_news == later(now, NEWS_POLL_SECS),
            final(self).watching == old(self).watching,
            final(self).next_games == old(self).next_games,
            final(self).next_live == old(self).next_live,
            final(self).games_errors == old(self).games_errors,
            final(self).live_errors == old(self).live_errors,
            final(self).next_standings == old(self).next_standings,
            final(self).live_poll_secs == old(self).live_poll_secs,
            final(self).standings_poll_secs == old(self).standings_poll_secs,
    {
        self.next_news = later_exec(now, NEWS_POLL_SECS);
    }

    /// Another date was picked: its games are fetched at once.
    pub fn date_changed(&mut self, now: u64)
        ensures
            *final(self) == (PollerState { next_games: now, ..*old(self) }),
    {
        self.next_games = now;
    }

    /// The live poll interval was changed in the settings; it applies from
    /// the next poll on.
    pub fn set_live_poll(&mut self, secs: u64)
        ensures
            *final(self) == (PollerState { live_poll_secs: secs, ..*old(self) }),
    {
        self.live_poll_secs = secs;
    }

    /// The base interval of the live poll: relaxed for a game that is over.
    pub fn live_base_ms(&self, status: GameStatus) -> (r: u64)
        ensures
            r == spec_live_base(self.live_poll_secs, status),
    {
        if status == GameStatus::Final {
            FINAL_LIVE_POLL_SECS * 1000
        } else {
            sat_mul_1000(self.live_poll_secs)
        }
    }

    /// After a relay fetch of a game with `status`: success clears the
    /// failure count, a failure adds one; the next fetch waits the backoff.
    pub fn after_live(&mut self, now: u64, status: GameStatus, ok: bool)
        ensures
            final(self).live_errors == if ok { 0 } else if old(self).live_errors == u32::MAX {
                u32::MAX as int
            } else {
                old(self).live_errors + 1
            },
            final(self).next_live == if now + spec_backoff(
                spec_live_base(old(self).live_poll_secs, status),
                final(self).live_errors as int,
            ) > u64::MAX {
                u64::MAX as int
            } else {
                now + spec_backoff(spec_live_base(old(self).live_poll_secs, status), final(self).live_errors as int)
            },
            status == GameStatus::Final ==> final(self).next_live >= later(now, FINAL_LIVE_POLL_SECS),
            final(self).watching == old(self).watching,
            final(self).next_games == old(self).next_games,
            final(self).games_errors == old(self).games_errors,
            final(self).next_news == old(self).next_news,
            final(self).next_standings == old(self).next_standings,
            final(self).live_poll_secs == old(self).live_poll_secs,
            final(self).standings_poll_secs == old(self).standings_poll_secs,
    {
        let base = self.live_base_ms(status);
        self.live_errors = if ok { 0 } else { self.live_errors.saturating_add(1) };
        let d = backoff_delay(base, self.live_errors);
        self.next_live = later_ms(now, d);
    }
}


/// The schedule stays as it is from one state to the next.
proof fn lemma_schedule_kept(states: Seq<PollerState>, i: int)
    requires
        0 <= i < states.len(),
        forall|k: int| 1 <= k < states.len() ==> #[trigger] states[k].next_live == states[k - 1].next_live,
    ensures
        states[i].next_live == states[0].next_live,
    decreases i,
{
    if i > 0 {
        lemma_schedule_kept(states, i - 1);
    }
}

/// A finished game is checked once every five minutes: after its relay was
/// fetched at `t0` (`after_live` with a final status), the states that
/// follow, as long as none of them fetches the relay again or starts a new
/// watch (every other step keeps `next_live`), do not have the relay due
/// before five minutes have passed.
pub proof fn law_finished_game_checked_every_five_minutes(
    states: Seq<PollerState>,
    times: Seq<u64>,
    t0: u64,
)
    requires
        states.len() == times.len(),
        states.len() > 0,
        states[0].next_live >= later(t0, FINAL_LIVE_POLL_SECS),
        forall|k: int| 1 <= k < states.len() ==> #[trigger] states[k].next_live == states[k - 1].next_live,
    ensures
        forall|i: int|
            0 <= i < states.len() && #[trigger] times[i] < later(t0, FINAL_LIVE_POLL_SECS) ==> times[i]
                < states[i].next_live,
{
    assert forall|i: int|
        0 <= i < states.len() && #[trigger] times[i] < later(t0, FINAL_LIVE_POLL_SECS) implies times[i]
            < states[i].next_live by {
        lemma_schedule_kept(states, i);
    }
}

/// A standings refresh at `now` when the next fetch may happen at `next`:
/// whether it fetches, and when the one after it may happen (`on_command`
/// with `RefreshStandings`).
pub open spec fn refresh_step(next: u64, now: u64, interval_secs: u64) -> (bool, u64) {
    if now >= next {
        (true, later(now, interval_secs))
    } else {
        (false, next)
    }
}

/// How many of the refreshes at `times` (in order) fetch, the first fetch
/// being allowed from `next` on.
pub open spec fn refresh_fetches(next: u64, times: Seq<u64>, interval_secs: u64) -> nat
    decreases times.len(),
{
    if times.len() == 0 {
        0
    } else {
        let (f, n) = refresh_step(next, times[0], interval_secs);
        (if f { 1nat } else { 0nat }) + refresh_fetches(n, times.drop_first(), interval_secs)
    }
}

proof fn lemma_no_refetch_before(next: u64, times: Seq<u64>, interval_secs: u64)
    requires
        forall|i: int| 0 <= i < times.len() ==> #[trigger] times[i] < next,
    ensures
        refresh_fetches(next, times, interval_secs) == 0,
    decreases times.len(),
{
    if times.len() > 0 {
        assert forall|i: int| 0 <= i < times.drop_first().len() implies #[trigger] times.drop_first()[i]
            < next by {
            assert(times.drop_first()[i] == times[i + 1]);
        }
        lemma_no_refetch_before(next, times.drop_first(), interval_secs);
    }
}

/// A flood of standings refreshes is one fetch: when the first one may
/// fetch, every refresh until the interval has passed is dropped, and the
/// next fetch may then happen at the first one's time plus the interval.
pub proof fn law_standings_flood_fetches_once(next: u64, times: Seq<u64>, interval_secs: u64)
    requires
        times.len() > 0,
        next <= times[0],
        forall|i: int| 1 <= i < times.len() ==> #[trigger] times[i] < later(times[0], interval_secs),
    ensures
        refresh_fetches(next, times, interval_secs) == 1,
        refresh_step(next, times[0], interval_secs) == (true, later(times[0], interval_secs)),
{
    let rest = times.drop_first();
    assert forall|i: int| 0 <= i < rest.len() implies #[trigger] rest[i] < later(times[0], interval_secs) by {
        assert(rest[i] == times[i + 1]);
    }
    lemma_no_refetch_before(later(times[0], interval_secs), rest, interval_secs);
}

} // verus!
