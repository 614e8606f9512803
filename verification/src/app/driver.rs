//! The decisions of the screen loop between its outside steps (reading a
//! key, drawing, talking to the poller): entering the favorite team's game,
//! following the date over midnight, and telling the poller what changed.
use vstd::prelude::*;
use crate::app::{is_best_game, pick_team_game, spec_can_enter_live, App, Screen, Tab};
use crate::launch::rolled_over_date;
use crate::model::{Game, GameStatus};
use crate::poller::Command;

verus! {

/// What the loop last told the poller, and what it keeps between ticks.
pub struct LoopState {
    /// The favorite team whose game is entered once it can be.
    pub auto_team: Option<String>,
    /// The game (and its status) the poller was last told to follow.
    pub watching: Option<(String, GameStatus)>,
    pub sent_date: String,
    pub sent_poll: u64,
    pub sent_inning: Option<u8>,
    /// The KST date of the previous tick.
    pub prev_today: String,
    /// Whether mouse capture is on in the terminal.
    pub mouse_on: bool,
    /// The view key of the last frame drawn.
    pub last_view_key: (u8, u8, bool),
}

/// What a tick asks of the loop.
pub struct TickActions {
    /// Follow the watched game (it or its status changed), or stop.
    pub watch: Option<Command>,
    /// The date shown changed: fetch that date's games.
    pub new_date: Option<String>,
    /// The live poll interval changed.
    pub new_poll: Option<u64>,
    /// Rewinding asked for this inning of the watched game.
    pub fetch_inning: Option<(Game, u8)>,
    /// The standings tab is shown: refresh the standings (the poller gates it).
    pub refresh_standings: bool,
}

pub open spec fn opt_key_view(k: Option<(String, GameStatus)>) -> Option<(Seq<char>, GameStatus)> {
    match k {
        Some((id, st)) => Some((id@, st)),
        None => None,
    }
}

/// The game the screen shows and its status.
pub open spec fn watched_key(a: App) -> Option<(Seq<char>, GameStatus)> {
    match a.screen {
        Screen::Live { game, .. } => Some((game.id@, game.status)),
        Screen::List => None,
    }
}

/// The app after the date check of a tick: past midnight, a shown date that
/// was yesterday's follows to today.
pub open spec fn date_followed(pre: App, post: App, prev_today: Seq<char>, today: Seq<char>) -> bool {
    if today != prev_today && pre.date@ == prev_today {
        post == (App { date: post.date, ..pre }) && post.date@ == today
    } else {
        post == pre
    }
}

pub open spec fn spinner_next(f: u8) -> u8 {
    if f == u8::MAX {
        0
    } else {
        (f + 1) as u8
    }
}

fn follow_date(app: &mut App, prev_today: &String, today: &String)
    ensures
        date_followed(*old(app), *final(app), prev_today@, today@),
{
    if let Some(next) = rolled_over_date(app.date.as_str(), prev_today.as_str(), today.as_str()) {
        app.date = next;
    }
}

impl LoopState {
    pub fn new(auto_team: Option<String>, date: String, poll: u64, today: String, view_key: (
        u8,
        u8,
        bool,
    )) -> (r: LoopState)
        ensures
            r.auto_team == auto_team,
            r.watching is None,
            r.sent_date == date,
            r.sent_poll == poll,
            r.sent_inning is None,
            r.prev_today == today,
            !r.mouse_on,
            r.last_view_key == view_key,
    {
        LoopState {
            auto_team,
            watching: None,
            sent_date: date,
            sent_poll: poll,
            sent_inning: None,
            prev_today: today,
            mouse_on: false,
            last_view_key: view_key,
        }
    }

    /// After an update from the poller: once games arrive, the favorite
    /// team's game (see `is_best_game`) is entered when it has a relay, and
    /// returned so that the poller follows it; until then the team is kept
    /// for the next games update.
    pub fn after_update(&mut self, app: &mut App, was_games: bool) -> (r: Option<Game>)
        ensures
            match r {
                Some(g) => was_games && (old(self).auto_team matches Some(code) && exists|i: int|
                    is_best_game(old(app).games@, code@, i) && g == old(app).games@[i])
                    && spec_can_enter_live(g.status) && *final(app) == App::entered_live(
                    *old(app),
                    g,
                ) && final(self).auto_team is None,
                None => *final(app) == *old(app) && final(self).auto_team == old(self).auto_team
                    && (was_games ==> (old(self).auto_team matches Some(code) ==> forall|i: int|
                    is_best_game(old(app).games@, code@, i) ==> !spec_can_enter_live(
                        old(app).games@[i].status,
                    ))),
            },
            final(self).watching == old(self).watching,
            final(self).sent_date == old(self).sent_date,
            final(self).sent_poll == old(self).sent_poll,
            final(self).sent_inning == old(self).sent_inning,
            final(self).prev_today == old(self).prev_today,
            final(self).mouse_on == old(self).mouse_on,
            final(self).last_view_key == old(self).last_view_key,
    {
        if !was_games {
            return None;
        }
        let picked = match &self.auto_team {
            Some(code) => match pick_team_game(app.games.as_slice(), code.as_str()) {
                Some(g) => if App::can_enter_live(g.status) {
                    Some(g.clone())
                } else {
                    None
                },
                None => None,
            },
            None => None,
        };
        match picked {
            Some(g) => {
                app.enter_live(g.clone());
                self.auto_team = None;
                Some(g)
            },
            None => None,
        }
    }

    /// One tick of the loop (see `TickActions`): the date follows midnight,
    /// what changed since the poller was last told is reported once, and the
    /// spinner turns while a fetch is in flight.
    pub fn tick(&mut self, app: &mut App, today: String) -> (r: TickActions)
        ensures
            ({
                let mid = App { spinner_frame: old(app).spinner_frame, ..*final(app) };
                &&& date_followed(*old(app), mid, old(self).prev_today@, today@)
                &&& final(app).spinner_frame == if old(app).fetching {
                    spinner_next(old(app).spinner_frame)
                } else {
                    old(app).spinner_frame
                }
                &&& final(self).prev_today == today
                &&& if watched_key(mid) != opt_key_view(old(self).watching) {
                    &&& r.watch == Some(
                        match mid.screen {
                            Screen::Live { game, .. } => Command::WatchGame(game),
                            Screen::List => Command::StopWatch,
                        },
                    )
                    &&& opt_key_view(final(self).watching) == watched_key(mid)
                } else {
                    r.watch is None && final(self).watching == old(self).watching
                }
                &&& if mid.date@ != old(self).sent_date@ {
                    (r.new_date matches Some(d) && d@ == mid.date@) && final(self).sent_date@
                        == mid.date@
                } else {
                    r.new_date is None && final(self).sent_date == old(self).sent_date
                }
                &&& if mid.poll_choice != old(self).sent_poll {
                    r.new_poll == Some(mid.poll_choice) && final(self).sent_poll == mid.poll_choice
                } else {
                    r.new_poll is None && final(self).sent_poll == old(self).sent_poll
                }
                &&& if mid.fetching_inning != old(self).sent_inning {
                    &&& r.fetch_inning == match (mid.fetching_inning, mid.screen) {
                        (Some(i), Screen::Live { game, .. }) => Some((game, i)),
                        _ => None,
                    }
                    &&& final(self).sent_inning == mid.fetching_inning
                } else {
                    r.fetch_inning is None && final(self).sent_inning == old(self).sent_inning
                }
                &&& r.refresh_standings == (mid.tab == Tab::Standings)
            }),
            final(self).auto_team == old(self).auto_team,
            final(self).mouse_on == old(self).mouse_on,
            final(self).last_view_key == old(self).last_view_key,
    {
        follow_date(app, &self.prev_today, &today);
        self.prev_today = today;
        let ghost mid = *app;
        let watch = self.watch_step(app);
        let new_date = self.date_step(app);
        let new_poll = self.poll_step(app);
        let fetch_inning = self.inning_step(app);
        let refresh_standings = app.tab == Tab::Standings;
        if app.fetching {
            app.spinner_frame = app.spinner_frame.wrapping_add(1);
        }
        assert(mid == App { spinner_frame: old(app).spinner_frame, ..*app });
        TickActions { watch, new_date, new_poll, fetch_inning, refresh_standings }
    }

    fn watch_step(&mut self, app: &App) -> (r: Option<Command>)
        ensures
            if watched_key(*app) != opt_key_view(old(self).watching) {
                &&& r == Some(
                    match app.screen {
                        Screen::Live { game, .. } => Command::WatchGame(game),
                        Screen::List => Command::StopWatch,
                    },
                )
                &&& opt_key_view(final(self).watching) == watched_key(*app)
            } else {
                r is None && final(self).watching == old(self).watching
            },
            *final(self) == (LoopState { watching: final(self).watching, ..*old(self) }),
    {
        let current: Option<(String, GameStatus)> = match &app.screen {
            Screen::Live { game, .. } => Some((game.id.clone(), game.status)),
            Screen::List => None,
        };
        let same = match (&current, &self.watching) {
            (Some((a, sa)), Some((b, sb))) => *a == *b && *sa == *sb,
            (None, None) => true,
            _ => false,
        };
        if same {
            None
        } else {
            let c = match &app.screen {
                Screen::Live { game, .. } => Command::WatchGame(game.clone()),
                Screen::List => Command::StopWatch,
            };
            self.watching = current;
            Some(c)
        }
    }

    fn date_step(&mut self, app: &App) -> (r: Option<String>)
        ensures
            if app.date@ != old(self).sent_date@ {
                (r matches Some(d) && d@ == app.date@) && final(self).sent_date@ == app.date@
            } else {
                r is None && final(self).sent_date == old(self).sent_date
            },
            *final(self) == (LoopState { sent_date: final(self).sent_date, ..*old(self) }),
    {
        if app.date != self.sent_date {
            self.sent_date = app.date.clone();
            Some(app.date.clone())
        } else {
            None
        }
    }

    fn poll_step(&mut self, app: &App) -> (r: Option<u64>)
        ensures
            if app.poll_choice != old(self).sent_poll {
                r == Some(app.poll_choice) && final(self).sent_poll == app.poll_choice
            } else {
                r is None && final(self).sent_poll == old(self).sent_poll
            },
            *final(self) == (LoopState { sent_poll: final(self).sent_poll, ..*old(self) }),
    {
        if app.poll_choice != self.sent_poll {
            self.sent_poll = app.poll_choice;
            Some(app.poll_choice)
        } else {
            None
        }
    }

    fn inning_step(&mut self, app: &App) -> (r: Option<(Game, u8)>)
        ensures
            if app.fetching_inning != old(self).sent_inning {
                &&& r == match (app.fetching_inning, app.screen) {
                    (Some(i), Screen::Live { game, .. }) => Some((game, i)),
                    _ => None,
                }
                &&& final(self).sent_inning == app.fetching_inning
            } else {
                r is None && final(self).sent_inning == old(self).sent_inning
            },
            *final(self) == (LoopState { sent_inning: final(self).sent_inning, ..*old(self) }),
    {
        if app.fetching_inning != self.sent_inning {
            self.sent_inning = app.fetching_inning;
            match (app.fetching_inning, &app.screen) {
                (Some(i), Screen::Live { game, .. }) => Some((game.clone(), i)),
                _ => None,
            }
        } else {
            None
        }
    }

    /// Whether the frame must be cleared and drawn whole: the view changed
    /// since the last frame (screen, tab or overlay).
    pub fn view_changed(&mut self, app: &App) -> (b: bool)
        ensures
            ({
                let k = (
                    if app.screen is List {
                        0u8
                    } else {
                        1u8
                    },
                    if app.tab == Tab::Games {
                        0u8
                    } else {
                        1u8
                    },
                    app.overlay_open(),
                );
                &&& b == (k != old(self).last_view_key)
                &&& final(self).last_view_key == k
            }),
            final(self).auto_team == old(self).auto_team,
            final(self).watching == old(self).watching,
            final(self).sent_date == old(self).sent_date,
            final(self).sent_poll == old(self).sent_poll,
            final(self).sent_inning == old(self).sent_inning,
            final(self).prev_today == old(self).prev_today,
            final(self).mouse_on == old(self).mouse_on,
    {
        let k = app.view_key();
        let changed = k.0 != self.last_view_key.0 || k.1 != self.last_view_key.1 || k.2
            != self.last_view_key.2;
        self.last_view_key = k;
        changed
    }

    /// The mouse capture to switch to when it differs from the setting.
    pub fn mouse_switch(&mut self, app: &App) -> (r: Option<bool>)
        ensures
            if app.mouse != old(self).mouse_on {
                r == Some(app.mouse) && final(self).mouse_on == app.mouse
            } else {
                r is None && final(self).mouse_on == old(self).mouse_on
            },
            final(self).auto_team == old(self).auto_team,
            final(self).watching == old(self).watching,
            final(self).sent_date == old(self).sent_date,
            final(self).sent_poll == old(self).sent_poll,
            final(self).sent_inning == old(self).sent_inning,
            final(self).prev_today == old(self).prev_today,
            final(self).last_view_key == old(self).last_view_key,
    {
        if app.mouse != self.mouse_on {
            self.mouse_on = app.mouse;
            Some(app.mouse)
        } else {
            None
        }
    }
}

} // verus!
