//! How an update from the poller changes the screen state: new data, the
//! live state of the game being watched (keeping the place being read), a
//! fetched past inning, an error.
use vstd::prelude::*;
use crate::app::{first_game_with_id, lemma_first_game_with_id, App, NewsListState, PastInning, Screen};
use crate::app::live::{
    cache_inning, cache_stored, first_inning_entry, first_kept, gather_past, has_game, holds_seq,
    lemma_first_inning_entry, merge_past_innings, past_for, past_upto,
};
use crate::model::lemma_first_seq_index;
use crate::model::{AtBat, Game, LiveState, NewsItem};
use crate::poller::Update;

verus! {

/// The live state `l` with the cached innings of game `id` put before its
/// at-bats (see `merge_past_innings`).
pub open spec fn merged_state(x: LiveState, l: LiveState, entries: Seq<PastInning>, id: Seq<char>) -> bool {
    if has_game(entries, id) {
        x == (LiveState { at_bats: x.at_bats, ..l }) && first_kept(
            x.at_bats@,
            l.at_bats@ + past_for(entries, id),
        )
    } else {
        x == l
    }
}

/// The selections after a new live state `l` of the watched game arrives
/// (previous state `prev`): (pitch, at-bat, relay cursor).
///
/// While a past at-bat is read, nothing moves unless that at-bat left the
/// list shown (`shown`: the reply with the cached innings of the game);
/// then all three return to the live one. While following the live
/// at-bat, a new at-bat (another last number, or fewer current pitches)
/// clears pitch and cursor, and so does a pitch selection beyond the
/// pitches now shown.
pub open spec fn followed_sels(
    pitch: Option<usize>,
    atbat: Option<i64>,
    cursor: Option<usize>,
    prev: Option<LiveState>,
    l: LiveState,
    shown: Seq<AtBat>,
) -> (Option<usize>, Option<i64>, Option<usize>) {
    match atbat {
        Some(seq) => if holds_seq(shown, seq) {
            (pitch, Some(seq), cursor)
        } else {
            (None, None, None)
        },
        None => {
            let seq_changed = match prev {
                Some(p) => l.at_bats@.len() > 0 && (p.at_bats@.len() == 0 || p.at_bats@.last().seq
                    != l.at_bats@.last().seq),
                None => false,
            };
            let fewer = match prev {
                Some(p) => l.current_pitches@.len() < p.current_pitches@.len(),
                None => false,
            };
            let (p1, c1) = if seq_changed || fewer {
                (None, None)
            } else {
                (pitch, cursor)
            };
            match p1 {
                Some(i) => if i >= l.active_pitch_seq(None).len() {
                    (None, None, None)
                } else {
                    (p1, None, c1)
                },
                None => (p1, None, c1),
            }
        },
    }
}

/// The at-bats a live reply `l` of game `id` shows: its own, then the
/// cached ones of the game (a number in both is shown once, see
/// `merged_state`).
pub open spec fn shown_at_bats(l: LiveState, entries: Seq<PastInning>, id: Seq<char>) -> Seq<AtBat> {
    l.at_bats@ + past_for(entries, id)
}

/// With nothing cached for a game, nothing is read from the cache for it.
pub proof fn lemma_no_game_no_past(entries: Seq<PastInning>, game: Seq<char>, n: int)
    requires
        !has_game(entries, game),
    ensures
        past_upto(entries, game, n).len() == 0,
    decreases n,
{
    if n > 0 {
        lemma_no_game_no_past(entries, game, n - 1);
        lemma_first_inning_entry(entries, game, n - 1);
        if first_inning_entry(entries, game, n - 1) is Some {
            let k = first_inning_entry(entries, game, n - 1)->0;
            assert(entries[k].game_id@ == game);
        }
    }
}

/// The merged live state holds exactly the numbers of the list shown.
pub proof fn lemma_merged_holds(x: LiveState, l: LiveState, entries: Seq<PastInning>, id: Seq<char>, seq: i64)
    requires
        merged_state(x, l, entries, id),
    ensures
        holds_seq(x.at_bats@, seq) == holds_seq(shown_at_bats(l, entries, id), seq),
{
    let c = shown_at_bats(l, entries, id);
    if has_game(entries, id) {
        if holds_seq(x.at_bats@, seq) {
            let k = choose|k: int| 0 <= k < x.at_bats@.len() && x.at_bats@[k].seq == seq;
            lemma_first_seq_index(c, x.at_bats@[k].seq);
        }
        if holds_seq(c, seq) {
            let j = choose|j: int| 0 <= j < c.len() && c[j].seq == seq;
            assert(holds_seq(x.at_bats@, c[j].seq));
        }
    } else {
        lemma_no_game_no_past(entries, id, 256);
        assert(c == l.at_bats@);
    }
}

/// The bookkeeping of an update that is not a spinner, news or tips signal:
/// the spinner stops and the screen is no longer stale; data (not an error)
/// also clears the last error and stamps the time.
pub open spec fn data_arrived(pre: App, is_error: bool) -> App {
    App {
        fetching: false,
        stale: false,
        last_error: if is_error {
            pre.last_error
        } else {
            None
        },
        last_update_secs: if is_error {
            pre.last_update_secs
        } else {
            Some(pre.now_secs)
        },
        ..pre
    }
}

/// The state after update `up`.
pub open spec fn applied(pre: App, up: Update, post: App) -> bool {
    match up {
        Update::Fetching => post == (App { fetching: true, ..pre }),
        Update::News(n) => post == (App {
            news: n,
            news_list: if n@.len() == 0 {
                None
            } else {
                match pre.news_list {
                    Some(l) => Some(
                        NewsListState {
                            cursor: if l.cursor < n@.len() - 1 {
                                l.cursor
                            } else {
                                (n@.len() - 1) as usize
                            },
                        },
                    ),
                    None => None,
                }
            },
            ..pre
        }),
        Update::Tips(t) => post == (App { tips_override: Some(t), ..pre }),
        Update::Games(g) => {
            let base = data_arrived(pre, false);
            post == (App {
                games: g,
                games_loaded: true,
                selected: if pre.selected >= g@.len() {
                    if g@.len() == 0 {
                        0
                    } else {
                        (g@.len() - 1) as usize
                    }
                } else {
                    pre.selected
                },
                screen: match pre.screen {
                    Screen::Live { game, state } => match first_game_with_id(g@, game.id@) {
                        Some(i) => Screen::Live { game: g@[i], state },
                        None => pre.screen,
                    },
                    Screen::List => Screen::List,
                },
                ..base
            })
        },
        Update::Standings(s) => post == (App {
            standings: s,
            standings_loaded: true,
            ..data_arrived(pre, false)
        }),
        Update::Error(e) => post == (App {
            last_error: Some(e),
            stale: true,
            fetching_inning: None,
            ..data_arrived(pre, true)
        }),
        Update::Live(id, l) => {
            let base = data_arrived(pre, false);
            match pre.screen {
                Screen::Live { game, state } => if game.id@ == id@ {
                    let sels = followed_sels(
                        pre.live_pitch_sel,
                        pre.live_atbat_sel,
                        pre.live_relay_cursor,
                        state,
                        l,
                        shown_at_bats(l, pre.past_innings@, id@),
                    );
                    &&& post == (App {
                        live_pitch_sel: sels.0,
                        live_atbat_sel: sels.1,
                        live_relay_cursor: sels.2,
                        screen: post.screen,
                        ..base
                    })
                    &&& post.screen matches Screen::Live { game: g2, state: Some(x) } && g2 == game
                        && merged_state(x, l, pre.past_innings@, id@)
                } else {
                    post == base
                },
                Screen::List => post == base,
            }
        },
        Update::Inning { game_id, inning, at_bats } => {
            let base = data_arrived(pre, false);
            let fetching_inning = if pre.fetching_inning == Some(inning) {
                None
            } else {
                pre.fetching_inning
            };
            match pre.screen {
                Screen::Live { game, state } => if game.id@ == game_id@ {
                    let cache = cache_stored(pre.past_innings@, game_id, inning, at_bats);
                    &&& post == (App {
                        past_innings: post.past_innings,
                        screen: post.screen,
                        fetching_inning,
                        ..base
                    })
                    &&& post.past_innings@ == cache
                    &&& match state {
                        Some(s) => post.screen matches Screen::Live { game: g2, state: Some(x) } && g2
                            == game && merged_state(x, s, cache, game_id@),
                        None => post.screen == pre.screen,
                    }
                } else {
                    post == (App { fetching_inning, ..base })
                },
                Screen::List => post == (App { fetching_inning, ..base }),
            }
        },
    }
}

/// `l` with the cached innings of game `id` before its at-bats.
fn merged_into(entries: &Vec<PastInning>, id: &String, l: LiveState) -> (r: LiveState)
    ensures
        merged_state(r, l, entries@, id@),
{
    let mut l = l;
    merge_past_innings(entries, id, &mut l);
    l
}

/// The state that the live screen held before.
pub open spec fn screen_state(sc: Screen) -> Option<LiveState> {
    match sc {
        Screen::Live { state, .. } => state,
        Screen::List => None,
    }
}

/// Whether an at-bat numbered `seq` is among `v`.
fn seq_in(v: &Vec<AtBat>, seq: i64) -> (b: bool)
    ensures
        b == holds_seq(v@, seq),
{
    let mut i: usize = 0;
    while i < v.len()
        invariant
            i <= v@.len(),
            forall|j: int| 0 <= j < i ==> v@[j].seq != seq,
        decreases v@.len() - i,
    {
        if v[i].seq == seq {
            return true;
        }
        i += 1;
    }
    false
}

/// Whether an at-bat numbered `seq` is in the list that reply `l` of game
/// `id` shows.
fn shown_holds(entries: &Vec<PastInning>, id: &String, l: &LiveState, seq: i64) -> (b: bool)
    ensures
        b == holds_seq(shown_at_bats(*l, entries@, id@), seq),
{
    let ghost c = shown_at_bats(*l, entries@, id@);
    if l.has_at_bat(seq) {
        proof {
            let k = choose|k: int| 0 <= k < l.at_bats@.len() && l.at_bats@[k].seq == seq;
            assert(c[k] == l.at_bats@[k]);
        }
        return true;
    }
    let past = gather_past(entries, id);
    let r = seq_in(&past, seq);
    proof {
        let pf = past_for(entries@, id@);
        if r {
            let k = choose|k: int| 0 <= k < past@.len() && past@[k].seq == seq;
            assert(c[l.at_bats@.len() + k] == pf[k]);
        }
        if holds_seq(c, seq) {
            let j = choose|j: int| 0 <= j < c.len() && c[j].seq == seq;
            if j >= l.at_bats@.len() {
                assert(c[j] == pf[j - l.at_bats@.len()]);
                assert(past@[j - l.at_bats@.len()].seq == seq);
            } else {
                assert(c[j] == l.at_bats@[j]);
            }
        }
    }
    r
}

fn follow(
    pitch: Option<usize>,
    atbat: Option<i64>,
    cursor: Option<usize>,
    screen: &Screen,
    l: &LiveState,
    kept: bool,
    shown: Ghost<Seq<AtBat>>,
) -> (r: (Option<usize>, Option<i64>, Option<usize>))
    requires
        atbat matches Some(seq) ==> kept == holds_seq(shown@, seq),
    ensures
        r == followed_sels(pitch, atbat, cursor, screen_state(*screen), *l, shown@),
{
    match atbat {
        Some(seq) => {
            if kept {
                (pitch, Some(seq), cursor)
            } else {
                (None, None, None)
            }
        },
        None => {
            let (seq_changed, fewer) = match screen {
                Screen::Live { state: Some(prev), .. } => {
                    let sc = if l.at_bats.len() > 0 {
                        let new_last = l.at_bats[l.at_bats.len() - 1].seq;
                        if prev.at_bats.len() == 0 {
                            true
                        } else {
                            prev.at_bats[prev.at_bats.len() - 1].seq != new_last
                        }
                    } else {
                        false
                    };
                    (sc, l.current_pitches.len() < prev.current_pitches.len())
                },
                _ => (false, false),
            };
            let (p1, c1) = if seq_changed || fewer {
                (None, None)
            } else {
                (pitch, cursor)
            };
            match p1 {
                Some(i) => {
                    if i >= l.active_pitches(None).len() {
                        (None, None, None)
                    } else {
                        (p1, None, c1)
                    }
                },
                None => (p1, None, c1),
            }
        },
    }
}

impl App {
    fn mark_data(&mut self, is_error: bool)
        ensures
            *final(self) == data_arrived(*old(self), is_error),
    {
        self.fetching = false;
        self.stale = false;
        if !is_error {
            self.last_error = None;
            self.last_update_secs = Some(self.now_secs);
        }
    }

    fn apply_news(&mut self, n: Vec<NewsItem>)
        ensures
            applied(*old(self), Update::News(n), *final(self)),
    {
        let len = n.len();
        self.news = n;
        if len == 0 {
            self.news_list = None;
        } else {
            match self.news_list {
                Some(l) => {
                    let c = if l.cursor < len - 1 {
                        l.cursor
                    } else {
                        len - 1
                    };
                    self.news_list = Some(NewsListState { cursor: c });
                },
                None => {},
            }
        }
    }

    fn apply_games(&mut self, g: Vec<Game>)
        ensures
            applied(*old(self), Update::Games(g), *final(self)),
    {
        self.mark_data(false);
        let fresh: Option<Game> = match &self.screen {
            Screen::Live { game, .. } => {
                proof {
                    lemma_first_game_with_id(g@, game.id@);
                }
                match crate::app::find_game(&g, &game.id) {
                    Some(i) => Some(g[i].clone()),
                    None => None,
                }
            },
            Screen::List => None,
        };
        let len = g.len();
        self.games = g;
        self.games_loaded = true;
        if self.selected >= len {
            self.selected = if len == 0 {
                0
            } else {
                len - 1
            };
        }
        if let Some(f) = fresh {
            let mut sc = Screen::List;
            std::mem::swap(&mut sc, &mut self.screen);
            self.screen = match sc {
                Screen::Live { state, .. } => Screen::Live { game: f, state },
                Screen::List => Screen::List,
            };
        }
    }

    fn apply_live(&mut self, id: String, l: LiveState)
        ensures
            applied(*old(self), Update::Live(id, l), *final(self)),
    {
        self.mark_data(false);
        let watched = match &self.screen {
            Screen::Live { game, .. } => game.id == id,
            Screen::List => false,
        };
        if !watched {
            return ;
        }
        let kept = match self.live_atbat_sel {
            Some(seq) => shown_holds(&self.past_innings, &id, &l, seq),
            None => false,
        };
        let sels = follow(
            self.live_pitch_sel,
            self.live_atbat_sel,
            self.live_relay_cursor,
            &self.screen,
            &l,
            kept,
            Ghost(shown_at_bats(l, self.past_innings@, id@)),
        );
        self.live_pitch_sel = sels.0;
        self.live_atbat_sel = sels.1;
        self.live_relay_cursor = sels.2;
        let merged = merged_into(&self.past_innings, &id, l);
        let mut sc = Screen::List;
        std::mem::swap(&mut sc, &mut self.screen);
        self.screen = match sc {
            Screen::Live { game, .. } => Screen::Live { game, state: Some(merged) },
            Screen::List => Screen::List,
        };
    }

    fn apply_inning(&mut self, game_id: String, inning: u8, at_bats: Vec<AtBat>)
        ensures
            applied(*old(self), Update::Inning { game_id, inning, at_bats }, *final(self)),
    {
        self.mark_data(false);
        let watched = match &self.screen {
            Screen::Live { game, .. } => game.id == game_id,
            Screen::List => false,
        };
        if watched {
            let gid = game_id.clone();
            cache_inning(&mut self.past_innings, game_id, inning, at_bats);
            let mut sc = Screen::List;
            std::mem::swap(&mut sc, &mut self.screen);
            self.screen = match sc {
                Screen::Live { game, state: Some(s) } => Screen::Live {
                    game,
                    state: Some(merged_into(&self.past_innings, &gid, s)),
                },
                other => other,
            };
        }
        if self.fetching_inning == Some(inning) {
            self.fetching_inning = None;
        }
    }

    /// Applies an update from the poller (see `applied`).
    pub fn apply(&mut self, up: Update)
        ensures
            applied(*old(self), up, *final(self)),
    {
        match up {
            Update::Fetching => {
                self.fetching = true;
            },
            Update::News(n) => self.apply_news(n),
            Update::Tips(t) => {
                self.tips_override = Some(t);
            },
            Update::Games(g) => self.apply_games(g),
            Update::Standings(s) => {
                self.mark_data(false);
                self.standings = s;
                self.standings_loaded = true;
            },
            Update::Error(e) => {
                self.mark_data(true);
                self.last_error = Some(e);
                self.stale = true;
                self.fetching_inning = None;
            },
            Update::Live(id, l) => self.apply_live(id, l),
            Update::Inning { game_id, inning, at_bats } => self.apply_inning(
                game_id,
                inning,
                at_bats,
            ),
        }
    }
}

} // verus!
