//! The screen state of the viewer and how keys, mouse events and poller
//! updates change it. Drawing is not here: the screens read this state.
use vstd::prelude::*;
use crate::config::Config;
use crate::launch::Lang;
use crate::localtime::TimeZone;
use crate::model::{AtBat, Game, GameStatus, LiveState, NewsItem, Standing};
use crate::strutil::str_eq;

pub mod live;
pub mod keys;
pub mod settings;
pub mod update;
pub mod laws;
pub mod driver;

verus! {

/// The tab of the list screen.
#[derive(Debug, Clone, Copy, PartialEq, Eq, Structural)]
pub enum Tab {
    Games,
    Standings,
}

/// The pane of the F2 picker (the date is the only one).
#[derive(Debug, Clone, Copy, PartialEq, Eq, Structural)]
pub enum Pane {
    Date,
}

/// The F2 picker while it is open.
#[derive(Debug, Clone, Copy, PartialEq, Eq, Structural)]
pub struct OptionsState {
    pub pane: Pane,
    pub cursor: usize,
}

/// The `o` link picker while it is open: (label, URL) items and the cursor.
#[derive(Debug, PartialEq)]
pub struct LinkPickerState {
    pub items: Vec<(String, String)>,
    pub cursor: usize,
}

/// The in-app excerpt of one news item, with its scroll offset.
#[derive(Debug, PartialEq)]
pub struct ArticleView {
    pub item: NewsItem,
    pub scroll: u16,
}

/// The news list overlay; an article can be open on top of it.
#[derive(Debug, Clone, Copy, PartialEq, Eq, Structural)]
pub struct NewsListState {
    pub cursor: usize,
}

/// The settings screen: its cursor and whether the last save failed.
#[derive(Debug, Clone, Copy, PartialEq, Eq, Structural)]
pub struct SettingsState {
    pub cursor: usize,
    pub save_failed: bool,
}

/// The kind of a settings row; changes dispatch on it, not on the row index.
#[derive(Debug, Clone, Copy, PartialEq, Eq, Structural)]
pub enum SettingKind {
    Team,
    Poll,
    ThemePreset,
    ThemeAccent,
    Lang,
    /// Mouse capture; off gives the terminal its selection back.
    Mouse,
}

/// What a settings row shows, before it is put in the words of the display
/// language.
#[derive(Debug, PartialEq)]
pub enum RowValue {
    /// No favorite team: the "none" label.
    NoTeam,
    /// A club among the choices, by KBO code: shown by its name.
    TeamName(String),
    /// Text shown as it is: an unknown team code, a `#rrggbb` accent.
    Text(String),
    /// A poll interval, in seconds.
    Seconds(u64),
    /// A theme preset by name: `default`, `high-contrast` or `mono`.
    Preset(String),
    /// A named accent source other than the team: a color name or `none`.
    AccentName(String),
    /// The team's colors (also shown for an accent value that is not known).
    AccentTeam,
    Language(Lang),
    /// A switch: on or off.
    OnOff(bool),
}

/// The screen: the list (games or standings) or the live view of one game.
#[derive(Debug, PartialEq)]
pub enum Screen {
    List,
    Live { game: Game, state: Option<LiveState> },
}

/// The mouse actions the app reacts to.
#[derive(Debug, Clone, Copy, PartialEq, Eq, Structural)]
pub enum MouseAction {
    Click,
    ScrollUp,
    ScrollDown,
}

/// A key as the app reads it.
#[derive(Debug, Clone, Copy, PartialEq, Eq, Structural)]
pub enum Key {
    Char(char),
    F(u8),
    Esc,
    Enter,
    Tab,
    Up,
    Down,
    Left,
    Right,
    PageUp,
    PageDown,
    Other,
}

/// What was drawn under the mouse pointer.
#[derive(Debug, Clone, Copy, PartialEq, Eq, Structural)]
pub enum Zone {
    Tab(Tab),
    GameRow(usize),
    StandingRow(usize),
    RelayLine(usize),
    /// The strike zone and the side view: the wheel steps through pitches.
    PitchNav,
}

/// What the drawing side offers for the current frame: the dates of the F2
/// picker (in its order) and the (label, URL) links of the `o` picker.
#[derive(Debug, PartialEq)]
pub struct Menus {
    pub dates: Vec<String>,
    pub links: Vec<(String, String)>,
}

/// What a key asks of the surrounding loop besides the new state.
#[derive(Debug, PartialEq)]
pub enum KeyAction {
    Stay,
    Quit,
    /// Open this URL in the browser.
    Open(String),
    /// Write these settings to the settings file, then report the outcome
    /// with `App::record_save`.
    Save(Config),
}

/// The at-bats of one finished inning of one game, fetched once.
#[derive(Debug, PartialEq)]
pub struct PastInning {
    pub game_id: String,
    pub inning: u8,
    pub at_bats: Vec<AtBat>,
}

pub struct App {
    pub config: Config,
    pub tab: Tab,
    pub screen: Screen,
    pub games: Vec<Game>,
    /// Whether a games update has arrived (an empty list then means no games).
    pub games_loaded: bool,
    pub standings_loaded: bool,
    pub standings: Vec<Standing>,
    pub selected: usize,
    pub last_error: Option<String>,
    pub stale: bool,
    pub show_help: bool,
    /// A first `g` was pressed; a second one jumps to the top.
    pub pending_g: bool,
    /// The date shown, `YYYY-MM-DD`.
    pub date: String,
    /// A fetch is in flight (the header spinner).
    pub fetching: bool,
    pub spinner_frame: u8,
    /// The pitch picked in the at-bat being read (none: all of them).
    pub live_pitch_sel: Option<usize>,
    /// The number (not the index) of the past at-bat being read; none follows
    /// the live one.
    pub live_atbat_sel: Option<i64>,
    /// The relay line under the cursor in the at-bat being read.
    pub live_relay_cursor: Option<usize>,
    /// Innings fetched for rewinding: per game and inning, the first entry
    /// counts. The current inning is never cached.
    pub past_innings: Vec<PastInning>,
    /// The rank of the team whose season stats are open.
    pub team_stats_rank: Option<u16>,
    /// The inning being fetched for rewinding.
    pub fetching_inning: Option<u8>,
    /// The favorite team's KBO code.
    pub fav_code: Option<String>,
    /// UTC seconds, updated by the loop every tick.
    pub now_secs: u64,
    /// `now_secs` at the last update that brought data.
    pub last_update_secs: Option<u64>,
    pub tz: TimeZone,
    pub news: Vec<NewsItem>,
    pub options: Option<OptionsState>,
    /// The live poll interval in seconds.
    pub poll_choice: u64,
    pub tips_override: Option<Vec<String>>,
    pub link_picker: Option<LinkPickerState>,
    pub article_view: Option<ArticleView>,
    pub news_list: Option<NewsListState>,
    pub settings: Option<SettingsState>,
    pub lang: Lang,
    /// `default`, `high-contrast` or `mono`.
    pub theme_preset: String,
    /// `team`, a color name, a hex color or `none`.
    pub theme_accent: String,
    /// Why the settings file could not be read; such a file is never
    /// overwritten.
    pub config_error: Option<String>,
    pub mouse: bool,
}

/// Status rank for choosing among a team's games: in progress first, then
/// suspended, then scheduled, then the rest.
pub open spec fn status_rank(s: GameStatus) -> int {
    match s {
        GameStatus::Live => 0,
        GameStatus::Suspended => 1,
        GameStatus::Scheduled => 2,
        _ => 3,
    }
}

pub open spec fn plays_in(g: Game, code: Seq<char>) -> bool {
    g.home.code@ == code || g.away.code@ == code
}

fn rank_of(s: GameStatus) -> (r: u8)
    ensures
        r == status_rank(s),
{
    match s {
        GameStatus::Live => 0,
        GameStatus::Suspended => 1,
        GameStatus::Scheduled => 2,
        _ => 3,
    }
}

/// Whether game `i` is the one a team's games lead to: among the games the
/// team plays, the best status rank, the earliest on a tie.
pub open spec fn is_best_game(games: Seq<Game>, code: Seq<char>, i: int) -> bool {
    &&& 0 <= i < games.len()
    &&& plays_in(games[i], code)
    &&& forall|j: int|
        0 <= j < games.len() && plays_in(#[trigger] games[j], code) ==> (status_rank(games[i].status)
            < status_rank(games[j].status) || (status_rank(games[i].status) == status_rank(
            games[j].status,
        ) && i <= j))
}

/// The game the favorite team's live view opens (see `is_best_game`): a
/// double header enters the game that is on.
pub fn pick_team_game<'a>(games: &'a [Game], code: &str) -> (r: Option<&'a Game>)
    ensures
        match r {
            Some(g) => exists|i: int| is_best_game(games@, code@, i) && *g == games@[i],
            None => forall|j: int| 0 <= j < games@.len() ==> !plays_in(games@[j], code@),
        },
{
    let mut best: Option<usize> = None;
    let mut i: usize = 0;
    while i < games.len()
        invariant
            i <= games@.len(),
            match best {
                Some(b) => b < i && plays_in(games@[b as int], code@) && (forall|j: int|
                    0 <= j < i && plays_in(games@[j], code@) ==> (status_rank(
                        games@[b as int].status,
                    ) < status_rank(games@[j].status) || (status_rank(games@[b as int].status)
                        == status_rank(games@[j].status) && b <= j))),
                None => forall|j: int| 0 <= j < i ==> !plays_in(games@[j], code@),
            },
        decreases games@.len() - i,
    {
        let g = &games[i];
        if str_eq(g.home.code.as_str(), code) || str_eq(g.away.code.as_str(), code) {
            match best {
                Some(b) => {
                    if rank_of(g.status) < rank_of(games[b].status) {
                        best = Some(i);
                    }
                },
                None => {
                    best = Some(i);
                },
            }
        }
        i += 1;
    }
    match best {
        Some(b) => Some(&games[b]),
        None => None,
    }
}

/// A canceled or scheduled game has no relay to show.
pub open spec fn spec_can_enter_live(status: GameStatus) -> bool {
    !(status == GameStatus::Canceled || status == GameStatus::Scheduled)
}

/// Index of the first game whose id is `id`.
pub open spec fn first_game_with_id(games: Seq<Game>, id: Seq<char>) -> Option<int>
    decreases games.len(),
{
    if games.len() == 0 {
        None
    } else if games[0].id@ == id {
        Some(0)
    } else {
        match first_game_with_id(games.drop_first(), id) {
            Some(i) => Some(i + 1),
            None => None,
        }
    }
}

pub proof fn lemma_first_game_with_id(games: Seq<Game>, id: Seq<char>)
    ensures
        match first_game_with_id(games, id) {
            Some(i) => 0 <= i < games.len() && games[i].id@ == id && forall|j: int|
                0 <= j < i ==> games[j].id@ != id,
            None => forall|j: int| 0 <= j < games.len() ==> games[j].id@ != id,
        },
    decreases games.len(),
{
    if games.len() > 0 {
        lemma_first_game_with_id(games.drop_first(), id);
        if games[0].id@ != id {
            assert forall|j: int| 0 < j < games.len() implies games[j] == games.drop_first()[j
                - 1] by {}
        }
    }
}

/// The index of the first game whose id is `id`.
pub fn find_game(games: &Vec<Game>, id: &String) -> (r: Option<usize>)
    ensures
        match first_game_with_id(games@, id@) {
            Some(i) => 0 <= i < games.len() && r == Some(i as usize),
            None => r is None,
        },
{
    proof {
        lemma_first_game_with_id(games@, id@);
    }
    let mut i: usize = 0;
    while i < games.len()
        invariant
            i <= games@.len(),
            forall|j: int| 0 <= j < i ==> games@[j].id@ != id@,
        decreases games@.len() - i,
    {
        if games[i].id == *id {
            proof {
                lemma_first_game_with_id(games@, id@);
            }
            return Some(i);
        }
        i += 1;
    }
    None
}

/// Index of the first standings row with rank `rank`.
pub open spec fn first_rank_index(rows: Seq<Standing>, rank: u16) -> Option<int>
    decreases rows.len(),
{
    if rows.len() == 0 {
        None
    } else if rows[0].rank == rank {
        Some(0)
    } else {
        match first_rank_index(rows.drop_first(), rank) {
            Some(i) => Some(i + 1),
            None => None,
        }
    }
}

pub proof fn lemma_first_rank_index(rows: Seq<Standing>, rank: u16)
    ensures
        match first_rank_index(rows, rank) {
            Some(i) => 0 <= i < rows.len() && rows[i].rank == rank && forall|j: int|
                0 <= j < i ==> rows[j].rank != rank,
            None => forall|j: int| 0 <= j < rows.len() ==> rows[j].rank != rank,
        },
    decreases rows.len(),
{
    if rows.len() > 0 {
        lemma_first_rank_index(rows.drop_first(), rank);
        if rows[0].rank != rank {
            assert forall|j: int| 0 < j < rows.len() implies rows[j] == rows.drop_first()[j
                - 1] by {}
        }
    }
}

/// The row of the team whose stats are open: the first row with the open
/// rank, if that team has played (a team before its first game has nothing
/// to show).
pub open spec fn stats_target(rows: Seq<Standing>, rank: Option<u16>) -> Option<int> {
    match rank {
        Some(r) => match first_rank_index(rows, r) {
            Some(i) => if rows[i].games > 0 {
                Some(i)
            } else {
                None
            },
            None => None,
        },
        None => None,
    }
}

impl App {
    /// The list screen on the games tab, nothing loaded, no overlay open,
    /// polling every five seconds, English, default theme, KST display.
    pub fn new(config: Config) -> (r: App)
        ensures
            r.config == config,
            r.mouse == config.mouse,
            r.tab == Tab::Games,
            r.screen == Screen::List,
            r.games@.len() == 0,
            r.standings@.len() == 0,
            r.news@.len() == 0,
            r.past_innings@.len() == 0,
            !r.games_loaded && !r.standings_loaded,
            r.selected == 0,
            r.last_error is None,
            r.config_error is None,
            !r.stale && !r.show_help && !r.pending_g && !r.fetching,
            r.date@.len() == 0,
            r.spinner_frame == 0,
            r.live_pitch_sel is None && r.live_atbat_sel is None && r.live_relay_cursor is None,
            r.team_stats_rank is None && r.fetching_inning is None,
            r.fav_code is None,
            r.now_secs == 0,
            r.last_update_secs is None,
            r.tz.offset_secs == crate::localtime::KST_OFFSET_SECS,
            r.tz.abbrev@ == seq!['K', 'S', 'T'],
            r.options is None && r.link_picker is None && r.article_view is None,
            r.news_list is None && r.settings is None,
            r.tips_override is None,
            r.poll_choice == 5,
            r.lang == Lang::En,
            r.theme_preset@ == "default"@,
            r.theme_accent@ == "team"@,
    {
        broadcast use vstd::string::group_string_axioms;
        let mouse = config.mouse;
        App {
            config,
            config_error: None,
            tab: Tab::Games,
            screen: Screen::List,
            games: Vec::new(),
            games_loaded: false,
            standings_loaded: false,
            standings: Vec::new(),
            selected: 0,
            last_error: None,
            stale: false,
            show_help: false,
            pending_g: false,
            date: String::new(),
            fetching: false,
            spinner_frame: 0,
            live_pitch_sel: None,
            live_atbat_sel: None,
            live_relay_cursor: None,
            team_stats_rank: None,
            past_innings: Vec::new(),
            fetching_inning: None,
            fav_code: None,
            now_secs: 0,
            last_update_secs: None,
            tz: TimeZone::kst(),
            news: Vec::new(),
            options: None,
            poll_choice: 5,
            tips_override: None,
            link_picker: None,
            article_view: None,
            news_list: None,
            settings: None,
            lang: Lang::En,
            theme_preset: "default".to_string(),
            theme_accent: "team".to_string(),
            mouse,
        }
    }

    /// A canceled or scheduled game has no relay: the live view is not
    /// entered for it.
    pub fn can_enter_live(status: GameStatus) -> (b: bool)
        ensures
            b == spec_can_enter_live(status),
    {
        !matches!(status, GameStatus::Canceled | GameStatus::Scheduled)
    }

    /// The length of the list the cursor moves in.
    pub open spec fn list_len(&self) -> int {
        match self.tab {
            Tab::Games => self.games@.len() as int,
            Tab::Standings => self.standings@.len() as int,
        }
    }

    pub fn current_len(&self) -> (n: usize)
        ensures
            n == self.list_len(),
    {
        match self.tab {
            Tab::Games => self.games.len(),
            Tab::Standings => self.standings.len(),
        }
    }

    /// The post-state of entering the live view of `game`: the list cursor
    /// moves to that game when the list has it, the three live selections and
    /// the inning request are cleared; fetched innings stay.
    pub open spec fn entered_live(pre: App, game: Game) -> App {
        App {
            selected: match first_game_with_id(pre.games@, game.id@) {
                Some(i) => i as usize,
                None => pre.selected,
            },
            screen: Screen::Live { game, state: None },
            live_pitch_sel: None,
            live_atbat_sel: None,
            live_relay_cursor: None,
            fetching_inning: None,
            ..pre
        }
    }

    /// The common way into the live view (Enter and the favorite team).
    pub fn enter_live(&mut self, game: Game)
        ensures
            *final(self) == App::entered_live(*old(self), game),
    {
        match find_game(&self.games, &game.id) {
            Some(i) => {
                self.selected = i;
            },
            None => {},
        }
        self.screen = Screen::Live { game, state: None };
        self.live_pitch_sel = None;
        self.live_atbat_sel = None;
        self.live_relay_cursor = None;
        self.fetching_inning = None;
    }

    /// The standings row whose stats overlay is shown (see `stats_target`).
    pub fn team_stats_target(&self) -> (r: Option<&Standing>)
        ensures
            match stats_target(self.standings@, self.team_stats_rank) {
                Some(i) => r == Some(&self.standings@[i]),
                None => r is None,
            },
    {
        let rank = match self.team_stats_rank {
            Some(r) => r,
            None => return None,
        };
        proof {
            lemma_first_rank_index(self.standings@, rank);
        }
        let mut i: usize = 0;
        while i < self.standings.len()
            invariant
                i <= self.standings@.len(),
                self.team_stats_rank == Some(rank),
                forall|j: int| 0 <= j < i ==> self.standings@[j].rank != rank,
            decreases self.standings@.len() - i,
        {
            if self.standings[i].rank == rank {
                proof {
                    lemma_first_rank_index(self.standings@, rank);
                }
                if self.standings[i].games > 0 {
                    return Some(&self.standings[i]);
                } else {
                    return None;
                }
            }
            i += 1;
        }
        None
    }

    /// Whether Enter on the standings row under the cursor opens its stats:
    /// on the standings list, when that team has played.
    pub fn team_stats_available(&self) -> (b: bool)
        ensures
            b <==> (self.tab == Tab::Standings && self.screen is List && self.selected
                < self.standings@.len() && self.standings@[self.selected as int].games > 0),
    {
        self.tab == Tab::Standings && matches!(self.screen, Screen::List) && self.selected
            < self.standings.len() && self.standings[self.selected].games > 0
    }

    /// The game the live view shows, which the poller must follow.
    pub fn watched_game(&self) -> (r: Option<&Game>)
        ensures
            match self.screen {
                Screen::Live { game, .. } => r == Some(&game),
                Screen::List => r is None,
            },
    {
        match &self.screen {
            Screen::Live { game, .. } => Some(game),
            Screen::List => None,
        }
    }

    /// Whether an overlay covers the screen.
    pub open spec fn overlay_open(&self) -> bool {
        self.show_help || self.settings is Some || self.options is Some || self.link_picker is Some
            || self.news_list is Some || self.article_view is Some || stats_target(
            self.standings@,
            self.team_stats_rank,
        ) is Some
    }

    /// What the frame shows: (list 0 / live 1, games 0 / standings 1, overlay
    /// open). The loop redraws everything when it changes.
    pub fn view_key(&self) -> (r: (u8, u8, bool))
        ensures
            r.0 == (if self.screen is List {
                0u8
            } else {
                1u8
            }),
            r.1 == (if self.tab == Tab::Games {
                0u8
            } else {
                1u8
            }),
            r.2 == self.overlay_open(),
    {
        let screen: u8 = match self.screen {
            Screen::List => 0,
            Screen::Live { .. } => 1,
        };
        let tab: u8 = match self.tab {
            Tab::Games => 0,
            Tab::Standings => 1,
        };
        let overlay = self.show_help || self.settings.is_some() || self.options.is_some()
            || self.link_picker.is_some() || self.news_list.is_some()
            || self.article_view.is_some() || self.team_stats_target().is_some();
        (screen, tab, overlay)
    }
}

} // verus!
