use kbotop::app::{
    pick_team_game, App, ArticleView, Key, KeyAction, Menus, MouseAction, NewsListState, Screen,
    RowValue, SettingKind, SettingsState, Tab, Zone,
};
use kbotop::config::Config;
use kbotop::launch::Lang;
use kbotop::model::{
    AtBat, BaseState, Count, Game, GameStatus, LiveState, NewsItem, Pitch, RelayLine, Standing,
    Team,
};
use kbotop::poller::Update;

fn no_menus() -> Menus {
    Menus { dates: vec![], links: vec![] }
}

fn press(app: &mut App, key: Key) -> KeyAction {
    app.on_key(key, &no_menus())
}

fn mouse(app: &mut App, zone: Option<Zone>, kind: MouseAction) {
    app.on_mouse(zone, kind, &no_menus())
}

fn new_app() -> App {
    App::new(Config::default())
}

fn team(code: &str) -> Team {
    Team { code: code.into(), name: code.into() }
}

fn game(id: &str) -> Game {
    Game {
        id: id.into(),
        start: "".into(),
        status: GameStatus::Live,
        status_label: "".into(),
        home: team("LG"),
        away: team("KT"),
        home_score: Some(1),
        away_score: Some(2),
        away_starter: String::new(),
        home_starter: String::new(),
        stadium: String::new(),
        broadcast: String::new(),
    }
}

fn game_with_status(id: &str, status: GameStatus) -> Game {
    let mut g = game(id);
    g.status = status;
    g
}

fn standing_with_games(rank: u16, games: u16) -> Standing {
    Standing {
        rank,
        team: Team { code: "SS".into(), name: format!("팀{rank}") },
        games,
        wins: 50,
        losses: 40,
        draws: 2,
        last_five: "WWLLD".into(),
        streak: "2패".into(),
    }
}

fn bare_state() -> LiveState {
    LiveState {
        inning_label: "T1".into(),
        home: team("LG"),
        away: team("KT"),
        home_score: 0,
        away_score: 0,
        count: Count { ball: 0, strike: 0, out: 0 },
        bases: BaseState { first: false, second: false, third: false },
        pitcher_name: String::new(),
        batter_name: String::new(),
        relay_log: vec![],
        current_pitches: vec![],
        next_batter_name: String::new(),
        at_bats: vec![],
        inning_score: Vec::new(),
    }
}

fn pitch(order: u8) -> Pitch {
    Pitch { order, ..Default::default() }
}

fn live_app_with_pitches(n: u8) -> App {
    let mut app = new_app();
    let pitches: Vec<Pitch> = (1..=n).map(pitch).collect();
    let mut state = bare_state();
    state.current_pitches = pitches.clone();
    state.at_bats = vec![AtBat {
        seq: 1,
        batter_name: String::new(),
        inning_label: "T1".into(),
        relay_lines: vec![],
        pitches,
    }];
    app.screen = Screen::Live { game: game("g"), state: Some(state) };
    app
}

fn at_bats_state(n: usize) -> LiveState {
    let at_bats: Vec<AtBat> = (0..n)
        .map(|i| AtBat {
            seq: 100 + i as i64,
            batter_name: format!("batter{i}"),
            inning_label: format!("T{}", i + 1),
            relay_lines: vec![
                RelayLine::plain(&format!("line-{i}-a")),
                RelayLine {
                    text: format!("line-{i}-b"),
                    pitch_idx: Some(0),
                    is_pitch: true,
                    time_hm: None,
                },
            ],
            pitches: vec![pitch(1)],
        })
        .collect();
    let last = at_bats.last().expect("n > 0").clone();
    let mut state = bare_state();
    state.inning_label = last.inning_label.clone();
    state.batter_name = last.batter_name.clone();
    state.relay_log = last.relay_lines.clone();
    state.current_pitches = last.pitches.clone();
    state.at_bats = at_bats;
    state
}

fn live_app_with_at_bats(n: usize) -> App {
    let mut app = new_app();
    app.screen = Screen::Live { game: game("g"), state: Some(at_bats_state(n)) };
    app
}

fn live_app_in_inning(inning: u8, n: usize) -> App {
    let mut app = live_app_with_at_bats(n);
    if let Screen::Live { state: Some(s), .. } = &mut app.screen {
        for ab in &mut s.at_bats {
            ab.inning_label = format!("T{inning}");
        }
        s.inning_label = format!("T{inning}");
    }
    app
}

fn at_bat(seq: i64, inning: u8, batter: &str) -> AtBat {
    AtBat {
        seq,
        batter_name: batter.into(),
        inning_label: format!("T{inning}"),
        relay_lines: vec![RelayLine::plain(&format!("{batter}-line"))],
        pitches: vec![pitch(1)],
    }
}

fn state_of(app: &App) -> &LiveState {
    match &app.screen {
        Screen::Live { state: Some(s), .. } => s,
        _ => panic!("expected live screen"),
    }
}

fn seqs_of(app: &App) -> Vec<i64> {
    state_of(app).at_bats.iter().map(|ab| ab.seq).collect()
}

fn sample_news_item() -> NewsItem {
    NewsItem {
        title: "제목텍스트".into(),
        source: "홍길동일보".into(),
        url: "https://m.example.com/x".into(),
        summary: "본문 내용".into(),
        published: String::new(),
    }
}

fn news_item(title: &str, url: &str) -> NewsItem {
    NewsItem {
        title: title.into(),
        source: "출처".into(),
        url: url.into(),
        summary: "발췌 내용".into(),
        published: String::new(),
    }
}

fn links(n: usize) -> Menus {
    Menus {
        dates: vec![],
        links: (0..n).map(|i| (format!("link {i}"), format!("https://example.com/{i}"))).collect(),
    }
}

// ── mouse ─────────────────────────────────────────────────────────────────

#[test]
fn a_click_on_another_row_selects_it_without_opening() {
    let mut app = new_app();
    app.mouse = true;
    app.games = vec![game("a"), game("b")];
    mouse(&mut app, Some(Zone::GameRow(1)), MouseAction::Click);
    assert_eq!(app.selected, 1);
    assert!(matches!(app.screen, Screen::List), "첫 클릭은 고르기만 해야 한다");
}

#[test]
fn a_click_on_the_selected_row_opens_it() {
    let mut app = new_app();
    app.mouse = true;
    app.games = vec![game("a"), game("b")];
    app.selected = 1;
    mouse(&mut app, Some(Zone::GameRow(1)), MouseAction::Click);
    assert!(
        matches!(&app.screen, Screen::Live { game, .. } if game.id == "b"),
        "고른 행을 다시 누르면 그 경기로 들어가야 한다"
    );
}

#[test]
fn clicking_a_tab_goes_to_that_tab_not_the_next_one() {
    let mut app = new_app();
    app.mouse = true;
    mouse(&mut app, Some(Zone::Tab(Tab::Standings)), MouseAction::Click);
    assert_eq!(app.tab, Tab::Standings);
    mouse(&mut app, Some(Zone::Tab(Tab::Standings)), MouseAction::Click);
    assert_eq!(app.tab, Tab::Standings, "같은 탭을 다시 눌러도 안 넘어간다");
}

#[test]
fn clicking_a_tab_from_the_live_screen_leaves_it() {
    let mut app = new_app();
    app.mouse = true;
    app.enter_live(game("a"));
    mouse(&mut app, Some(Zone::Tab(Tab::Games)), MouseAction::Click);
    assert!(matches!(app.screen, Screen::List));
}

#[test]
fn the_mouse_does_nothing_while_an_overlay_is_open() {
    let mut app = new_app();
    app.games = vec![game("a"), game("b")];
    app.show_help = true;
    mouse(&mut app, Some(Zone::GameRow(1)), MouseAction::Click);
    assert_eq!(app.selected, 0, "도움말이 떠 있는데 목록이 움직였다");
    assert!(app.show_help, "마우스로 오버레이가 닫히면 안 된다");
}

#[test]
fn a_scroll_over_nothing_does_nothing() {
    let mut app = new_app();
    app.games = vec![game("a"), game("b")];
    mouse(&mut app, None, MouseAction::ScrollDown);
    assert_eq!(app.selected, 0);
}

#[test]
fn a_scroll_over_the_list_moves_the_selection() {
    let mut app = new_app();
    app.mouse = true;
    app.games = vec![game("a"), game("b")];
    mouse(&mut app, Some(Zone::GameRow(0)), MouseAction::ScrollDown);
    assert_eq!(app.selected, 1);
    mouse(&mut app, Some(Zone::GameRow(1)), MouseAction::ScrollUp);
    assert_eq!(app.selected, 0);
}

#[test]
fn turning_the_mouse_off_ignores_events_too() {
    let mut app = new_app();
    app.games = vec![game("a"), game("b")];
    app.mouse = false;
    mouse(&mut app, Some(Zone::GameRow(1)), MouseAction::Click);
    mouse(&mut app, Some(Zone::GameRow(0)), MouseAction::ScrollDown);
    assert_eq!(app.selected, 0, "껐는데 마우스가 목록을 움직였다");
}

#[test]
fn the_settings_row_toggles_the_mouse() {
    let mut app = new_app();
    let idx = app
        .settings_rows()
        .iter()
        .position(|(k, _)| matches!(k, SettingKind::Mouse))
        .expect("설정에 마우스 행이 없다");
    assert!(!app.mouse, "기본값은 끔이다");
    app.change_setting(idx, true);
    assert!(app.mouse);
    app.change_setting(idx, false);
    assert!(!app.mouse, "반대 방향으로도 뒤집혀야 한다");
}

#[test]
fn the_mouse_unlocks_when_the_overlay_disappears() {
    let mut app = new_app();
    app.mouse = true;
    app.games = vec![game("a"), game("b")];
    app.standings = vec![standing_with_games(1, 10)];
    app.team_stats_rank = Some(1);
    app.standings = vec![];
    assert!(app.team_stats_target().is_none(), "오버레이는 이미 안 보인다");
    press(&mut app, Key::Down);
    assert_eq!(app.selected, 1, "키는 살아 있다");
    mouse(&mut app, Some(Zone::GameRow(0)), MouseAction::Click);
    assert_eq!(app.selected, 0, "마우스만 잠겨 있으면 여기서 1로 남는다");
}

#[test]
fn a_click_cancels_a_pending_g() {
    let mut app = new_app();
    app.mouse = true;
    app.games = vec![game("a"), game("b"), game("c")];
    press(&mut app, Key::Char('g'));
    mouse(&mut app, Some(Zone::GameRow(2)), MouseAction::Click);
    assert_eq!(app.selected, 2);
    press(&mut app, Key::Char('g'));
    assert_eq!(app.selected, 2, "클릭 뒤의 g 하나가 gg로 읽혀 맨 위로 갔다");
}

#[test]
fn a_broken_config_is_never_overwritten() {
    let mut app = new_app();
    app.config_error = Some("invalid type: string \"yes\"".into());
    app.settings = Some(SettingsState { cursor: 0, save_failed: false });
    assert!(app.persist().is_none(), "깨진 파일 위에 저장하면 안 된다");
    assert!(
        app.settings.as_ref().map(|s| s.save_failed).unwrap_or(false),
        "저장을 막았으면 그 사실을 화면에 알려야 한다"
    );
}

#[test]
fn a_game_that_ends_while_we_watch_it_updates_on_screen() {
    let mut app = new_app();
    let mut g = game("a");
    g.status = GameStatus::Live;
    app.enter_live(g.clone());
    let mut finished = g.clone();
    finished.status = GameStatus::Final;
    app.apply(Update::Games(vec![finished]));
    let watched = app.watched_game().expect("라이브 화면인데 경기가 없다");
    assert_eq!(watched.status, GameStatus::Final, "경기가 끝났는데 화면은 아직 진행 중으로 안다");
}

#[test]
fn another_games_update_does_not_touch_the_one_we_watch() {
    let mut app = new_app();
    let mut g = game("a");
    g.status = GameStatus::Live;
    app.enter_live(g);
    let mut other = game("b");
    other.status = GameStatus::Final;
    app.apply(Update::Games(vec![other]));
    assert_eq!(app.watched_game().unwrap().status, GameStatus::Live, "남의 경기 소식이 우리 화면을 바꿨다");
}

#[test]
fn a_double_header_enters_the_game_that_is_actually_on() {
    let mut first = game("g1");
    first.status = GameStatus::Final;
    let mut second = game("g2");
    second.status = GameStatus::Live;
    let games = vec![first, second];
    let picked = pick_team_game(&games, "LG").expect("LG 경기가 있다");
    assert_eq!(picked.id, "g2", "끝난 1차전으로 들어갔다");
}

#[test]
fn a_double_header_before_first_pitch_picks_the_earlier_one() {
    let mut first = game("g1");
    first.status = GameStatus::Scheduled;
    let mut second = game("g2");
    second.status = GameStatus::Scheduled;
    let games = vec![first, second];
    assert_eq!(pick_team_game(&games, "LG").unwrap().id, "g1");
}

#[test]
fn tab_toggles_between_games_and_standings() {
    let mut app = new_app();
    assert_eq!(app.tab, Tab::Games);
    press(&mut app, Key::Tab);
    assert_eq!(app.tab, Tab::Standings);
}

#[test]
fn view_key_changes_when_tab_switches() {
    let mut app = new_app();
    let before = app.view_key();
    press(&mut app, Key::Tab);
    let after = app.view_key();
    assert_ne!(before, after);
}

#[test]
fn view_key_changes_when_entering_and_leaving_live() {
    let mut app = new_app();
    app.apply(Update::Games(vec![game("a")]));
    let list_key = app.view_key();
    press(&mut app, Key::Enter);
    assert!(matches!(app.screen, Screen::Live { .. }));
    let live_key = app.view_key();
    assert_ne!(list_key, live_key);
    press(&mut app, Key::Tab);
    assert!(matches!(app.screen, Screen::List));
    let after_tab = app.view_key();
    assert_ne!(live_key, after_tab);
}

#[test]
fn every_overlay_key_toggles_the_view_key_and_puts_it_back() {
    let mut app = new_app();
    app.games = vec![game("a")];
    let menus = links(2);
    let base = app.view_key();
    for (open, close, what) in [
        (Key::Char('?'), Key::Char('?'), "help"),
        (Key::F(2), Key::F(2), "options"),
        (Key::Char('o'), Key::Esc, "link picker"),
        (Key::F(9), Key::F(9), "settings"),
    ] {
        app.on_key(open, &menus);
        assert_ne!(app.view_key(), base, "{what}를 열었는데 화면 키가 그대로다");
        app.on_key(close, &menus);
        assert_eq!(app.view_key(), base, "{what}를 닫았는데 키가 안 돌아왔다");
    }
}

#[test]
fn down_moves_selection_within_bounds() {
    let mut app = new_app();
    app.apply(Update::Games(vec![game("a"), game("b")]));
    assert_eq!(app.selected, 0);
    press(&mut app, Key::Down);
    assert_eq!(app.selected, 1);
    press(&mut app, Key::Down);
    assert_eq!(app.selected, 1);
}

#[test]
fn q_signals_quit() {
    let mut app = new_app();
    assert_eq!(press(&mut app, Key::Char('q')), KeyAction::Quit);
}

#[test]
fn enter_opens_live_screen_for_selected_game() {
    let mut app = new_app();
    app.apply(Update::Games(vec![game("a")]));
    press(&mut app, Key::Enter);
    assert!(matches!(app.screen, Screen::Live { .. }));
}

#[test]
fn enter_does_not_open_live_for_canceled_game() {
    let mut app = new_app();
    app.apply(Update::Games(vec![game_with_status("a", GameStatus::Canceled)]));
    press(&mut app, Key::Enter);
    assert!(matches!(app.screen, Screen::List));
}

#[test]
fn enter_does_not_open_live_for_scheduled_game() {
    let mut app = new_app();
    app.apply(Update::Games(vec![game_with_status("a", GameStatus::Scheduled)]));
    press(&mut app, Key::Enter);
    assert!(matches!(app.screen, Screen::List));
}

#[test]
fn stale_live_update_for_previous_game_does_not_overwrite_newly_watched_game() {
    let mut app = new_app();
    app.apply(Update::Games(vec![game("a"), game("b")]));
    app.screen = Screen::Live { game: game("b"), state: None };
    let stale_state = at_bats_state(3);
    app.apply(Update::Live("a".into(), stale_state));
    if let Screen::Live { state, .. } = &app.screen {
        assert!(state.is_none(), "stale update for a stale id must be dropped");
    } else {
        panic!("expected Screen::Live");
    }
}

#[test]
fn f1_toggles_help() {
    let mut app = new_app();
    press(&mut app, Key::F(1));
    assert!(app.show_help);
    press(&mut app, Key::Char('x'));
    assert!(!app.show_help);
}

#[test]
fn f10_quits() {
    let mut app = new_app();
    assert_eq!(press(&mut app, Key::F(10)), KeyAction::Quit);
}

#[test]
fn f5_switches_tab() {
    let mut app = new_app();
    assert_eq!(app.tab, Tab::Games);
    press(&mut app, Key::F(5));
    assert_eq!(app.tab, Tab::Standings);
}

#[test]
fn gg_jumps_to_top_and_g_to_bottom() {
    let mut app = new_app();
    app.apply(Update::Games(vec![game("a"), game("b"), game("c")]));
    press(&mut app, Key::Down);
    press(&mut app, Key::Down);
    assert_eq!(app.selected, 2);
    press(&mut app, Key::Char('g'));
    press(&mut app, Key::Char('g'));
    assert_eq!(app.selected, 0);
    press(&mut app, Key::Char('G'));
    assert_eq!(app.selected, 2);
}

#[test]
fn esc_on_list_does_not_quit() {
    let mut app = new_app();
    assert_ne!(press(&mut app, Key::Esc), KeyAction::Quit);
}

#[test]
fn apply_error_sets_last_error_and_marks_stale() {
    let mut app = new_app();
    app.apply(Update::Error("boom".into()));
    assert_eq!(app.last_error.as_deref(), Some("boom"));
    assert!(app.stale);
}

#[test]
fn a_later_non_error_update_clears_last_error() {
    let mut app = new_app();
    app.apply(Update::Error("boom".into()));
    assert!(app.last_error.is_some());
    app.apply(Update::Games(vec![game("a")]));
    assert_eq!(app.last_error, None);
    assert!(!app.stale);
}

#[test]
fn fetching_update_raises_flag_and_next_data_update_clears_it() {
    let mut app = new_app();
    assert!(!app.fetching);
    app.apply(Update::Fetching);
    assert!(app.fetching);
    app.apply(Update::Games(vec![]));
    assert!(!app.fetching);
}

#[test]
fn fetching_does_not_clear_stale_or_last_error() {
    let mut app = new_app();
    app.apply(Update::Error("boom".into()));
    app.apply(Update::Fetching);
    assert!(app.stale);
    assert_eq!(app.last_error.as_deref(), Some("boom"));
}

#[test]
fn successful_data_update_sets_last_update_secs_to_now() {
    let mut app = new_app();
    app.now_secs = 1_800_000_000;
    assert_eq!(app.last_update_secs, None);
    app.apply(Update::Games(vec![game("a")]));
    assert_eq!(app.last_update_secs, Some(1_800_000_000));
}

#[test]
fn error_update_does_not_set_last_update_secs() {
    let mut app = new_app();
    app.now_secs = 1_800_000_000;
    app.apply(Update::Error("boom".into()));
    assert_eq!(app.last_update_secs, None);
}

#[test]
fn fetching_update_does_not_set_last_update_secs() {
    let mut app = new_app();
    app.now_secs = 1_800_000_000;
    app.apply(Update::Fetching);
    assert_eq!(app.last_update_secs, None);
}

#[test]
fn last_update_secs_survives_a_later_fetching_signal() {
    let mut app = new_app();
    app.now_secs = 1_800_000_000;
    app.apply(Update::Games(vec![]));
    assert_eq!(app.last_update_secs, Some(1_800_000_000));
    app.now_secs = 1_800_000_100;
    app.apply(Update::Fetching);
    assert_eq!(app.last_update_secs, Some(1_800_000_000), "Fetching must not touch last_update_secs");
}

#[test]
fn g_then_other_key_clears_pending() {
    let mut app = new_app();
    app.apply(Update::Games(vec![game("a"), game("b"), game("c")]));
    press(&mut app, Key::Down);
    press(&mut app, Key::Char('g'));
    press(&mut app, Key::Down);
    press(&mut app, Key::Char('g'));
    assert_ne!(app.selected, 0);
}

// ── live view ─────────────────────────────────────────────────────────────

#[test]
fn right_selects_first_pitch_then_advances_and_stops_at_last() {
    let mut app = live_app_with_pitches(3);
    assert_eq!(app.live_pitch_sel, None);
    press(&mut app, Key::Right);
    assert_eq!(app.live_pitch_sel, Some(0));
    press(&mut app, Key::Right);
    press(&mut app, Key::Right);
    press(&mut app, Key::Right);
    assert_eq!(app.live_pitch_sel, Some(2));
}

#[test]
fn left_enters_from_the_last_pitch() {
    let mut app = live_app_with_pitches(3);
    press(&mut app, Key::Left);
    assert_eq!(app.live_pitch_sel, Some(2));
    press(&mut app, Key::Left);
    assert_eq!(app.live_pitch_sel, Some(1));
}

#[test]
fn esc_clears_selection_first_then_leaves_live() {
    let mut app = live_app_with_pitches(2);
    press(&mut app, Key::Right);
    assert_eq!(app.live_pitch_sel, Some(0));
    press(&mut app, Key::Esc);
    assert_eq!(app.live_pitch_sel, None);
    assert!(matches!(app.screen, Screen::Live { .. }));
    press(&mut app, Key::Esc);
    assert!(matches!(app.screen, Screen::List));
}

#[test]
fn bracket_keys_navigate_between_at_bats_and_clamp_at_the_boundaries() {
    let mut app = live_app_with_at_bats(3);
    assert_eq!(app.live_atbat_sel, None, "기본은 최신(라이브)을 본다");
    press(&mut app, Key::Char('['));
    assert_eq!(app.live_atbat_sel, Some(101));
    press(&mut app, Key::Char('['));
    assert_eq!(app.live_atbat_sel, Some(100), "가장 오래된 타석");
    press(&mut app, Key::Char('['));
    assert_eq!(app.live_atbat_sel, Some(100));
    press(&mut app, Key::Char(']'));
    assert_eq!(app.live_atbat_sel, Some(101));
    press(&mut app, Key::Char(']'));
    assert_eq!(app.live_atbat_sel, None);
    press(&mut app, Key::Char(']'));
    assert_eq!(app.live_atbat_sel, None);
}

#[test]
fn bracket_keys_are_noop_with_a_single_at_bat() {
    let mut app = live_app_with_at_bats(1);
    press(&mut app, Key::Char('['));
    assert_eq!(app.live_atbat_sel, None);
    press(&mut app, Key::Char(']'));
    assert_eq!(app.live_atbat_sel, None);
}

#[test]
fn bracket_keys_are_disabled_when_at_bat_seqs_collide_due_to_a_missing_no() {
    let mut app = live_app_with_at_bats(3);
    if let Screen::Live { state: Some(s), .. } = &mut app.screen {
        for ab in s.at_bats.iter_mut() {
            ab.seq = 0;
        }
    }
    press(&mut app, Key::Char('['));
    assert_eq!(app.live_atbat_sel, None, "seq가 유일하지 않으면 되감기 네비게이션이 무동작이어야 한다");
    press(&mut app, Key::Char(']'));
    assert_eq!(app.live_atbat_sel, None);
}

#[test]
fn bracket_keys_are_noop_on_list_screen() {
    let mut app = new_app();
    press(&mut app, Key::Char('['));
    assert_eq!(app.live_atbat_sel, None);
    press(&mut app, Key::Char(']'));
    assert_eq!(app.live_atbat_sel, None);
}

#[test]
fn pitch_selection_combines_with_rewinding_to_a_past_at_bat() {
    let mut app = live_app_with_at_bats(3);
    press(&mut app, Key::Char('['));
    assert_eq!(app.live_atbat_sel, Some(101));
    press(&mut app, Key::Right);
    assert_eq!(app.live_pitch_sel, Some(0), "과거 타석 안에서도 투구 선택이 동작해야 한다");
}

#[test]
fn j_k_move_the_relay_cursor_starting_from_the_bottom() {
    let mut app = live_app_with_at_bats(1);
    assert_eq!(app.live_relay_cursor, None);
    press(&mut app, Key::Char('k'));
    assert_eq!(app.live_relay_cursor, Some(1), "처음 누르면 맨 아래에서 시작");
    press(&mut app, Key::Char('k'));
    assert_eq!(app.live_relay_cursor, Some(0));
    press(&mut app, Key::Char('k'));
    assert_eq!(app.live_relay_cursor, Some(0));
    press(&mut app, Key::Char('j'));
    assert_eq!(app.live_relay_cursor, Some(1));
    press(&mut app, Key::Char('j'));
    assert_eq!(app.live_relay_cursor, Some(1));
}

#[test]
fn moving_the_relay_cursor_selects_and_clears_the_linked_pitch() {
    let mut app = live_app_with_at_bats(1);
    assert_eq!(app.live_pitch_sel, None);
    press(&mut app, Key::Char('k'));
    assert_eq!(app.live_relay_cursor, Some(1));
    assert_eq!(app.live_pitch_sel, Some(0), "투구 줄에 커서가 서면 그 투구가 선택돼야 한다");
    press(&mut app, Key::Char('k'));
    assert_eq!(app.live_relay_cursor, Some(0));
    assert_eq!(app.live_pitch_sel, None, "첫 투구보다 위로 올라가면 선택이 풀린다");
}

#[test]
fn selecting_a_pitch_moves_the_relay_cursor_onto_its_line() {
    let mut app = live_app_with_at_bats(1);
    press(&mut app, Key::Right);
    assert_eq!(app.live_pitch_sel, Some(0));
    assert_eq!(app.live_relay_cursor, Some(1), "그 투구를 서술하는 줄로 커서가 따라와야 한다");
}

#[test]
fn pitch_navigation_leaves_the_cursor_alone_when_the_lines_are_not_linked() {
    let mut app = live_app_with_pitches(3);
    press(&mut app, Key::Right);
    assert_eq!(app.live_pitch_sel, Some(0));
    assert_eq!(app.live_relay_cursor, None);
}

#[test]
fn esc_staircase_clears_local_selection_then_rewind_then_leaves_live() {
    let mut app = live_app_with_at_bats(3);
    press(&mut app, Key::Char('['));
    press(&mut app, Key::Right);
    assert_eq!(app.live_pitch_sel, Some(0));
    assert_eq!(app.live_atbat_sel, Some(101));
    press(&mut app, Key::Esc);
    assert_eq!(app.live_pitch_sel, None);
    assert_eq!(app.live_atbat_sel, Some(101), "아직 과거 타석을 보는 중");
    assert!(matches!(app.screen, Screen::Live { .. }));
    press(&mut app, Key::Esc);
    assert_eq!(app.live_atbat_sel, None);
    assert!(matches!(app.screen, Screen::Live { .. }), "화면은 유지");
    press(&mut app, Key::Esc);
    assert!(matches!(app.screen, Screen::List));
}

#[test]
fn esc_first_step_also_clears_a_bare_relay_cursor() {
    let mut app = live_app_with_at_bats(1);
    press(&mut app, Key::Char('k'));
    assert_eq!(app.live_relay_cursor, Some(1));
    press(&mut app, Key::Esc);
    assert_eq!(app.live_relay_cursor, None);
    assert!(matches!(app.screen, Screen::Live { .. }), "1단계는 화면을 유지한다");
}

#[test]
fn rewinding_selection_survives_a_poll_that_advances_the_live_at_bat() {
    let mut app = live_app_with_at_bats(3);
    press(&mut app, Key::Char('['));
    assert_eq!(app.live_atbat_sel, Some(101));
    press(&mut app, Key::Right);
    assert_eq!(app.live_pitch_sel, Some(0));
    let mut fresh = at_bats_state(4);
    fresh.current_pitches = vec![];
    app.apply(Update::Live("g".into(), fresh));
    assert_eq!(app.live_atbat_sel, Some(101), "돌려보기 선택이 새 폴링에 튀면 안 된다");
    assert_eq!(app.live_pitch_sel, Some(0), "과거 타석 안의 투구 선택도 유지돼야 한다");
    let s = state_of(&app);
    assert_eq!(s.at_bats.len(), 4, "새 타석은 실제로 반영된다");
    assert_eq!(
        s.active_at_bat(app.live_atbat_sel).unwrap().batter_name,
        "batter1",
        "여전히 같은 과거 타석을 보고 있어야 한다"
    );
}

#[test]
fn rewinding_selection_tracks_the_at_bat_even_when_its_index_shifts() {
    let mut app = live_app_with_at_bats(3);
    press(&mut app, Key::Char('['));
    assert_eq!(app.live_atbat_sel, Some(101));
    let mut shifted = at_bats_state(4);
    shifted.at_bats.remove(0);
    app.apply(Update::Live("g".into(), shifted));
    assert_eq!(app.live_atbat_sel, Some(101), "선택은 번호 그대로");
    let s = state_of(&app);
    assert_eq!(s.at_bats.iter().position(|ab| ab.seq == 101), Some(0), "자리는 실제로 밀렸다(테스트 전제 확인)");
    assert_eq!(
        s.active_at_bat(app.live_atbat_sel).unwrap().batter_name,
        "batter1",
        "자리가 밀려도 읽던 타석 그대로여야 한다"
    );
}

#[test]
fn rewinding_returns_to_live_when_the_inning_rolls_over() {
    let mut app = live_app_with_at_bats(3);
    press(&mut app, Key::Char('['));
    press(&mut app, Key::Right);
    assert_eq!(app.live_atbat_sel, Some(101));
    assert_eq!(app.live_pitch_sel, Some(0));
    let mut next_inning = at_bats_state(2);
    for (i, ab) in next_inning.at_bats.iter_mut().enumerate() {
        ab.seq = 200 + i as i64;
    }
    app.apply(Update::Live("g".into(), next_inning));
    assert_eq!(app.live_atbat_sel, None, "사라진 타석에 남아 있지 말고 라이브로 복귀");
    assert_eq!(app.live_pitch_sel, None, "그 타석의 투구 선택도 함께 해제");
    assert_eq!(app.live_relay_cursor, None, "문자중계 커서도 함께 해제");
}

#[test]
fn live_follow_mode_still_resets_pitch_selection_on_a_new_at_bat() {
    let mut app = live_app_with_at_bats(3);
    press(&mut app, Key::Right);
    assert_eq!(app.live_pitch_sel, Some(0));
    assert_eq!(app.live_atbat_sel, None);
    let mut fresh = at_bats_state(4);
    fresh.current_pitches = vec![];
    app.apply(Update::Live("g".into(), fresh));
    assert_eq!(app.live_pitch_sel, None, "라이브 추종 중엔 새 타석에서 선택이 리셋돼야 한다");
}

#[test]
fn live_follow_mode_resets_relay_cursor_on_a_new_at_bat_even_when_pitch_count_is_unchanged() {
    let mut app = live_app_with_at_bats(3);
    press(&mut app, Key::Char('k'));
    assert_eq!(app.live_relay_cursor, Some(1));
    app.apply(Update::Live("g".into(), at_bats_state(4)));
    assert_eq!(app.live_relay_cursor, None, "새 타석이 시작되면 이전 타석의 문자중계 커서 자리는 무의미해진다");
    assert_eq!(app.live_pitch_sel, None, "같은 신호로 투구 선택도 함께 리셋돼야 한다");
}

#[test]
fn arrows_are_noop_on_list_screen() {
    let mut app = new_app();
    press(&mut app, Key::Right);
    assert_eq!(app.live_pitch_sel, None);
}

#[test]
fn new_at_bat_with_fewer_pitches_resets_selection() {
    let mut app = live_app_with_pitches(3);
    press(&mut app, Key::Right);
    press(&mut app, Key::Right);
    let fresh = state_of(&live_app_with_pitches(1)).clone();
    app.apply(Update::Live("g".into(), fresh));
    assert_eq!(app.live_pitch_sel, None);
}

#[test]
fn tab_in_live_returns_to_list_with_the_switched_tab() {
    let mut app = live_app_with_pitches(2);
    press(&mut app, Key::Right);
    assert!(matches!(app.screen, Screen::Live { .. }));
    press(&mut app, Key::Tab);
    assert!(matches!(app.screen, Screen::List), "Tab must leave the live view");
    assert_eq!(app.tab, Tab::Standings);
    assert_eq!(app.live_pitch_sel, None, "selection must not survive the exit");
    assert_eq!(app.selected, 0);
}

#[test]
fn enter_live_resets_all_three_selections_even_when_a_previous_game_left_them_set() {
    let mut app = live_app_with_at_bats(3);
    press(&mut app, Key::Char('['));
    press(&mut app, Key::Char('k'));
    assert!(app.live_atbat_sel.is_some());
    assert!(app.live_pitch_sel.is_some());
    assert!(app.live_relay_cursor.is_some());
    app.enter_live(game("other-game"));
    assert!(matches!(app.screen, Screen::Live { .. }));
    assert_eq!(app.live_atbat_sel, None);
    assert_eq!(app.live_pitch_sel, None);
    assert_eq!(app.live_relay_cursor, None);
}

#[test]
fn gg_and_shift_g_move_the_relay_cursor_in_the_live_view() {
    let mut app = live_app_with_at_bats(2);
    assert_eq!(app.live_relay_cursor, None);
    press(&mut app, Key::Char('g'));
    press(&mut app, Key::Char('g'));
    assert_eq!(app.live_relay_cursor, Some(0), "gg는 첫 줄로");
    press(&mut app, Key::Char('G'));
    assert_eq!(app.live_relay_cursor, Some(1), "G는 마지막 줄로");
}

#[test]
fn gg_and_shift_g_still_move_the_list_selection_outside_the_live_view() {
    let mut app = new_app();
    app.games = vec![game("a"), game("b"), game("c")];
    app.selected = 1;
    press(&mut app, Key::Char('G'));
    assert_eq!(app.selected, 2);
    assert_eq!(app.live_relay_cursor, None);
    press(&mut app, Key::Char('g'));
    press(&mut app, Key::Char('g'));
    assert_eq!(app.selected, 0);
}

#[test]
fn jumping_the_relay_cursor_also_moves_the_pitch_selection() {
    let mut app = live_app_with_at_bats(1);
    press(&mut app, Key::Char('G'));
    assert_eq!(app.live_relay_cursor, Some(1));
    assert_eq!(app.live_pitch_sel, Some(0), "투구 줄이면 그 투구가 함께 선택된다");
}

#[test]
fn entering_live_points_the_list_cursor_at_that_game() {
    let mut app = new_app();
    app.games = vec![game("a"), game("b"), game("c")];
    app.selected = 0;
    app.enter_live(game("c"));
    assert_eq!(app.selected, 2, "커서가 진입한 경기를 가리켜야 한다");
}

#[test]
fn entering_a_game_missing_from_the_list_leaves_the_cursor_alone() {
    let mut app = new_app();
    app.games = vec![game("a"), game("b")];
    app.selected = 1;
    app.enter_live(game("elsewhere"));
    assert_eq!(app.selected, 1);
}

// ── overlays ──────────────────────────────────────────────────────────────

#[test]
fn news_update_does_not_touch_the_spinner_flag() {
    let mut app = new_app();
    app.apply(Update::Fetching);
    assert!(app.fetching);
    app.apply(Update::News(vec![]));
    assert!(app.fetching, "auxiliary news must not clear the in-flight spinner");
}

#[test]
fn f2_opens_options_and_esc_closes_without_change() {
    let mut app = new_app();
    app.date = "2026-07-23".into();
    assert!(app.options.is_none());
    press(&mut app, Key::F(2));
    assert!(app.options.is_some());
    press(&mut app, Key::Esc);
    assert!(app.options.is_none());
    assert_eq!(app.date, "2026-07-23");
}

#[test]
fn options_overlay_consumes_navigation_keys() {
    let mut app = new_app();
    press(&mut app, Key::F(2));
    let tab_before = app.tab;
    press(&mut app, Key::Tab);
    assert_eq!(app.tab, tab_before, "Tab must be consumed by the overlay");
}

#[test]
fn options_date_apply_resets_list_and_leaves_live() {
    let mut app = live_app_with_pitches(2);
    app.now_secs = 1_800_000_000;
    app.games_loaded = true;
    let today = kbotop::dateutil::kst_days(1_800_000_000);
    let menus = Menus {
        dates: vec![
            kbotop::dateutil::format_civil(today),
            kbotop::dateutil::format_civil(today - 1),
        ],
        links: vec![],
    };
    app.on_key(Key::F(2), &menus);
    app.on_key(Key::Down, &menus);
    app.on_key(Key::Enter, &menus);
    assert!(matches!(app.screen, Screen::List));
    assert!(!app.games_loaded);
    assert_eq!(app.selected, 0);
    assert_eq!(app.date, kbotop::dateutil::format_civil(today - 1));
}

#[test]
fn tips_update_sets_override_without_touching_lifecycles() {
    let mut app = new_app();
    app.apply(Update::Error("boom".into()));
    app.apply(Update::Fetching);
    app.apply(Update::Tips(vec!["원격".into(); 12]));
    assert_eq!(app.tips_override.as_ref().map(|v| v.len()), Some(12));
    assert!(app.stale);
    assert!(app.fetching);
    assert_eq!(app.last_error.as_deref(), Some("boom"));
}

#[test]
fn o_on_games_opens_four_link_items_for_the_selected_game() {
    let mut app = new_app();
    app.apply(Update::Games(vec![game("g")]));
    let menus = Menus {
        dates: vec![],
        links: vec![
            ("KT 홈페이지".into(), "https://www.ktwiz.co.kr".into()),
            ("KT 굿즈".into(), "https://shop.example.com/kt".into()),
            ("LG 홈페이지".into(), "https://www.lgtwins.com".into()),
            ("LG 굿즈".into(), "https://shop.example.com/lg".into()),
        ],
    };
    app.on_key(Key::Char('o'), &menus);
    let items = &app.link_picker.as_ref().expect("picker must open").items;
    assert_eq!(items.len(), 4);
    let labels: String = items.iter().map(|(l, _)| l.as_str()).collect::<Vec<_>>().join("|");
    assert!(labels.contains("KT") && labels.contains("LG"));
}

#[test]
fn o_on_standings_opens_two_link_items_for_the_selected_team() {
    let mut app = new_app();
    app.tab = Tab::Standings;
    app.apply(Update::Standings(vec![standing_with_games(1, 1)]));
    let menus = Menus {
        dates: vec![],
        links: vec![
            ("삼성 홈페이지".into(), "https://www.samsunglions.com".into()),
            ("삼성 굿즈".into(), "https://shop.example.com/ss".into()),
        ],
    };
    app.on_key(Key::Char('o'), &menus);
    let items = &app.link_picker.as_ref().expect("picker must open").items;
    assert_eq!(items.len(), 2);
    assert!(items.iter().all(|(_, url)| url.starts_with("https://")));
}

#[test]
fn f2_while_link_picker_open_does_not_stack_overlays() {
    let mut app = new_app();
    app.apply(Update::Games(vec![game("g")]));
    let menus = links(4);
    app.on_key(Key::Char('o'), &menus);
    assert!(app.link_picker.is_some());
    app.on_key(Key::F(2), &menus);
    assert!(app.options.is_none(), "F2 must not open options over the link picker");
    assert!(app.link_picker.is_some(), "link picker must stay open");
}

#[test]
fn esc_closes_link_picker_without_opening() {
    let mut app = new_app();
    app.apply(Update::Games(vec![game("g")]));
    let menus = links(4);
    app.on_key(Key::Char('o'), &menus);
    assert_eq!(app.on_key(Key::Esc, &menus), KeyAction::Stay);
    assert!(app.link_picker.is_none());
    assert!(matches!(app.screen, Screen::List), "Esc must close picker, not navigate");
}

#[test]
fn n_with_no_news_is_a_noop() {
    let mut app = new_app();
    press(&mut app, Key::Char('n'));
    assert!(matches!(app.screen, Screen::List));
    assert!(app.article_view.is_none());
}

#[test]
fn n_opens_list_and_enter_opens_article_view_with_cursor_item() {
    let mut app = new_app();
    app.now_secs = 0;
    app.apply(Update::News(vec![sample_news_item()]));
    press(&mut app, Key::Char('n'));
    assert!(app.news_list.is_some(), "n must open the list");
    assert!(app.article_view.is_none());
    press(&mut app, Key::Enter);
    let v = app.article_view.as_ref().expect("Enter must open the overlay");
    assert_eq!(v.item, sample_news_item());
    assert_eq!(v.scroll, 0);
}

#[test]
fn article_overlay_consumes_keys_scroll_and_toggle_close() {
    let mut app = new_app();
    app.article_view = Some(ArticleView { item: sample_news_item(), scroll: 0 });
    press(&mut app, Key::Char('j'));
    assert_eq!(app.article_view.as_ref().unwrap().scroll, 1);
    press(&mut app, Key::Char('k'));
    assert_eq!(app.article_view.as_ref().unwrap().scroll, 0);
    press(&mut app, Key::Char('k'));
    assert_eq!(app.article_view.as_ref().unwrap().scroll, 0);
    let tab_before = app.tab;
    press(&mut app, Key::Tab);
    assert_eq!(app.tab, tab_before, "overlay must consume Tab");
    press(&mut app, Key::Char('n'));
    assert!(app.article_view.is_none());
}

#[test]
fn n_opens_list_then_enter_opens_article_then_esc_climbs_back() {
    let mut app = new_app();
    app.apply(Update::News(vec![
        news_item("첫 기사", "https://x.kr/1"),
        news_item("둘째 기사", "https://x.kr/2"),
    ]));
    press(&mut app, Key::Char('n'));
    assert!(app.news_list.is_some(), "n은 목록을 연다");
    assert!(app.article_view.is_none());
    press(&mut app, Key::Char('j'));
    assert_eq!(app.news_list.as_ref().unwrap().cursor, 1);
    press(&mut app, Key::Enter);
    let v = app.article_view.as_ref().expect("Enter는 기사를 연다");
    assert_eq!(v.item.title, "둘째 기사", "커서 항목이 열려야 한다");
    assert!(app.news_list.is_some(), "기사 아래에 목록이 남아 있다");
    press(&mut app, Key::Esc);
    assert!(app.article_view.is_none(), "Esc는 기사만 닫는다");
    assert!(app.news_list.is_some(), "목록은 유지된다");
    press(&mut app, Key::Esc);
    assert!(app.news_list.is_none(), "한 번 더 Esc면 목록도 닫힌다");
}

#[test]
fn news_list_cursor_stays_in_bounds_and_consumes_keys() {
    let mut app = new_app();
    app.apply(Update::News(vec![news_item("하나", "u")]));
    press(&mut app, Key::Char('n'));
    press(&mut app, Key::Char('j'));
    assert_eq!(app.news_list.as_ref().unwrap().cursor, 0, "1건이면 안 움직인다");
    press(&mut app, Key::Char('k'));
    assert_eq!(app.news_list.as_ref().unwrap().cursor, 0);
    let tab_before = app.tab;
    press(&mut app, Key::Tab);
    assert_eq!(app.tab, tab_before, "목록이 Tab을 소비한다");
}

#[test]
fn n_with_no_news_opens_nothing() {
    let mut app = new_app();
    press(&mut app, Key::Char('n'));
    assert!(app.news_list.is_none());
    assert!(app.article_view.is_none());
}

#[test]
fn news_refresh_clamps_open_list_cursor_and_enter_still_opens_item() {
    let mut app = new_app();
    app.apply(Update::News(vec![
        news_item("첫 기사", "https://x.kr/1"),
        news_item("둘째 기사", "https://x.kr/2"),
        news_item("셋째 기사", "https://x.kr/3"),
    ]));
    press(&mut app, Key::Char('n'));
    press(&mut app, Key::Char('j'));
    press(&mut app, Key::Char('j'));
    assert_eq!(app.news_list.as_ref().unwrap().cursor, 2);
    app.apply(Update::News(vec![news_item("새로 온 기사", "https://x.kr/new")]));
    assert!(app.news_list.is_some(), "목록은 열린 채 유지된다");
    assert_eq!(app.news_list.as_ref().unwrap().cursor, 0, "커서가 새 길이(1건)로 clamp돼야 한다");
    press(&mut app, Key::Enter);
    let v = app.article_view.as_ref().expect("clamp된 커서로 Enter가 실제 항목을 열어야 한다");
    assert_eq!(v.item.title, "새로 온 기사");
}

#[test]
fn news_refresh_to_empty_does_not_panic_and_closes_list() {
    let mut app = new_app();
    app.apply(Update::News(vec![
        news_item("첫 기사", "https://x.kr/1"),
        news_item("둘째 기사", "https://x.kr/2"),
    ]));
    press(&mut app, Key::Char('n'));
    press(&mut app, Key::Char('j'));
    assert_eq!(app.news_list.as_ref().unwrap().cursor, 1);
    app.apply(Update::News(vec![]));
    assert!(app.news_list.is_none(), "빈 오버레이를 남기지 않는다");
    press(&mut app, Key::Enter);
    assert!(app.article_view.is_none());
}

#[test]
fn news_refresh_to_empty_closes_open_list() {
    let mut app = new_app();
    app.apply(Update::News(vec![news_item("하나", "u")]));
    press(&mut app, Key::Char('n'));
    assert!(app.news_list.is_some());
    app.apply(Update::News(vec![]));
    assert!(app.news_list.is_none(), "empty refresh must close the list");
}

#[test]
fn f9_opens_settings_and_esc_closes() {
    let mut app = new_app();
    press(&mut app, Key::F(9));
    assert!(app.settings.is_some(), "F9 opens settings");
    press(&mut app, Key::Char('j'));
    let rows = app.settings_rows().len();
    assert!(app.settings.as_ref().unwrap().cursor < rows);
    press(&mut app, Key::Esc);
    assert!(app.settings.is_none(), "Esc closes settings");
}

#[test]
fn settings_overlay_consumes_keys() {
    let mut app = new_app();
    press(&mut app, Key::F(9));
    let tab_before = app.tab;
    press(&mut app, Key::Tab);
    assert_eq!(app.tab, tab_before, "settings consumes Tab");
}

#[test]
fn settings_right_changes_poll_choice() {
    let mut app = new_app();
    app.poll_choice = 5;
    press(&mut app, Key::F(9));
    press(&mut app, Key::Char('j'));
    press(&mut app, Key::Right);
    assert_ne!(app.poll_choice, 5, "→ changes poll interval");
}

#[test]
fn settings_changes_team() {
    let mut app = new_app();
    press(&mut app, Key::F(9));
    press(&mut app, Key::Right);
    assert!(app.fav_code.is_some(), "→ selects a team");
}

#[test]
fn settings_rows_include_theme_preset_and_accent() {
    let app = new_app();
    let rows = app.settings_rows();
    assert_eq!(rows.len(), 6);
    assert!(matches!(rows[2].0, SettingKind::ThemePreset));
    assert!(matches!(rows[3].0, SettingKind::ThemeAccent));
    assert!(matches!(rows[4].0, SettingKind::Lang));
    assert!(matches!(rows[5].0, SettingKind::Mouse));
}

#[test]
fn settings_right_cycles_theme_preset() {
    let mut app = new_app();
    assert_eq!(app.theme_preset, "default");
    press(&mut app, Key::F(9));
    press(&mut app, Key::Down);
    press(&mut app, Key::Down);
    press(&mut app, Key::Right);
    assert_eq!(app.theme_preset, "high-contrast");
    press(&mut app, Key::Right);
    assert_eq!(app.theme_preset, "mono");
    press(&mut app, Key::Right);
    assert_eq!(app.theme_preset, "default");
}

#[test]
fn settings_changes_theme_accent_both_directions() {
    let mut app = new_app();
    assert_eq!(app.theme_accent, "team");
    press(&mut app, Key::F(9));
    press(&mut app, Key::Down);
    press(&mut app, Key::Down);
    press(&mut app, Key::Down);
    press(&mut app, Key::Right);
    assert_eq!(app.theme_accent, "cyan");
    press(&mut app, Key::Left);
    assert_eq!(app.theme_accent, "team");
}

#[test]
fn settings_changes_language() {
    let mut app = new_app();
    app.lang = Lang::Ko;
    press(&mut app, Key::F(9));
    let lang_row = app
        .settings_rows()
        .iter()
        .position(|(k, _)| matches!(k, SettingKind::Lang))
        .unwrap();
    for _ in 0..lang_row {
        press(&mut app, Key::Char('j'));
    }
    let before = app.lang;
    press(&mut app, Key::Right);
    assert_ne!(app.lang, before, "language cycles");
}

// ── past innings ──────────────────────────────────────────────────────────

#[test]
fn rewinding_past_the_first_at_bat_asks_for_the_previous_inning() {
    let mut app = live_app_in_inning(5, 3);
    assert_eq!(app.fetching_inning, None);
    press(&mut app, Key::Char('['));
    press(&mut app, Key::Char('['));
    assert_eq!(app.fetching_inning, None, "아직 경계에 닿지 않았다");
    press(&mut app, Key::Char('['));
    assert_eq!(app.fetching_inning, Some(4), "앞 이닝(4회)을 요청해야 한다");
}

#[test]
fn rewinding_past_the_first_inning_requests_nothing() {
    let mut app = live_app_in_inning(1, 2);
    for _ in 0..5 {
        press(&mut app, Key::Char('['));
    }
    assert_eq!(app.fetching_inning, None);
}

#[test]
fn repeated_presses_while_a_request_is_in_flight_do_not_change_the_target() {
    let mut app = live_app_in_inning(5, 1);
    press(&mut app, Key::Char('['));
    assert_eq!(app.fetching_inning, Some(4));
    press(&mut app, Key::Char('['));
    press(&mut app, Key::Char('['));
    assert_eq!(app.fetching_inning, Some(4), "in-flight 요청이 바뀌면 안 된다");
}

#[test]
fn an_arriving_past_inning_is_prepended_in_seq_order() {
    let mut app = live_app_in_inning(5, 3);
    app.apply(Update::Inning {
        game_id: "g".into(),
        inning: 4,
        at_bats: vec![at_bat(98, 4, "earlier-a"), at_bat(99, 4, "earlier-b")],
    });
    assert_eq!(seqs_of(&app), vec![98, 99, 100, 101, 102]);
    assert_eq!(app.fetching_inning, None, "도착했으면 로딩 표시를 푼다");
    assert!(app.cached_innings_of("g").contains(&4));
}

#[test]
fn on_a_seq_collision_the_live_copy_wins_over_the_cached_one() {
    let mut app = live_app_in_inning(5, 1);
    app.apply(Update::Inning {
        game_id: "g".into(),
        inning: 4,
        at_bats: vec![at_bat(100, 4, "stale-copy"), at_bat(99, 4, "earlier")],
    });
    assert_eq!(seqs_of(&app), vec![99, 100]);
    assert_eq!(state_of(&app).at_bats.last().unwrap().batter_name, "batter0", "겹친 seq는 라이브 쪽이 남아야 한다");
}

#[test]
fn a_later_live_poll_keeps_the_cached_past_innings() {
    let mut app = live_app_in_inning(5, 2);
    app.apply(Update::Inning { game_id: "g".into(), inning: 4, at_bats: vec![at_bat(99, 4, "earlier")] });
    let mut fresh = state_of(&app).clone();
    fresh.at_bats.retain(|ab| ab.seq >= 100);
    app.apply(Update::Live("g".into(), fresh));
    assert!(seqs_of(&app).contains(&99), "라이브 폴링이 과거 이닝을 지웠다: {:?}", seqs_of(&app));
}

#[test]
fn an_empty_inning_is_remembered_and_the_next_request_skips_it() {
    let mut app = live_app_in_inning(5, 1);
    press(&mut app, Key::Char('['));
    assert_eq!(app.fetching_inning, Some(4));
    app.apply(Update::Inning { game_id: "g".into(), inning: 4, at_bats: vec![] });
    assert_eq!(app.fetching_inning, None);
    press(&mut app, Key::Char('['));
    assert_eq!(app.fetching_inning, Some(3), "빈 이닝을 건너뛰고 그 앞을 묻는다");
}

#[test]
fn a_past_inning_for_another_game_is_ignored() {
    let mut app = live_app_in_inning(5, 2);
    app.apply(Update::Inning {
        game_id: "other-game".into(),
        inning: 4,
        at_bats: vec![at_bat(99, 4, "stranger")],
    });
    assert!(seqs_of(&app).iter().all(|s| *s >= 100));
    assert!(app.past_innings.is_empty(), "다른 경기의 응답은 캐시에도 안 들어간다");
}

#[test]
fn returning_to_the_same_game_keeps_its_cached_innings() {
    let mut app = live_app_in_inning(5, 2);
    app.apply(Update::Inning { game_id: "g".into(), inning: 4, at_bats: vec![at_bat(99, 4, "earlier")] });
    app.enter_live(game("g"));
    assert!(app.cached_innings_of("g").contains(&4), "같은 경기로 돌아왔는데 캐시가 비었다");
    assert_eq!(app.fetching_inning, None, "요청 중 표시는 화면 상태라 리셋한다");
}

#[test]
fn reentering_the_same_game_restores_the_cached_innings_on_the_next_poll() {
    let mut app = live_app_in_inning(9, 2);
    app.apply(Update::Inning {
        game_id: "g".into(),
        inning: 8,
        at_bats: vec![at_bat(98, 8, "eighth-a"), at_bat(99, 8, "eighth-b")],
    });
    app.screen = Screen::List;
    app.enter_live(game("g"));
    assert!(matches!(app.screen, Screen::Live { state: None, .. }), "재진입 직후에는 아직 상태가 없다");
    let mut fresh = state_of(&live_app_in_inning(9, 2)).clone();
    fresh.at_bats.retain(|ab| ab.seq >= 100);
    app.apply(Update::Live("g".into(), fresh));
    assert_eq!(seqs_of(&app), vec![98, 99, 100, 101], "재진입 후 첫 폴링에서 받아 둔 8회가 붙지 않았다");
    app.live_atbat_sel = Some(98);
    press(&mut app, Key::Char('['));
    assert_eq!(app.fetching_inning, Some(7), "8회가 캐시에 있는데 또 요청했다");
}

#[test]
fn each_game_keeps_its_own_inning_cache() {
    let mut app = live_app_in_inning(5, 2);
    app.apply(Update::Inning { game_id: "g".into(), inning: 4, at_bats: vec![at_bat(99, 4, "earlier")] });
    app.enter_live(game("other-game"));
    assert!(app.cached_innings_of("other-game").is_empty(), "다른 경기가 남의 캐시를 물려받았다");
    assert!(app.cached_innings_of("g").contains(&4), "원래 경기의 캐시까지 사라졌다");
}

#[test]
fn another_games_cache_does_not_leak_into_the_merged_list() {
    let mut app = live_app_in_inning(5, 2);
    app.apply(Update::Inning { game_id: "g".into(), inning: 4, at_bats: vec![at_bat(99, 4, "earlier")] });
    app.enter_live(game("other-game"));
    let mut fresh = state_of(&live_app_in_inning(3, 1)).clone();
    fresh.at_bats = vec![at_bat(500, 3, "other-batter")];
    app.apply(Update::Live("other-game".into(), fresh));
    assert_eq!(seqs_of(&app), vec![500], "다른 경기의 캐시가 섞였다");
}

#[test]
fn a_failed_inning_request_clears_the_spinner_and_stays_retryable() {
    let mut app = live_app_in_inning(5, 1);
    press(&mut app, Key::Char('['));
    assert_eq!(app.fetching_inning, Some(4));
    app.apply(Update::Error("boom".into()));
    assert_eq!(app.fetching_inning, None);
    assert!(app.cached_innings_of("g").is_empty(), "실패는 캐시를 채우지 않는다");
    press(&mut app, Key::Char('['));
    assert_eq!(app.fetching_inning, Some(4), "같은 이닝을 다시 시도할 수 있어야 한다");
}

#[test]
fn an_unknown_inning_label_does_not_produce_a_request() {
    let mut app = live_app_with_at_bats(2);
    if let Screen::Live { state: Some(s), .. } = &mut app.screen {
        for ab in &mut s.at_bats {
            ab.inning_label = "Inn 0".into();
        }
    }
    for _ in 0..3 {
        press(&mut app, Key::Char('['));
    }
    assert_eq!(app.fetching_inning, None);
}

// ── team stats ────────────────────────────────────────────────────────────

#[test]
fn enter_on_the_games_tab_still_opens_the_live_view() {
    let mut app = new_app();
    app.tab = Tab::Games;
    app.games = vec![game("g")];
    app.selected = 0;
    press(&mut app, Key::Enter);
    assert!(matches!(app.screen, Screen::Live { .. }), "라이브로 안 들어갔다");
    assert!(app.team_stats_rank.is_none(), "경기 탭에서 성적이 열렸다");
}

#[test]
fn enter_on_the_standings_tab_opens_stats_without_leaving_the_list() {
    let mut app = new_app();
    app.tab = Tab::Standings;
    app.apply(Update::Standings(vec![standing_with_games(1, 94)]));
    app.selected = 0;
    press(&mut app, Key::Enter);
    assert_eq!(app.team_stats_rank, Some(1));
    assert!(matches!(app.screen, Screen::List), "화면이 바뀌었다");
}

#[test]
fn the_stats_overlay_consumes_navigation_keys() {
    let mut app = new_app();
    app.tab = Tab::Standings;
    app.apply(Update::Standings(vec![standing_with_games(1, 94), standing_with_games(2, 94)]));
    app.selected = 0;
    press(&mut app, Key::Enter);
    press(&mut app, Key::Down);
    assert_eq!(app.selected, 0, "오버레이 뒤에서 커서가 움직였다");
}

#[test]
fn the_open_team_survives_a_standings_refresh_that_reorders_the_table() {
    let mut app = new_app();
    app.tab = Tab::Standings;
    app.apply(Update::Standings(vec![standing_with_games(1, 94), standing_with_games(2, 94)]));
    app.selected = 1;
    press(&mut app, Key::Enter);
    assert_eq!(app.team_stats_rank, Some(2));
    app.apply(Update::Standings(vec![standing_with_games(2, 95), standing_with_games(1, 95)]));
    assert_eq!(app.team_stats_target().map(|s| s.rank), Some(2), "갱신 후 다른 팀으로 바뀌었다");
}

#[test]
fn a_team_before_its_first_game_neither_opens_nor_locks_input() {
    let mut app = new_app();
    app.tab = Tab::Standings;
    app.apply(Update::Standings(vec![standing_with_games(1, 0), standing_with_games(2, 0)]));
    app.selected = 0;
    press(&mut app, Key::Enter);
    assert!(app.team_stats_target().is_none(), "성적이 열렸다");
    press(&mut app, Key::Down);
    assert_eq!(app.selected, 1, "화면도 없는데 입력이 잠겼다");
}

#[test]
fn opening_an_overlay_changes_the_view_key() {
    let mut app = new_app();
    let base = app.view_key();
    app.show_help = true;
    assert_ne!(app.view_key(), base, "도움말");
    app.show_help = false;
    assert_eq!(app.view_key(), base, "닫으면 되돌아온다");
    app.settings = Some(SettingsState { cursor: 0, save_failed: false });
    assert_ne!(app.view_key(), base, "설정");
    app.settings = None;
    app.news_list = Some(NewsListState { cursor: 0 });
    assert_ne!(app.view_key(), base, "뉴스 목록");
    app.news_list = None;
    app.standings = vec![standing_with_games(1, 10)];
    app.team_stats_rank = Some(1);
    assert_ne!(app.view_key(), base, "팀 성적");
    app.team_stats_rank = None;
    assert_eq!(app.view_key(), base, "전부 닫으면 처음과 같다");
}

// ── further cases ─────────────────────────────────────────────────────────

#[test]
fn changing_a_setting_hands_back_the_settings_to_write() {
    let mut app = new_app();
    press(&mut app, Key::F(9));
    let action = press(&mut app, Key::Right);
    match action {
        KeyAction::Save(cfg) => {
            assert_eq!(cfg.favorite_team.as_deref(), Some("LG"));
            assert_eq!(cfg.poll_secs, 5);
            assert_eq!(cfg.lang.as_deref(), Some("en"));
            assert!(!cfg.mouse);
            assert_eq!(cfg.theme.preset, "default");
            assert_eq!(cfg.theme.accent, "team");
        }
        other => panic!("expected settings to save, got {other:?}"),
    }
    app.record_save(false);
    assert!(app.settings.as_ref().unwrap().save_failed);
    app.record_save(true);
    assert!(!app.settings.as_ref().unwrap().save_failed);
}

#[test]
fn a_change_with_a_broken_settings_file_asks_for_no_save() {
    let mut app = new_app();
    app.config_error = Some("bad".into());
    press(&mut app, Key::F(9));
    assert_eq!(press(&mut app, Key::Right), KeyAction::Stay);
    assert_eq!(app.fav_code.as_deref(), Some("LG"), "the value still changes on screen");
    assert!(app.settings.as_ref().unwrap().save_failed);
}

#[test]
fn enter_in_the_link_picker_opens_the_link_under_the_cursor() {
    let mut app = new_app();
    let menus = links(3);
    app.on_key(Key::Char('o'), &menus);
    app.on_key(Key::Down, &menus);
    let action = app.on_key(Key::Enter, &menus);
    assert_eq!(action, KeyAction::Open("https://example.com/1".into()));
    assert!(app.link_picker.is_none());
}

#[test]
fn an_article_with_a_link_opens_it_and_one_without_does_not() {
    let mut app = new_app();
    app.article_view = Some(ArticleView { item: sample_news_item(), scroll: 0 });
    assert_eq!(press(&mut app, Key::Char('o')), KeyAction::Open("https://m.example.com/x".into()));
    let mut no_link = sample_news_item();
    no_link.url = String::new();
    app.article_view = Some(ArticleView { item: no_link, scroll: 3 });
    assert_eq!(press(&mut app, Key::Enter), KeyAction::Stay);
    press(&mut app, Key::PageDown);
    assert_eq!(app.article_view.as_ref().unwrap().scroll, 13);
    press(&mut app, Key::PageUp);
    press(&mut app, Key::PageUp);
    assert_eq!(app.article_view.as_ref().unwrap().scroll, 0);
}

#[test]
fn setting_steps_wrap_around_both_ways() {
    let mut app = new_app();
    app.change_setting(0, false);
    assert_eq!(app.fav_code.as_deref(), Some("OB"), "before the first team comes the last");
    app.change_setting(0, true);
    assert_eq!(app.fav_code, None);
    app.poll_choice = 3;
    app.change_setting(1, false);
    assert_eq!(app.poll_choice, 30);
    app.change_setting(1, true);
    assert_eq!(app.poll_choice, 3);
    app.lang = Lang::Ja;
    app.change_setting(4, true);
    assert_eq!(app.lang, Lang::Ko);
}

#[test]
fn an_unknown_poll_interval_counts_as_five_seconds() {
    let mut app = new_app();
    app.poll_choice = 7;
    app.change_setting(1, true);
    assert_eq!(app.poll_choice, 10);
}

#[test]
fn a_cursor_past_the_rows_changes_nothing() {
    let mut app = new_app();
    app.change_setting(6, true);
    assert_eq!(app.fav_code, None);
    assert_eq!(app.poll_choice, 5);
    assert!(!app.mouse);
}

#[test]
fn every_row_steps_forward_and_back_to_its_value() {
    let mut app = new_app();
    app.fav_code = Some("WO".into());
    app.poll_choice = 10;
    app.theme_preset = "mono".into();
    app.theme_accent = "red".into();
    app.lang = Lang::En;
    for row in 0..6 {
        app.change_setting(row, true);
        app.change_setting(row, false);
    }
    assert_eq!(app.fav_code.as_deref(), Some("WO"));
    assert_eq!(app.poll_choice, 10);
    assert_eq!(app.theme_preset, "mono");
    assert_eq!(app.theme_accent, "red");
    assert_eq!(app.lang, Lang::En);
    assert!(!app.mouse);
}

#[test]
fn opening_and_closing_an_overlay_gives_the_screen_back() {
    for key in [Key::F(9), Key::F(2), Key::F(1), Key::Char('?')] {
        let mut app = new_app();
        app.games = vec![game("a"), game("b")];
        app.selected = 1;
        press(&mut app, key);
        press(&mut app, key);
        assert_eq!(app.view_key(), (0, 0, false));
        assert_eq!(app.selected, 1);
        assert!(app.settings.is_none() && app.options.is_none() && !app.show_help);
    }
}

#[test]
fn tab_twice_comes_back_to_the_games_tab_at_the_top() {
    let mut app = new_app();
    app.games = vec![game("a"), game("b")];
    app.selected = 1;
    press(&mut app, Key::Tab);
    press(&mut app, Key::Tab);
    assert_eq!(app.tab, Tab::Games);
    assert_eq!(app.selected, 0);
}

#[test]
fn inning_numbers_are_read_from_the_label_digits() {
    assert_eq!(App::inning_number_of("T9"), Some(9));
    assert_eq!(App::inning_number_of("B12"), Some(12));
    assert_eq!(App::inning_number_of("Inn 7"), Some(7));
    assert_eq!(App::inning_number_of("Inn 0"), None);
    assert_eq!(App::inning_number_of(""), None);
    assert_eq!(App::inning_number_of("T300"), None);
}

#[test]
fn cached_innings_are_listed_in_ascending_order() {
    let mut app = live_app_in_inning(9, 1);
    for inning in [7u8, 3, 5] {
        app.apply(Update::Inning { game_id: "g".into(), inning, at_bats: vec![] });
    }
    assert_eq!(app.cached_innings_of("g"), vec![3, 5, 7]);
}

#[test]
fn a_refetched_inning_replaces_the_cached_one() {
    let mut app = live_app_in_inning(9, 1);
    app.apply(Update::Inning { game_id: "g".into(), inning: 8, at_bats: vec![at_bat(90, 8, "first")] });
    app.apply(Update::Inning { game_id: "g".into(), inning: 8, at_bats: vec![at_bat(91, 8, "second")] });
    assert_eq!(app.past_innings.len(), 1);
    assert_eq!(app.past_innings[0].at_bats[0].batter_name, "second");
}

#[test]
fn the_earlier_inning_skips_every_cached_one() {
    let mut app = live_app_in_inning(6, 1);
    for inning in [5u8, 4] {
        app.apply(Update::Inning { game_id: "g".into(), inning, at_bats: vec![] });
    }
    assert_eq!(app.earlier_inning_target(), Some(3));
}

#[test]
fn team_stats_are_available_only_for_a_team_that_has_played() {
    let mut app = new_app();
    app.tab = Tab::Standings;
    app.standings = vec![standing_with_games(1, 3), standing_with_games(2, 0)];
    app.selected = 0;
    assert!(app.team_stats_available());
    app.selected = 1;
    assert!(!app.team_stats_available());
    app.tab = Tab::Games;
    app.selected = 0;
    assert!(!app.team_stats_available());
}

#[test]
fn a_team_without_a_game_today_has_none_to_pick() {
    let games = vec![game("g1")];
    assert!(pick_team_game(&games, "SS").is_none());
    let mut suspended = game("g2");
    suspended.status = GameStatus::Suspended;
    let mut scheduled = game("g3");
    scheduled.status = GameStatus::Scheduled;
    let games = vec![scheduled, suspended];
    assert_eq!(pick_team_game(&games, "KT").unwrap().id, "g2");
}

#[test]
fn the_wheel_over_the_pitch_views_steps_through_pitches() {
    let mut app = live_app_with_pitches(3);
    app.mouse = true;
    mouse(&mut app, Some(Zone::PitchNav), MouseAction::ScrollDown);
    assert_eq!(app.live_pitch_sel, Some(0));
    mouse(&mut app, Some(Zone::PitchNav), MouseAction::ScrollDown);
    assert_eq!(app.live_pitch_sel, Some(1));
    mouse(&mut app, Some(Zone::PitchNav), MouseAction::ScrollUp);
    assert_eq!(app.live_pitch_sel, Some(0));
}

#[test]
fn a_click_on_a_relay_line_puts_the_cursor_there() {
    let mut app = live_app_with_at_bats(1);
    app.mouse = true;
    mouse(&mut app, Some(Zone::RelayLine(0)), MouseAction::Click);
    assert_eq!(app.live_relay_cursor, Some(0));
    assert_eq!(app.live_pitch_sel, None);
    mouse(&mut app, Some(Zone::RelayLine(9)), MouseAction::Click);
    assert_eq!(app.live_relay_cursor, Some(1), "beyond the end stands for the last line");
    assert_eq!(app.live_pitch_sel, Some(0));
}

#[test]
fn a_new_app_starts_on_the_games_list_with_the_mouse_off() {
    let app = new_app();
    assert_eq!(app.tab, Tab::Games);
    assert!(matches!(app.screen, Screen::List));
    assert_eq!(app.poll_choice, 5);
    assert_eq!(app.lang, Lang::En);
    assert!(!app.mouse);
    assert_eq!(app.tz.abbrev, "KST");
    assert!(App::can_enter_live(GameStatus::Final));
    assert!(!App::can_enter_live(GameStatus::Canceled));
}

#[test]
fn a_rewound_at_bat_of_a_cached_inning_stays_selected_through_a_poll() {
    let mut app = live_app_in_inning(5, 2);
    app.apply(Update::Inning { game_id: "g".into(), inning: 4, at_bats: vec![at_bat(99, 4, "earlier")] });
    app.live_atbat_sel = Some(99);
    app.live_pitch_sel = Some(0);
    let fresh = state_of(&live_app_in_inning(5, 2)).clone();
    app.apply(Update::Live("g".into(), fresh));
    assert_eq!(app.live_atbat_sel, Some(99));
    assert_eq!(app.live_pitch_sel, Some(0));
    assert_eq!(seqs_of(&app), vec![99, 100, 101]);
}

#[test]
fn a_rewound_at_bat_that_left_the_list_returns_to_live() {
    let mut app = live_app_in_inning(5, 2);
    app.live_atbat_sel = Some(42);
    app.live_pitch_sel = Some(0);
    app.live_relay_cursor = Some(1);
    let fresh = state_of(&live_app_in_inning(5, 2)).clone();
    app.apply(Update::Live("g".into(), fresh));
    assert_eq!(app.live_atbat_sel, None);
    assert_eq!(app.live_pitch_sel, None);
    assert_eq!(app.live_relay_cursor, None);
}

#[test]
fn settings_rows_team_value_shows_team_name_not_just_code() {
    let mut app = new_app();
    app.fav_code = Some("WO".to_string());
    let rows = app.settings_rows();
    assert!(matches!(rows[0].0, SettingKind::Team));
    assert_eq!(rows[0].1, RowValue::TeamName("WO".to_string()));
}

#[test]
fn settings_rows_team_value_falls_back_to_unknown_code() {
    let mut app = new_app();
    app.fav_code = Some("XX".to_string());
    let rows = app.settings_rows();
    assert_eq!(rows[0].1, RowValue::Text("XX".to_string()));
}

#[test]
fn settings_rows_team_value_none_shows_team_none_label() {
    let app = new_app();
    assert!(app.fav_code.is_none());
    let rows = app.settings_rows();
    assert_eq!(rows[0].1, RowValue::NoTeam);
}

#[test]
fn a_hex_accent_is_shown_as_itself_in_the_settings_screen() {
    let mut app = new_app();
    app.theme_accent = "#ff6600".into();
    let rows = app.settings_rows();
    assert_eq!(rows[3].1, RowValue::Text("#ff6600".to_string()));
}

#[test]
fn an_unknown_accent_value_still_falls_back_to_the_team_label() {
    let mut app = new_app();
    app.theme_accent = "chartreuse".into();
    let rows = app.settings_rows();
    assert_eq!(rows[3].1, RowValue::AccentTeam);
}

#[test]
fn the_settings_rows_show_poll_preset_language_and_mouse() {
    let mut app = new_app();
    app.poll_choice = 10;
    app.theme_preset = "unknown".into();
    app.theme_accent = "cyan".into();
    let rows = app.settings_rows();
    assert_eq!(rows[1].1, RowValue::Seconds(10));
    assert_eq!(rows[2].1, RowValue::Preset("default".to_string()));
    assert_eq!(rows[3].1, RowValue::AccentName("cyan".to_string()));
    assert_eq!(rows[4].1, RowValue::Language(app.lang));
    assert_eq!(rows[5].1, RowValue::OnOff(false));
}
