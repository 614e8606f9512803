use kbotop::app::driver::LoopState;
use kbotop::app::keys::is_interrupt;
use kbotop::app::{App, Key, Screen, Tab};
use kbotop::config::Config;
use kbotop::model::{Game, GameStatus, Team};
use kbotop::naver::urls::{games_url, inning_url, relay_url, standings_url};
use kbotop::poller::{Command, Update};

fn team(code: &str) -> Team {
    Team { code: code.into(), name: code.into() }
}

fn game(id: &str, status: GameStatus) -> Game {
    Game {
        id: id.into(),
        start: String::new(),
        status,
        status_label: String::new(),
        home: team("LG"),
        away: team("KT"),
        home_score: None,
        away_score: None,
        away_starter: String::new(),
        home_starter: String::new(),
        stadium: String::new(),
        broadcast: String::new(),
    }
}

fn looper(auto_team: Option<&str>, app: &App) -> LoopState {
    LoopState::new(
        auto_team.map(str::to_string),
        app.date.clone(),
        app.poll_choice,
        "2026-07-19".into(),
        app.view_key(),
    )
}

#[test]
fn ctrl_c_is_an_interrupt() {
    assert!(is_interrupt(Key::Char('c'), true));
    assert!(is_interrupt(Key::Char('C'), true), "Ctrl+Shift+C도 종료로 친다");
}

#[test]
fn a_bare_c_is_not_an_interrupt() {
    assert!(!is_interrupt(Key::Char('c'), false));
    assert!(!is_interrupt(Key::Char('q'), true));
}

#[test]
fn the_favorite_team_enters_its_game_once_games_arrive() {
    let mut app = App::new(Config::default());
    let mut lp = looper(Some("LG"), &app);
    assert!(lp.after_update(&mut app, false).is_none(), "not a games update");
    app.apply(Update::Games(vec![game("a", GameStatus::Final), game("b", GameStatus::Live)]));
    let entered = lp.after_update(&mut app, true).expect("the game that is on");
    assert_eq!(entered.id, "b");
    assert!(matches!(&app.screen, Screen::Live { game, .. } if game.id == "b"));
    assert_eq!(app.selected, 1);
    assert!(lp.auto_team.is_none(), "entered once only");
}

#[test]
fn a_favorite_game_not_started_is_entered_later() {
    let mut app = App::new(Config::default());
    let mut lp = looper(Some("KT"), &app);
    app.apply(Update::Games(vec![game("a", GameStatus::Scheduled)]));
    assert!(lp.after_update(&mut app, true).is_none());
    assert!(matches!(app.screen, Screen::List));
    assert_eq!(lp.auto_team.as_deref(), Some("KT"), "kept for the next games update");
    app.apply(Update::Games(vec![game("a", GameStatus::Live)]));
    assert!(lp.after_update(&mut app, true).is_some());
}

#[test]
fn a_tick_tells_the_poller_what_changed_once() {
    let mut app = App::new(Config::default());
    app.date = "2026-07-19".into();
    let mut lp = looper(None, &app);
    let a = lp.tick(&mut app, "2026-07-19".into());
    assert!(a.watch.is_none() && a.new_date.is_none() && a.new_poll.is_none());
    assert!(a.fetch_inning.is_none() && !a.refresh_standings);

    app.enter_live(game("g", GameStatus::Live));
    app.poll_choice = 10;
    app.fetching_inning = Some(4);
    app.tab = Tab::Standings;
    let a = lp.tick(&mut app, "2026-07-19".into());
    assert!(matches!(&a.watch, Some(Command::WatchGame(g)) if g.id == "g"));
    assert_eq!(a.new_poll, Some(10));
    assert!(matches!(&a.fetch_inning, Some((g, 4)) if g.id == "g"));
    assert!(a.refresh_standings);

    let a = lp.tick(&mut app, "2026-07-19".into());
    assert!(a.watch.is_none() && a.new_poll.is_none() && a.fetch_inning.is_none(), "said once");

    app.apply(Update::Games(vec![game("g", GameStatus::Final)]));
    let a = lp.tick(&mut app, "2026-07-19".into());
    assert!(matches!(&a.watch, Some(Command::WatchGame(g)) if g.status == GameStatus::Final), "a status change is told too");

    app.screen = Screen::List;
    let a = lp.tick(&mut app, "2026-07-19".into());
    assert!(matches!(a.watch, Some(Command::StopWatch)));
}

#[test]
fn the_date_follows_midnight_unless_the_user_picked_another() {
    let mut app = App::new(Config::default());
    app.date = "2026-07-19".into();
    let mut lp = looper(None, &app);
    let a = lp.tick(&mut app, "2026-07-20".into());
    assert_eq!(app.date, "2026-07-20");
    assert_eq!(a.new_date.as_deref(), Some("2026-07-20"));

    app.date = "2026-07-01".into();
    let a = lp.tick(&mut app, "2026-07-21".into());
    assert_eq!(app.date, "2026-07-01", "a picked date stays");
    assert_eq!(a.new_date.as_deref(), Some("2026-07-01"));
}

#[test]
fn the_spinner_turns_only_while_fetching() {
    let mut app = App::new(Config::default());
    let mut lp = looper(None, &app);
    lp.tick(&mut app, "2026-07-19".into());
    assert_eq!(app.spinner_frame, 0);
    app.fetching = true;
    app.spinner_frame = 255;
    lp.tick(&mut app, "2026-07-19".into());
    assert_eq!(app.spinner_frame, 0, "wraps around");
    lp.tick(&mut app, "2026-07-19".into());
    assert_eq!(app.spinner_frame, 1);
}

#[test]
fn the_view_and_the_mouse_are_reported_when_they_change() {
    let mut app = App::new(Config::default());
    let mut lp = looper(None, &app);
    assert!(!lp.view_changed(&app));
    app.show_help = true;
    assert!(lp.view_changed(&app));
    assert!(!lp.view_changed(&app));
    assert_eq!(lp.mouse_switch(&app), None);
    app.mouse = true;
    assert_eq!(lp.mouse_switch(&app), Some(true));
    assert_eq!(lp.mouse_switch(&app), None);
}

#[test]
fn the_endpoints_are_addressed_under_the_base() {
    let base = "https://api-gw.sports.naver.com";
    assert_eq!(
        games_url(base, "2026-07-19"),
        "https://api-gw.sports.naver.com/schedule/games?fields=basic,stadium,homeStarterName,awayStarterName,broadChannel&upperCategoryId=kbaseball&categoryId=kbo&fromDate=2026-07-19&toDate=2026-07-19"
    );
    assert_eq!(relay_url(base, "20260719KTLG02026"), "https://api-gw.sports.naver.com/schedule/games/20260719KTLG02026/relay");
    assert_eq!(inning_url(base, "g", 7), "https://api-gw.sports.naver.com/schedule/games/g/relay?inning=7");
    assert_eq!(standings_url(base, 2026), "https://api-gw.sports.naver.com/statistics/categories/kbo/seasons/2026/teams");
}
