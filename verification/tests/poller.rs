use kbotop::model::{Game, GameStatus, Team};
use kbotop::poller::{backoff_delay, standings_year, Command, CommandOutcome, PollerState, STANDINGS_POLL_SECS};

fn secs(s: u64) -> u64 {
    s * 1000
}

#[test]
fn backoff_delay_grows_with_errors_then_caps() {
    let base = secs(5);
    assert_eq!(backoff_delay(base, 0), secs(5));
    assert_eq!(backoff_delay(base, 1), secs(10));
    assert_eq!(backoff_delay(base, 2), secs(20));
    assert_eq!(backoff_delay(base, 3), secs(40));
    assert_eq!(backoff_delay(base, 4), secs(60));
    assert_eq!(backoff_delay(base, 20), secs(60));
}

#[test]
fn backoff_delay_does_not_shrink_a_base_already_at_or_above_the_cap() {
    let base = secs(60);
    assert_eq!(backoff_delay(base, 0), base);
    assert_eq!(backoff_delay(base, 5), base);
    assert_eq!(backoff_delay(secs(90), 3), secs(90));
}

fn game(id: &str, status: GameStatus) -> Game {
    Game {
        id: id.into(),
        start: String::new(),
        status,
        status_label: String::new(),
        home: Team { code: "LG".into(), name: "LG".into() },
        away: Team { code: "KT".into(), name: "KT".into() },
        home_score: None,
        away_score: None,
        away_starter: String::new(),
        home_starter: String::new(),
        stadium: String::new(),
        broadcast: String::new(),
    }
}

#[test]
fn a_standings_flood_is_coalesced_by_the_gate() {
    let mut st = PollerState::new(5, STANDINGS_POLL_SECS, 0);
    assert_eq!(st.on_command(Command::RefreshStandings, 0, "2026-07-19"), CommandOutcome::FetchStandings(2026));
    for t in 1..50u64 {
        assert_eq!(st.on_command(Command::RefreshStandings, t * 100, "2026-07-19"), CommandOutcome::Continue);
    }
    assert_eq!(
        st.on_command(Command::RefreshStandings, secs(STANDINGS_POLL_SECS), "2026-07-19"),
        CommandOutcome::FetchStandings(2026)
    );
}

#[test]
fn the_standings_year_falls_back_to_2026() {
    assert_eq!(standings_year("2025-04-01"), 2025);
    assert_eq!(standings_year("abcd-04-01"), 2026);
    assert_eq!(standings_year("20"), 2026);
}

#[test]
fn watching_a_new_game_polls_it_at_once_and_forgets_old_failures() {
    let mut st = PollerState::new(5, STANDINGS_POLL_SECS, 0);
    st.on_command(Command::WatchGame(game("a", GameStatus::Live)), 0, "2026-07-19");
    st.after_live(0, GameStatus::Live, false);
    st.after_live(secs(10), GameStatus::Live, false);
    assert_eq!(st.live_errors, 2);
    st.on_command(Command::WatchGame(game("b", GameStatus::Live)), secs(11), "2026-07-19");
    assert_eq!(st.live_errors, 0);
    assert_eq!(st.live_due(secs(11)).map(|g| g.id.clone()), Some("b".to_string()));
}

#[test]
fn live_backoff_widens_on_failures_and_resets_on_success() {
    let mut st = PollerState::new(5, STANDINGS_POLL_SECS, 0);
    st.on_command(Command::WatchGame(game("a", GameStatus::Live)), 0, "2026-07-19");
    st.after_live(0, GameStatus::Live, false);
    assert_eq!(st.next_live, secs(10));
    st.after_live(secs(10), GameStatus::Live, false);
    assert_eq!(st.next_live, secs(30));
    st.after_live(secs(30), GameStatus::Live, true);
    assert_eq!(st.next_live, secs(35));
}

#[test]
fn a_finished_game_is_polled_at_the_relaxed_interval() {
    let mut st = PollerState::new(5, STANDINGS_POLL_SECS, 0);
    st.on_command(Command::WatchGame(game("a", GameStatus::Final)), 0, "2026-07-19");
    st.after_live(0, GameStatus::Final, true);
    assert_eq!(st.next_live, secs(300));
}

#[test]
fn stop_watch_ends_live_polling_and_shutdown_stops() {
    let mut st = PollerState::new(5, STANDINGS_POLL_SECS, 0);
    st.on_command(Command::WatchGame(game("a", GameStatus::Live)), 0, "2026-07-19");
    st.on_command(Command::StopWatch, 1, "2026-07-19");
    assert!(st.live_due(secs(100)).is_none());
    assert_eq!(st.on_command(Command::Shutdown, 2, "2026-07-19"), CommandOutcome::Stop);
}

#[test]
fn games_fail_back_off_from_their_minute() {
    let mut st = PollerState::new(5, STANDINGS_POLL_SECS, 0);
    assert!(st.games_due(0));
    st.after_games(0, false);
    assert_eq!(st.next_games, secs(60));
    assert!(!st.games_due(secs(59)));
    st.after_news(0);
    assert_eq!(st.next_news, secs(300));
}

#[test]
fn refresh_standings_flood_is_coalesced_by_time_gate() {
    let mut st = PollerState::new(5, STANDINGS_POLL_SECS, 0);
    let mut fetches = 0;
    for tick in 0..50u64 {
        if let CommandOutcome::FetchStandings(_) = st.on_command(Command::RefreshStandings, tick * 100, "2026-07-19") {
            fetches += 1;
        }
    }
    assert_eq!(fetches, 1, "one fetch within the interval");
}

#[test]
fn refresh_standings_recurs_after_gate_elapses_not_just_once() {
    let mut st = PollerState::new(5, 1, 0);
    assert_eq!(st.on_command(Command::RefreshStandings, 0, "2026-07-19"), CommandOutcome::FetchStandings(2026));
    assert_eq!(st.on_command(Command::RefreshStandings, 300, "2026-07-19"), CommandOutcome::Continue);
    assert_eq!(
        st.on_command(Command::RefreshStandings, 1200, "2026-07-19"),
        CommandOutcome::FetchStandings(2026),
        "after the interval a second fetch"
    );
}

#[test]
fn live_backoff_widens_on_consecutive_errors_and_resets_on_success() {
    let mut st = PollerState::new(1, STANDINGS_POLL_SECS, 0);
    st.on_command(Command::WatchGame(game("a", GameStatus::Live)), 0, "2026-07-19");
    st.after_live(0, GameStatus::Live, false);
    assert_eq!(st.next_live, secs(2), "one failure doubles the second");
    st.after_live(secs(2), GameStatus::Live, true);
    assert_eq!(st.next_live, secs(3), "a success is back to the base");
    st.after_live(secs(3), GameStatus::Live, false);
    assert_eq!(st.next_live, secs(5));
}

#[test]
fn final_status_watched_game_uses_relaxed_live_interval_not_the_tight_base() {
    let mut st = PollerState::new(1, STANDINGS_POLL_SECS, 0);
    st.on_command(Command::WatchGame(game("a", GameStatus::Final)), 0, "2026-07-19");
    assert!(st.live_due(0).is_some());
    st.after_live(0, GameStatus::Final, true);
    assert!(st.live_due(secs(3)).is_none(), "not again within three seconds");
    assert!(st.live_due(secs(300)).is_some());
}

#[test]
fn a_new_date_makes_the_games_due_at_once() {
    let mut st = PollerState::new(5, STANDINGS_POLL_SECS, 0);
    st.after_games(0, true);
    assert!(!st.games_due(secs(1)));
    st.date_changed(secs(1));
    assert!(st.games_due(secs(1)));
}

#[test]
fn a_new_live_interval_applies_to_the_next_poll() {
    let mut st = PollerState::new(5, STANDINGS_POLL_SECS, 0);
    st.set_live_poll(10);
    st.after_live(0, GameStatus::Live, true);
    assert_eq!(st.next_live, secs(10));
}
