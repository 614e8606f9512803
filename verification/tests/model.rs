use kbotop::model::{AtBat, BaseState, Count, GameStatus, LiveState, Pitch, RelayLine, Team};

#[test]
fn base_state_counts_runners() {
    let bases = BaseState { first: true, second: false, third: true };
    assert_eq!(bases.runner_count(), 2);
}

#[test]
fn game_status_is_live_only_when_playing() {
    assert!(GameStatus::Live.is_live());
    assert!(!GameStatus::Scheduled.is_live());
    assert!(!GameStatus::Final.is_live());
}

fn team(c: &str) -> Team {
    Team { code: c.into(), name: c.into() }
}

fn bare_live_state() -> LiveState {
    LiveState {
        inning_label: String::new(),
        home: team("LG"),
        away: team("KT"),
        home_score: 0,
        away_score: 0,
        count: Count { ball: 0, strike: 0, out: 0 },
        bases: BaseState { first: false, second: false, third: false },
        pitcher_name: String::new(),
        batter_name: String::new(),
        relay_log: vec![],
        current_pitches: vec![],
        next_batter_name: String::new(),
        at_bats: vec![],
        inning_score: Vec::new(),
    }
}

fn pitch(order: u8) -> Pitch {
    Pitch { order, ..Default::default() }
}

#[test]
fn active_helpers_fall_back_to_legacy_fields_when_at_bats_is_empty() {
    let mut s = bare_live_state();
    s.relay_log = vec![RelayLine::plain("레거시 문자중계")];
    s.current_pitches = vec![pitch(1), pitch(2)];
    assert!(s.active_at_bat(None).is_none());
    assert_eq!(s.active_pitches(None), s.current_pitches.as_slice());
    assert_eq!(s.active_relay_lines(None), s.relay_log.as_slice());
    assert_eq!(s.active_pitches(Some(0)), s.current_pitches.as_slice());
}

#[test]
fn active_at_bat_with_no_selection_resolves_to_the_latest() {
    let mut s = bare_live_state();
    s.at_bats = vec![
        AtBat { seq: 10, batter_name: "old".into(), inning_label: "T1".into(), relay_lines: vec![RelayLine::plain("old line")], pitches: vec![pitch(1)] },
        AtBat { seq: 11, batter_name: "new".into(), inning_label: "T2".into(), relay_lines: vec![RelayLine::plain("new line")], pitches: vec![pitch(1), pitch(2)] },
    ];
    assert_eq!(s.active_at_bat(None).unwrap().batter_name, "new");
    assert_eq!(s.active_pitches(None).len(), 2);
    assert_eq!(s.active_relay_lines(None), [RelayLine::plain("new line")]);
}

#[test]
fn active_at_bat_with_a_selection_resolves_to_that_sequence_number() {
    let mut s = bare_live_state();
    s.at_bats = vec![
        AtBat { seq: 10, batter_name: "old".into(), inning_label: "T1".into(), relay_lines: vec![], pitches: vec![] },
        AtBat { seq: 11, batter_name: "new".into(), inning_label: "T2".into(), relay_lines: vec![], pitches: vec![] },
    ];
    assert_eq!(s.active_at_bat(Some(10)).unwrap().batter_name, "old");
    s.at_bats.remove(0);
    assert!(!s.has_at_bat(10));
}

#[test]
fn active_at_bat_falls_back_to_latest_when_the_sequence_is_gone() {
    let mut s = bare_live_state();
    s.at_bats = vec![AtBat { seq: 7, batter_name: "only".into(), inning_label: "T1".into(), relay_lines: vec![], pitches: vec![] }];
    assert_eq!(s.active_at_bat(Some(99)).unwrap().batter_name, "only");
    assert!(!s.has_at_bat(99));
    assert!(s.has_at_bat(7));
}

fn linked_at_bat_state() -> LiveState {
    let mut s = bare_live_state();
    s.at_bats = vec![AtBat {
        seq: 1,
        batter_name: "타자".into(),
        inning_label: "T1".into(),
        relay_lines: vec![
            RelayLine::plain("1번타자 최원준"),
            RelayLine { text: "1구 볼".into(), pitch_idx: Some(0), is_pitch: true, time_hm: None },
            RelayLine { text: "2구 타격".into(), pitch_idx: Some(1), is_pitch: true, time_hm: None },
            RelayLine::plain("최원준 : 좌익수 뒤 홈런"),
            RelayLine::plain("1루주자 김현수 : 홈인"),
        ],
        pitches: vec![pitch(1), pitch(2)],
    }];
    s
}

#[test]
fn a_pitch_line_resolves_to_its_own_pitch() {
    let s = linked_at_bat_state();
    assert_eq!(s.pitch_at_relay_line(None, 1), Some(0));
    assert_eq!(s.pitch_at_relay_line(None, 2), Some(1));
}

#[test]
fn a_non_pitch_line_carries_down_the_nearest_pitch_above_it() {
    let s = linked_at_bat_state();
    assert_eq!(s.pitch_at_relay_line(None, 3), Some(1), "결과 요약 → 2구");
    assert_eq!(s.pitch_at_relay_line(None, 4), Some(1), "주자 진루 → 2구");
}

#[test]
fn a_line_above_the_first_pitch_selects_no_pitch_at_all() {
    let s = linked_at_bat_state();
    assert_eq!(s.pitch_at_relay_line(None, 0), None);
}

#[test]
fn pitch_at_relay_line_is_lenient_about_out_of_range_and_empty_input() {
    let s = linked_at_bat_state();
    assert_eq!(s.pitch_at_relay_line(None, 9999), Some(1), "마지막 줄 취급");
    assert_eq!(bare_live_state().pitch_at_relay_line(None, 0), None);
}

#[test]
fn relay_line_of_pitch_finds_the_line_that_describes_it() {
    let s = linked_at_bat_state();
    assert_eq!(s.relay_line_of_pitch(None, 0), Some(1));
    assert_eq!(s.relay_line_of_pitch(None, 1), Some(2));
    assert_eq!(s.relay_line_of_pitch(None, 7), None, "없는 투구");
    assert_eq!(bare_live_state().relay_line_of_pitch(None, 0), None, "줄 정보가 없는 상태(레거시 폴백)에선 짝을 못 찾는다");
}

#[test]
fn the_relay_pitch_lookups_stay_inside_the_at_bat_being_viewed() {
    let mut s = linked_at_bat_state();
    let mut newest = s.at_bats[0].clone();
    newest.seq = 2;
    newest.relay_lines = vec![RelayLine { text: "1구 헛스윙".into(), pitch_idx: Some(0), is_pitch: true, time_hm: None }];
    newest.pitches = vec![pitch(1)];
    s.at_bats.push(newest);
    assert_eq!(s.pitch_at_relay_line(None, 0), Some(0));
    assert_eq!(s.relay_line_of_pitch(None, 1), None);
    assert_eq!(s.pitch_at_relay_line(Some(1), 0), None);
    assert_eq!(s.relay_line_of_pitch(Some(1), 1), Some(2));
}

#[test]
fn has_unique_at_bat_seqs_is_true_when_all_seqs_differ() {
    let mut s = bare_live_state();
    s.at_bats = vec![AtBat { seq: 86, ..Default::default() }, AtBat { seq: 87, ..Default::default() }];
    assert!(s.has_unique_at_bat_seqs());
}

#[test]
fn has_unique_at_bat_seqs_is_false_when_no_is_missing_and_seqs_collide() {
    let mut s = bare_live_state();
    s.at_bats = vec![AtBat { seq: 0, ..Default::default() }, AtBat { seq: 0, ..Default::default() }, AtBat { seq: 0, ..Default::default() }];
    assert!(!s.has_unique_at_bat_seqs());
}

#[test]
fn has_unique_at_bat_seqs_is_true_for_zero_or_one_at_bats() {
    let mut s = bare_live_state();
    assert!(s.has_unique_at_bat_seqs());
    s.at_bats = vec![AtBat { seq: 0, ..Default::default() }];
    assert!(s.has_unique_at_bat_seqs());
}

#[test]
fn selecting_a_pitch_and_reading_its_line_agree() {
    let s = linked_at_bat_state();
    for p in 0..2usize {
        let line = s.relay_line_of_pitch(None, p).unwrap();
        assert_eq!(s.pitch_at_relay_line(None, line), Some(p));
    }
}
