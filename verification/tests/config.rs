use kbotop::config::{lock_is_stale, lock_path_for, lock_step, merge_into_toml, Config, LockAttempt, LockStep, ThemeConfig};

fn cfg(team: Option<&str>, poll: u64, lang: Option<&str>, mouse: bool) -> Config {
    Config {
        favorite_team: team.map(|s| s.to_string()),
        poll_secs: poll,
        lang: lang.map(|s| s.to_string()),
        timezone: None,
        theme: ThemeConfig::default(),
        mouse,
    }
}

#[test]
fn defaults_when_no_file() {
    let c = Config::default();
    assert_eq!(c.poll_secs, 5);
    assert!(c.favorite_team.is_none());
}

#[test]
fn poll_secs_has_floor_of_3() {
    let c = cfg(None, 1, None, true);
    assert_eq!(c.effective_poll_secs(), 3);
}

#[test]
fn poll_secs_above_the_floor_is_kept() {
    assert_eq!(cfg(None, 7, None, true).effective_poll_secs(), 7);
    assert_eq!(cfg(None, 3, None, true).effective_poll_secs(), 3);
}

#[test]
fn merge_preserves_known_values_round_trip() {
    let c = cfg(Some("LG"), 7, Some("ko"), true);
    let out = merge_into_toml("", &c).unwrap();
    let back: toml::Table = out.parse().unwrap();
    assert_eq!(back["favorite_team"].as_str(), Some("LG"));
    assert_eq!(back["poll_secs"].as_integer(), Some(7));
    assert_eq!(back["lang"].as_str(), Some("ko"));
}

#[test]
fn merge_preserves_unknown_keys() {
    let existing = "favorite_team = \"OB\"\n[experimental]\nsecret = 42\n";
    let out = merge_into_toml(existing, &cfg(Some("LG"), 5, None, true)).unwrap();
    assert!(out.contains("favorite_team = \"LG\""));
    assert!(out.contains("[experimental]"), "unknown section dropped:\n{out}");
    assert!(out.contains("secret = 42"));
}

#[test]
fn merge_omits_none_lang() {
    let out = merge_into_toml("", &cfg(None, 5, None, true)).unwrap();
    assert!(!out.contains("lang"), "None lang must not be written:\n{out}");
}

#[test]
fn merge_removes_a_team_that_was_cleared() {
    let out = merge_into_toml("favorite_team = \"OB\"\n", &cfg(None, 5, None, true)).unwrap();
    assert!(!out.contains("favorite_team"), "{out}");
}

#[test]
fn merge_returns_err_on_malformed_existing() {
    let existing = "favorite_team = \"OB\"\n[experimental]\nnote = \"oops";
    assert!(merge_into_toml(existing, &Config::default()).is_err(), "malformed existing TOML must not be silently swallowed");
}

#[test]
fn merge_empty_existing_is_ok() {
    assert!(merge_into_toml("", &Config::default()).is_ok());
}

#[test]
fn merge_preserves_unknown_theme_keys() {
    let existing = "[theme]\ncustom_future_key = 1\npreset = \"x\"\n";
    let c = Config {
        favorite_team: None,
        poll_secs: 5,
        lang: None,
        timezone: None,
        theme: ThemeConfig { preset: "mono".into(), accent: "cyan".into() },
        mouse: true,
    };
    let out = merge_into_toml(existing, &c).unwrap();
    assert!(out.contains("custom_future_key = 1"), "unknown [theme] key dropped:\n{out}");
    assert!(out.contains("preset = \"mono\""), "preset not updated:\n{out}");
    assert!(out.contains("accent = \"cyan\""), "accent not updated:\n{out}");
}

#[test]
fn mouse_survives_a_round_trip() {
    let body = merge_into_toml("", &cfg(None, 5, None, false)).unwrap();
    assert!(body.contains("mouse"), "저장 내용에 mouse가 없다:\n{body}");
    let back: toml::Table = body.parse().unwrap();
    assert_eq!(back["mouse"].as_bool(), Some(false));
}

#[test]
fn the_lock_file_sits_beside_the_settings_file() {
    assert_eq!(lock_path_for("/home/u/.config/kbotop/config.toml"), "/home/u/.config/kbotop/config.toml.lock");
}

#[test]
fn theme_defaults_are_default_and_team() {
    let t = ThemeConfig::default();
    assert_eq!(t.preset, "default");
    assert_eq!(t.accent, "team");
}

#[test]
fn a_lock_older_than_ten_seconds_is_stale() {
    assert!(lock_is_stale(Some(11)));
    assert!(!lock_is_stale(Some(10)));
    assert!(!lock_is_stale(None), "an unreadable age is not taken as stale");
}

#[test]
fn taking_the_lock_retries_until_the_last_attempt() {
    assert_eq!(lock_step(1, LockAttempt::Created), LockStep::Acquired);
    assert_eq!(lock_step(1, LockAttempt::Failed), LockStep::GiveUp);
    assert_eq!(lock_step(1, LockAttempt::Held { stale: true }), LockStep::RemoveStale { retry: true });
    assert_eq!(lock_step(3, LockAttempt::Held { stale: false }), LockStep::Wait { retry: true });
    assert_eq!(lock_step(8, LockAttempt::Held { stale: false }), LockStep::Wait { retry: false });
    assert_eq!(lock_step(8, LockAttempt::Held { stale: true }), LockStep::RemoveStale { retry: false });
}
