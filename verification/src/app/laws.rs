//! What holds of the screen state over several steps.
use vstd::prelude::*;
use crate::app::{is_best_game, stats_target, App, Key, KeyAction, Menus, MouseAction, Screen, Zone};
use crate::model::Game;
use crate::app::keys::{enter_pressed, key_handled, main_post, mouse_handled};
use crate::app::live::{
    first_inning_entry, has_game, holds_seq, lemma_first_inning_entry, past_for,
    past_upto, same_at_bat, skip_cached, unique_seqs,
};
use crate::app::settings::{
    accent_at, accent_position, cycle_index, lang_at, lang_position, poll_choice_at, poll_position,
    preset_at, preset_position, setting_changed, setting_kind_at, team_choice, team_position,
    TEAM_CHOICES,
};
use crate::app::update::{applied, lemma_merged_holds, lemma_no_game_no_past, merged_state, shown_at_bats};
use crate::launch::opt_string_view;
use crate::model::{first_seq_index, lemma_first_seq_index, AtBat, LiveState};
use crate::poller::Update;
use crate::app::{PastInning, SettingKind};

verus! {

/// No overlay covers the screen.
pub open spec fn no_overlay(a: App) -> bool {
    &&& !a.show_help
    &&& a.options is None
    &&& a.link_picker is None
    &&& a.article_view is None
    &&& a.news_list is None
    &&& stats_target(a.standings@, a.team_stats_rank) is None
    &&& a.settings is None
}

/// Opening the help, the date picker or the settings and pressing the same
/// key again gives the screen back as it was (a pending `g` aside).
pub proof fn law_overlay_round_trip(
    pre: App,
    mid: App,
    post: App,
    key: Key,
    menus: Menus,
    r1: KeyAction,
    r2: KeyAction,
)
    requires
        no_overlay(pre),
        key == Key::F(9) || key == Key::F(2) || key == Key::F(1) || key == Key::Char('?'),
        key_handled(pre, key, menus, mid, r1),
        key_handled(mid, key, menus, post, r2),
    ensures
        post == (App { pending_g: false, ..pre }),
        r1 == KeyAction::Stay,
        r2 == KeyAction::Stay,
{
}

/// On the list, Tab twice comes back to the same tab, with the cursor at the
/// top.
pub proof fn law_tab_twice(pre: App, mid: App, post: App, menus: Menus, r1: KeyAction, r2: KeyAction)
    requires
        no_overlay(pre),
        pre.screen is List,
        key_handled(pre, Key::Tab, menus, mid, r1),
        key_handled(mid, Key::Tab, menus, post, r2),
    ensures
        post == (App { selected: 0, pending_g: false, ..pre }),
{
}

/// The first at-bat numbered `s` in `a + b` is the first in `a`, when `a`
/// has one.
proof fn lemma_first_index_prefix(a: Seq<AtBat>, b: Seq<AtBat>, s: i64)
    requires
        first_seq_index(a, s) is Some,
    ensures
        first_seq_index(a + b, s) == first_seq_index(a, s),
    decreases a.len(),
{
    if a.len() > 0 && a[0].seq != s {
        assert((a + b).drop_first() == a.drop_first() + b);
        lemma_first_index_prefix(a.drop_first(), b, s);
    }
}

proof fn lemma_holds_first(r: Seq<AtBat>, s: i64)
    requires
        holds_seq(r, s),
    ensures
        first_seq_index(r, s) matches Some(i) && 0 <= i < r.len() && r[i].seq == s,
{
    lemma_first_seq_index(r, s);
}

/// A merge keeps every number of the live state.
proof fn lemma_merge_keeps_live(x: LiveState, l: LiveState, entries: Seq<PastInning>, id: Seq<char>, j: int)
    requires
        merged_state(x, l, entries, id),
        0 <= j < l.at_bats@.len(),
    ensures
        holds_seq(x.at_bats@, l.at_bats@[j].seq),
{
    if has_game(entries, id) {
        let c = l.at_bats@ + past_for(entries, id);
        assert(c[j] == l.at_bats@[j]);
    } else {
        assert(x.at_bats@[j].seq == l.at_bats@[j].seq);
    }
}


/// While a past at-bat is read, a poll of the watched game keeps the reader
/// on it as long as it is in the list shown (the reply or the innings cached
/// for the game): the selections stay, and the at-bat the view designates
/// still carries that number.
pub proof fn law_reading_survives_poll(pre: App, id: String, l: LiveState, post: App, seq: i64)
    requires
        pre.screen matches Screen::Live { game, .. } && game.id@ == id@,
        pre.live_atbat_sel == Some(seq),
        holds_seq(shown_at_bats(l, pre.past_innings@, id@), seq),
        applied(pre, Update::Live(id, l), post),
    ensures
        post.live_atbat_sel == Some(seq),
        post.live_pitch_sel == pre.live_pitch_sel,
        post.live_relay_cursor == pre.live_relay_cursor,
        post.live_state() matches Some(x) && (x.active_index(Some(seq)) matches Some(i)
            && x.at_bats@[i].seq == seq),
{
    let x = post.live_state()->0;
    lemma_merged_holds(x, l, pre.past_innings@, id@, seq);
    lemma_holds_first(x.at_bats@, seq);
}

/// A rewound at-bat is let go only when it left the list shown: then the
/// three selections return to the live at-bat, and the new view has no
/// at-bat with that number.
pub proof fn law_rewound_at_bat_dropped_when_gone(pre: App, id: String, l: LiveState, post: App, seq: i64)
    requires
        pre.screen matches Screen::Live { game, .. } && game.id@ == id@,
        pre.live_atbat_sel == Some(seq),
        !holds_seq(shown_at_bats(l, pre.past_innings@, id@), seq),
        applied(pre, Update::Live(id, l), post),
    ensures
        post.live_atbat_sel is None,
        post.live_pitch_sel is None,
        post.live_relay_cursor is None,
        post.live_state() matches Some(x) && !holds_seq(x.at_bats@, seq),
{
    let x = post.live_state()->0;
    lemma_merged_holds(x, l, pre.past_innings@, id@, seq);
}

/// Putting the cached innings of a game into a live state: with nothing
/// cached the state is unchanged; otherwise its at-bats run in strictly
/// increasing number, their numbers are exactly those of the live state and
/// of the cache, and a number of the live state keeps the live copy.
pub proof fn law_merge_past_innings(x: LiveState, l: LiveState, entries: Seq<PastInning>, id: Seq<char>, s: i64)
    requires
        merged_state(x, l, entries, id),
    ensures
        !has_game(entries, id) ==> x == l,
        has_game(entries, id) ==> forall|i: int, j: int|
            0 <= i < j < x.at_bats@.len() ==> x.at_bats@[i].seq < x.at_bats@[j].seq,
        holds_seq(x.at_bats@, s) == (holds_seq(l.at_bats@, s) || holds_seq(past_for(entries, id), s)),
        holds_seq(l.at_bats@, s) ==> (first_seq_index(x.at_bats@, s) matches Some(k)
            && first_seq_index(l.at_bats@, s) matches Some(j) && same_at_bat(
            x.at_bats@[k],
            l.at_bats@[j],
        )),
{
    let p = past_for(entries, id);
    let c = l.at_bats@ + p;
    lemma_merged_holds(x, l, entries, id, s);
    if holds_seq(c, s) {
        let j = choose|j: int| 0 <= j < c.len() && c[j].seq == s;
        if j >= l.at_bats@.len() {
            assert(c[j] == p[j - l.at_bats@.len()]);
        } else {
            assert(c[j] == l.at_bats@[j]);
        }
    }
    if holds_seq(l.at_bats@, s) {
        let j = choose|j: int| 0 <= j < l.at_bats@.len() && l.at_bats@[j].seq == s;
        assert(c[j] == l.at_bats@[j]);
        lemma_first_seq_index(l.at_bats@, s);
        let j0 = first_seq_index(l.at_bats@, s)->0;
        lemma_holds_first(x.at_bats@, s);
        let k = first_seq_index(x.at_bats@, s)->0;
        if has_game(entries, id) {
            lemma_first_index_prefix(l.at_bats@, p, s);
            assert(first_seq_index(c, x.at_bats@[k].seq) == Some(j0));
            assert(c[j0] == l.at_bats@[j0]);
        } else {
            assert(x == l);
        }
    }
    if holds_seq(p, s) {
        let j = choose|j: int| 0 <= j < p.len() && p[j].seq == s;
        assert(c[l.at_bats@.len() + j] == p[j]);
    }
}

/// The index of the at-bat being viewed: the selected number's first place,
/// or the latest when none is selected or it is gone.
pub open spec fn viewed_index(abs: Seq<AtBat>, sel: Option<i64>) -> int {
    match sel {
        Some(seq) => match first_seq_index(abs, seq) {
            Some(i) => i,
            None => abs.len() - 1,
        },
        None => abs.len() - 1,
    }
}

/// `[` and `]` on the live view step one at-bat back or forward, clamped at
/// both ends; the latest at-bat is followed live (no selection), and the
/// pitch and relay cursor are cleared. `[` on the first at-bat also asks
/// for the inning before, unless a request is pending; otherwise the
/// request stays as it was.
pub proof fn law_bracket_keys_step_at_bats(
    pre: App,
    key: Key,
    menus: Menus,
    post: App,
    r: KeyAction,
    s: LiveState,
)
    requires
        no_overlay(pre),
        pre.live_state() == Some(s),
        s.at_bats@.len() > 0,
        unique_seqs(s.at_bats@),
        key == Key::Char('[') || key == Key::Char(']'),
        key_handled(pre, key, menus, post, r),
    ensures
        ({
            let n = s.at_bats@.len();
            let i = viewed_index(s.at_bats@, pre.live_atbat_sel);
            let j = if key == Key::Char('[') {
                if i > 0 { i - 1 } else { 0 }
            } else if i + 1 < n - 1 {
                i + 1
            } else {
                n - 1
            };
            &&& post.live_atbat_sel == if j == n - 1 {
                None
            } else {
                Some(s.at_bats@[j].seq)
            }
            &&& post.live_pitch_sel is None
            &&& post.live_relay_cursor is None
            &&& r == KeyAction::Stay
            &&& post.screen == pre.screen
            &&& post.fetching_inning == if key == Key::Char('[') && i == 0 && pre.fetching_inning is None {
                pre.earlier_target()
            } else {
                pre.fetching_inning
            }
        }),
{
    match pre.live_atbat_sel {
        Some(seq) => {
            lemma_first_seq_index(s.at_bats@, seq);
        },
        None => {},
    }
}

/// From inning `t` down, the inning an earlier-inning request asks for is
/// the latest one not cached: every inning between it and `t` is cached,
/// and it is not (or it is below 1, and nothing is asked).
pub proof fn law_earlier_inning_is_latest_uncached(entries: Seq<PastInning>, game: Seq<char>, t: int)
    ensures
        skip_cached(entries, game, t) <= t,
        skip_cached(entries, game, t) >= 1 ==> first_inning_entry(
            entries,
            game,
            skip_cached(entries, game, t),
        ) is None,
        forall|k: int|
            skip_cached(entries, game, t) < k <= t ==> #[trigger] first_inning_entry(entries, game, k) is Some,
    decreases t,
{
    if t >= 1 && first_inning_entry(entries, game, t) is Some {
        law_earlier_inning_is_latest_uncached(entries, game, t - 1);
    }
}

/// With the mouse on and no overlay open, a click clears a pending `g`; a
/// click on a row selects it, and a click on the selected row opens it as
/// Enter does on the list; a click on a tab goes to that tab, and when that
/// changes the tab or leaves the live view the cursor goes to the top and
/// the list is shown (leaving the live view also clears its selections).
/// An event over no zone changes nothing else.
#[verifier::rlimit(40)]
pub proof fn law_mouse_clicks(pre: App, zone: Option<Zone>, kind: MouseAction, menus: Menus, post: App)
    requires
        pre.mouse,
        no_overlay(pre),
        mouse_handled(pre, zone, kind, menus, post),
    ensures
        kind == MouseAction::Click ==> !post.pending_g,
        kind == MouseAction::Click ==> match zone {
            Some(Zone::GameRow(i)) => if i == pre.selected {
                post == enter_pressed(pre)
            } else {
                post.selected == i && post.screen == pre.screen
            },
            Some(Zone::StandingRow(i)) => if i == pre.selected {
                post == enter_pressed(pre)
            } else {
                post.selected == i && post.screen == pre.screen
            },
            Some(Zone::Tab(t)) => post.tab == t && ((pre.tab != t || pre.screen is Live) ==> (
            post.selected == 0 && post.screen == Screen::List)) && (pre.screen is Live ==> (
            post.live_pitch_sel is None && post.live_atbat_sel is None && post.live_relay_cursor is None)),
            _ => true,
        },
        zone is None ==> post == (App { pending_g: false, ..pre }),
{
    let p = App { pending_g: false, ..pre };
    if kind == MouseAction::Click {
        match zone {
            Some(Zone::GameRow(i)) => {
                assert(main_post(p, Key::Enter) == enter_pressed(pre));
            },
            Some(Zone::StandingRow(i)) => {
                assert(main_post(p, Key::Enter) == enter_pressed(pre));
            },
            _ => {},
        }
    }
}

/// A number in the live state and in the cache: the live copy wins.
pub proof fn law_live_copy_wins(pre: App, id: String, l: LiveState, post: App, s: i64)
    requires
        pre.screen matches Screen::Live { game, .. } && game.id@ == id@,
        holds_seq(l.at_bats@, s),
        applied(pre, Update::Live(id, l), post),
    ensures
        post.live_state() matches Some(x) && (first_seq_index(x.at_bats@, s) matches Some(k)
            && first_seq_index(l.at_bats@, s) matches Some(j) && same_at_bat(
            x.at_bats@[k],
            l.at_bats@[j],
        )),
{
    let x = post.live_state()->0;
    lemma_first_seq_index(l.at_bats@, s);
    let j = first_seq_index(l.at_bats@, s)->0;
    lemma_merge_keeps_live(x, l, pre.past_innings@, id@, j);
    lemma_holds_first(x.at_bats@, s);
    let k = first_seq_index(x.at_bats@, s)->0;
    assert(x.at_bats@[k].seq == s);
    if has_game(pre.past_innings@, id@) {
        let c = l.at_bats@ + past_for(pre.past_innings@, id@);
        lemma_first_index_prefix(l.at_bats@, past_for(pre.past_innings@, id@), s);
        assert(first_seq_index(c, x.at_bats@[k].seq) == Some(j));
        assert(c[j] == l.at_bats@[j]);
        assert(same_at_bat(x.at_bats@[k], l.at_bats@[j]));
    } else {
        assert(x == l);
        assert(k == j);
    }
}

/// A poll of the watched game keeps the innings fetched for it: every cached
/// at-bat's number is still in the live view.
pub proof fn law_poll_keeps_cached_innings(pre: App, id: String, l: LiveState, post: App, j: int)
    requires
        pre.screen matches Screen::Live { game, .. } && game.id@ == id@,
        0 <= j < past_for(pre.past_innings@, id@).len(),
        applied(pre, Update::Live(id, l), post),
    ensures
        post.live_state() matches Some(x) && holds_seq(
            x.at_bats@,
            past_for(pre.past_innings@, id@)[j].seq,
        ),
{
    let x = post.live_state()->0;
    let past = past_for(pre.past_innings@, id@);
    if !has_game(pre.past_innings@, id@) {
        lemma_no_game_no_past(pre.past_innings@, id@, 256);
    }
    let c = l.at_bats@ + past;
    assert(c[l.at_bats@.len() + j] == past[j]);
}

/// A fetched inning of the watched game is what the cache answers for that
/// inning afterwards.
pub proof fn law_fetched_inning_is_kept(
    pre: App,
    game_id: String,
    inning: u8,
    at_bats: Vec<AtBat>,
    post: App,
)
    requires
        pre.screen matches Screen::Live { game, .. } && game.id@ == game_id@,
        applied(pre, Update::Inning { game_id, inning, at_bats }, post),
    ensures
        first_inning_entry(post.past_innings@, game_id@, inning as int) matches Some(k)
            && post.past_innings@[k].at_bats == at_bats,
{
    let old_entries = pre.past_innings@;
    let new_entries = post.past_innings@;
    lemma_first_inning_entry(old_entries, game_id@, inning as int);
    lemma_first_inning_entry(new_entries, game_id@, inning as int);
    match first_inning_entry(old_entries, game_id@, inning as int) {
        Some(k) => {
            assert(new_entries[k].game_id@ == game_id@ && new_entries[k].inning == inning);
            assert forall|j: int| 0 <= j < k implies new_entries[j] == old_entries[j] by {}
        },
        None => {
            let k = old_entries.len() as int;
            assert(new_entries[k].game_id@ == game_id@ && new_entries[k].inning == inning);
            assert forall|j: int| 0 <= j < k implies new_entries[j] == old_entries[j] by {}
        },
    }
}

/// A team's games lead to one game only: the favorite team's entry is
/// determined by the games list.
pub proof fn law_best_game_is_unique(games: Seq<Game>, code: Seq<char>, i: int, j: int)
    requires
        is_best_game(games, code, i),
        is_best_game(games, code, j),
    ensures
        i == j,
{
    assert(crate::app::plays_in(games[j], code));
    assert(crate::app::plays_in(games[i], code));
}

/// Whether the value of the settings row at `cursor` is one of its choices.
pub open spec fn known_setting(a: App, cursor: usize) -> bool {
    match setting_kind_at(cursor as int) {
        Some(SettingKind::Team) => team_choice(team_position(opt_string_view(a.fav_code)))
            == opt_string_view(a.fav_code),
        Some(SettingKind::Poll) => poll_choice_at(poll_position(a.poll_choice)) == a.poll_choice,
        Some(SettingKind::ThemePreset) => preset_at(preset_position(a.theme_preset@))
            == a.theme_preset@,
        Some(SettingKind::ThemeAccent) => accent_at(accent_position(a.theme_accent@))
            == a.theme_accent@,
        _ => true,
    }
}

proof fn lemma_team_choices_distinct(i: int)
    requires
        0 <= i < TEAM_CHOICES,
    ensures
        team_position(team_choice(i)) == i,
{
    reveal_strlit("LG");
    reveal_strlit("KT");
    reveal_strlit("SK");
    reveal_strlit("NC");
    reveal_strlit("HT");
    reveal_strlit("LT");
    reveal_strlit("SS");
    reveal_strlit("HH");
    reveal_strlit("WO");
    reveal_strlit("OB");
    assert("LG"@[0] == 'L' && "LG"@[1] == 'G');
    assert("KT"@[0] == 'K' && "KT"@[1] == 'T');
    assert("SK"@[0] == 'S' && "SK"@[1] == 'K');
    assert("NC"@[0] == 'N' && "NC"@[1] == 'C');
    assert("HT"@[0] == 'H' && "HT"@[1] == 'T');
    assert("LT"@[0] == 'L' && "LT"@[1] == 'T');
    assert("SS"@[0] == 'S' && "SS"@[1] == 'S');
    assert("HH"@[0] == 'H' && "HH"@[1] == 'H');
    assert("WO"@[0] == 'W' && "WO"@[1] == 'O');
    assert("OB"@[0] == 'O' && "OB"@[1] == 'B');
}

proof fn lemma_presets_distinct(i: int)
    requires
        0 <= i < 3,
    ensures
        preset_position(preset_at(i)) == i,
{
    reveal_strlit("default");
    reveal_strlit("high-contrast");
    reveal_strlit("mono");
    assert("default"@[0] == 'd');
    assert("high-contrast"@[0] == 'h');
    assert("mono"@[0] == 'm');
}

proof fn lemma_accents_distinct(i: int)
    requires
        0 <= i < 8,
    ensures
        accent_position(accent_at(i)) == i,
{
    reveal_strlit("team");
    reveal_strlit("cyan");
    reveal_strlit("green");
    reveal_strlit("yellow");
    reveal_strlit("magenta");
    reveal_strlit("blue");
    reveal_strlit("red");
    reveal_strlit("none");
    assert("team"@[0] == 't');
    assert("cyan"@[0] == 'c');
    assert("green"@[0] == 'g');
    assert("yellow"@[0] == 'y');
    assert("magenta"@[0] == 'm');
    assert("blue"@[0] == 'b');
    assert("red"@[0] == 'r');
    assert("none"@[0] == 'n');
}

/// Stepping a settings row forward and then back gives its value back, when
/// the value was one of the row's choices.
pub proof fn law_setting_back_and_forth(pre: App, mid: App, post: App, cursor: usize)
    requires
        known_setting(pre, cursor),
        setting_changed(pre, mid, cursor, true),
        setting_changed(mid, post, cursor, false),
    ensures
        post == (App {
            fav_code: post.fav_code,
            theme_preset: post.theme_preset,
            theme_accent: post.theme_accent,
            ..pre
        }),
        opt_string_view(post.fav_code) == opt_string_view(pre.fav_code),
        post.theme_preset@ == pre.theme_preset@,
        post.theme_accent@ == pre.theme_accent@,
{
    match setting_kind_at(cursor as int) {
        Some(SettingKind::Team) => {
            let p0 = team_position(opt_string_view(pre.fav_code));
            let p1 = cycle_index(p0, TEAM_CHOICES as int, true);
            assert(0 <= p0 < 11);
            lemma_team_choices_distinct(p1);
            assert(cycle_index(p1, TEAM_CHOICES as int, false) == p0);
        },
        Some(SettingKind::Poll) => {
            let p0 = poll_position(pre.poll_choice);
            let p1 = cycle_index(p0, 4, true);
            assert(poll_position(poll_choice_at(p1)) == p1);
            assert(cycle_index(p1, 4, false) == p0);
        },
        Some(SettingKind::ThemePreset) => {
            let p0 = preset_position(pre.theme_preset@);
            let p1 = cycle_index(p0, 3, true);
            assert(0 <= p0 < 3);
            lemma_presets_distinct(p1);
            assert(cycle_index(p1, 3, false) == p0);
        },
        Some(SettingKind::ThemeAccent) => {
            let p0 = accent_position(pre.theme_accent@);
            let p1 = cycle_index(p0, 8, true);
            assert(0 <= p0 < 8);
            lemma_accents_distinct(p1);
            assert(cycle_index(p1, 8, false) == p0);
        },
        Some(SettingKind::Lang) => {
            let p0 = lang_position(pre.lang);
            let p1 = cycle_index(p0, 3, true);
            assert(lang_position(lang_at(p1)) == p1);
            assert(cycle_index(p1, 3, false) == p0);
            assert(lang_at(p0) == pre.lang);
        },
        _ => {},
    }
}

} // verus!
