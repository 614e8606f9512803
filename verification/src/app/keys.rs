//! Keys and mouse events. An open overlay takes every key (help, the date
//! picker, the link picker, the article, the news list, the team stats, the
//! settings, in that order); otherwise the key acts on the list or the live
//! view. Any key but a first `g` ends a pending `gg`.
use vstd::prelude::*;
use crate::app::{
    stats_target, App, ArticleView, Key, KeyAction, LinkPickerState, Menus, MouseAction,
    NewsListState, OptionsState, Pane, Screen, SettingsState, Tab, Zone,
};
use crate::app::settings::{persisted, setting_changed};
use crate::model::NewsItem;

verus! {

pub open spec fn is_down(k: Key) -> bool {
    k == Key::Down || k == Key::Char('j')
}

pub open spec fn is_up(k: Key) -> bool {
    k == Key::Up || k == Key::Char('k')
}

fn down_key(k: Key) -> (b: bool)
    ensures
        b == is_down(k),
{
    k == Key::Down || k == Key::Char('j')
}

fn up_key(k: Key) -> (b: bool)
    ensures
        b == is_up(k),
{
    k == Key::Up || k == Key::Char('k')
}

/// Ctrl+C (also with Shift) ends the program; it is no key binding of the
/// screens, which never see the modifiers.
pub fn is_interrupt(key: Key, ctrl: bool) -> (b: bool)
    ensures
        b == (ctrl && (key == Key::Char('c') || key == Key::Char('C'))),
{
    ctrl && (key == Key::Char('c') || key == Key::Char('C'))
}

/// `c + 1` when that is below `len`, else `c`.
pub open spec fn step_down(c: usize, len: int) -> usize {
    if c + 1 < len {
        (c + 1) as usize
    } else {
        c
    }
}

pub open spec fn step_up(c: usize) -> usize {
    if c > 0 {
        (c - 1) as usize
    } else {
        0
    }
}

fn down_in(c: usize, len: usize) -> (r: usize)
    ensures
        r == step_down(c, len as int),
{
    if c < len && c + 1 < len {
        c + 1
    } else {
        c
    }
}

fn up_from(c: usize) -> (r: usize)
    ensures
        r == step_up(c),
{
    if c > 0 {
        c - 1
    } else {
        0
    }
}

/// The state after Enter in the date picker: the picker closes; a date
/// other than the one shown becomes the date, with the games list emptied
/// and marked not loaded, the cursor at the top, the live selections cleared
/// and the list screen shown.
pub open spec fn date_picked(pre: App, menus: Menus, post: App) -> bool {
    let opt = pre.options->0;
    let closed = App { options: None, ..pre };
    if opt.cursor < menus.dates@.len() && menus.dates@[opt.cursor as int]@ != pre.date@ {
        &&& post == (App {
            date: post.date,
            games: post.games,
            games_loaded: false,
            selected: 0,
            live_pitch_sel: None,
            live_atbat_sel: None,
            live_relay_cursor: None,
            screen: Screen::List,
            ..closed
        })
        &&& post.date@ == menus.dates@[opt.cursor as int]@
        &&& post.games@.len() == 0
    } else {
        post == closed
    }
}

/// A key while the date picker is open.
pub open spec fn options_key(pre: App, key: Key, menus: Menus, post: App) -> bool {
    let opt = pre.options->0;
    let p = App { pending_g: false, ..pre };
    if key == Key::Esc || key == Key::F(2) {
        post == (App { options: None, ..p })
    } else if is_down(key) {
        post == (App {
            options: Some(OptionsState { cursor: step_down(opt.cursor, menus.dates@.len() as int), ..opt }),
            ..p
        })
    } else if is_up(key) {
        post == (App { options: Some(OptionsState { cursor: step_up(opt.cursor), ..opt }), ..p })
    } else if key == Key::Enter {
        date_picked(p, menus, post)
    } else {
        post == p
    }
}

/// A key while the link picker is open; Enter opens the link under the
/// cursor and closes the picker.
pub open spec fn picker_key(pre: App, key: Key, post: App, r: KeyAction) -> bool {
    let lp = pre.link_picker->0;
    let p = App { pending_g: false, ..pre };
    if key == Key::Esc || key == Key::Char('o') {
        post == (App { link_picker: None, ..p }) && r == KeyAction::Stay
    } else if is_down(key) {
        post == (App {
            link_picker: Some(LinkPickerState { cursor: step_down(lp.cursor, lp.items@.len() as int), ..lp }),
            ..p
        }) && r == KeyAction::Stay
    } else if is_up(key) {
        post == (App {
            link_picker: Some(LinkPickerState { cursor: step_up(lp.cursor), ..lp }),
            ..p
        }) && r == KeyAction::Stay
    } else if key == Key::Enter {
        post == (App { link_picker: None, ..p }) && if lp.cursor < lp.items@.len() {
            r == KeyAction::Open(lp.items@[lp.cursor as int].1)
        } else {
            r == KeyAction::Stay
        }
    } else {
        post == p && r == KeyAction::Stay
    }
}

pub open spec fn scroll_down(s: u16, by: u16) -> u16 {
    if s + by > u16::MAX {
        u16::MAX
    } else {
        (s + by) as u16
    }
}

pub open spec fn scroll_up(s: u16, by: u16) -> u16 {
    if s >= by {
        (s - by) as u16
    } else {
        0
    }
}

/// A key while an article is open; `o` or Enter opens its link, if it has
/// one.
pub open spec fn article_key(pre: App, key: Key, post: App, r: KeyAction) -> bool {
    let v = pre.article_view->0;
    let p = App { pending_g: false, ..pre };
    let scrolled = |s: u16| post == (App { article_view: Some(ArticleView { scroll: s, ..v }), ..p });
    if key == Key::Esc || key == Key::Char('n') || key == Key::Char('q') {
        post == (App { article_view: None, ..p }) && r == KeyAction::Stay
    } else if is_down(key) {
        scrolled(scroll_down(v.scroll, 1)) && r == KeyAction::Stay
    } else if is_up(key) {
        scrolled(scroll_up(v.scroll, 1)) && r == KeyAction::Stay
    } else if key == Key::PageDown {
        scrolled(scroll_down(v.scroll, 10)) && r == KeyAction::Stay
    } else if key == Key::PageUp {
        scrolled(scroll_up(v.scroll, 10)) && r == KeyAction::Stay
    } else if (key == Key::Char('o') || key == Key::Enter) && v.item.url@.len() > 0 {
        post == p && r == KeyAction::Open(v.item.url)
    } else {
        post == p && r == KeyAction::Stay
    }
}

/// A key while the news list is open; Enter opens the article under the
/// cursor on top of it.
pub open spec fn news_list_key(pre: App, key: Key, post: App) -> bool {
    let nl = pre.news_list->0;
    let p = App { pending_g: false, ..pre };
    if key == Key::Esc || key == Key::Char('n') || key == Key::Char('q') {
        post == (App { news_list: None, ..p })
    } else if is_down(key) {
        post == (App {
            news_list: Some(NewsListState { cursor: step_down(nl.cursor, pre.news@.len() as int) }),
            ..p
        })
    } else if is_up(key) {
        post == (App { news_list: Some(NewsListState { cursor: step_up(nl.cursor) }), ..p })
    } else if key == Key::Enter && nl.cursor < pre.news@.len() {
        post == (App {
            article_view: Some(ArticleView { item: pre.news@[nl.cursor as int], scroll: 0 }),
            ..p
        })
    } else {
        post == p
    }
}

/// A key while the settings screen is open. ←, → and Enter step the row
/// under the cursor and hand back the settings to write (none when the
/// settings file could not be read: then the save shows as failed).
pub open spec fn settings_key(pre: App, key: Key, post: App, r: KeyAction) -> bool {
    let st = pre.settings->0;
    let p = App { pending_g: false, ..pre };
    if key == Key::Esc || key == Key::F(9) || key == Key::Char('q') {
        post == (App { settings: None, ..p }) && r == KeyAction::Stay
    } else if is_down(key) {
        post == (App { settings: Some(SettingsState { cursor: step_down(st.cursor, 6), ..st }), ..p })
            && r == KeyAction::Stay
    } else if is_up(key) {
        post == (App { settings: Some(SettingsState { cursor: step_up(st.cursor), ..st }), ..p })
            && r == KeyAction::Stay
    } else if key == Key::Left || key == Key::Right || key == Key::Enter {
        let changed = App { settings: pre.settings, pending_g: pre.pending_g, ..post };
        &&& setting_changed(pre, changed, st.cursor, key != Key::Left)
        &&& !post.pending_g
        &&& if pre.config_error is Some {
            post.settings == Some(SettingsState { save_failed: true, ..st }) && r == KeyAction::Stay
        } else {
            post.settings == pre.settings && (r matches KeyAction::Save(c) && persisted(c, changed))
        }
    } else {
        post == p && r == KeyAction::Stay
    }
}

/// Tab or F5: the other tab, cursor at the top; from the live view, back to
/// the list with the live selections cleared.
pub open spec fn tab_switched(pre: App) -> App {
    let p = App { pending_g: false, ..pre };
    let left = if pre.screen is Live {
        App { screen: Screen::List, live_pitch_sel: None, live_atbat_sel: None, live_relay_cursor: None, ..p }
    } else {
        p
    };
    App {
        tab: if pre.tab == Tab::Games {
            Tab::Standings
        } else {
            Tab::Games
        },
        selected: 0,
        ..left
    }
}

/// Down or up: the relay cursor in the live view, the list cursor (clamped)
/// elsewhere.
pub open spec fn vertical_moved(pre: App, down: bool) -> App {
    if pre.live_state() is Some {
        App { pending_g: false, ..App::relay_cursor_moved(pre, down) }
    } else if down {
        App { selected: step_down(pre.selected, pre.list_len()), pending_g: false, ..pre }
    } else {
        App { selected: step_up(pre.selected), pending_g: false, ..pre }
    }
}

/// `g`: a first one waits for a second; `gg` goes to the top (the first
/// relay line in the live view).
pub open spec fn g_pressed(pre: App) -> App {
    if pre.pending_g {
        if pre.live_state() is Some {
            App { pending_g: false, ..App::relay_cursor_jumped(pre, false) }
        } else {
            App { selected: 0, pending_g: false, ..pre }
        }
    } else {
        App { pending_g: true, ..pre }
    }
}

/// `G`: the bottom (the last relay line in the live view).
pub open spec fn shift_g_pressed(pre: App) -> App {
    if pre.live_state() is Some {
        App { pending_g: false, ..App::relay_cursor_jumped(pre, true) }
    } else {
        App {
            selected: if pre.list_len() > 0 {
                (pre.list_len() - 1) as usize
            } else {
                0
            },
            pending_g: false,
            ..pre
        }
    }
}

/// Enter: on the standings list, the stats of the team under the cursor; on
/// the games list, the live view of the game under the cursor unless it is
/// canceled or not started.
pub open spec fn enter_pressed(pre: App) -> App {
    let p = App { pending_g: false, ..pre };
    if pre.tab == Tab::Standings && pre.screen is List {
        App {
            team_stats_rank: if pre.selected < pre.standings@.len() {
                Some(pre.standings@[pre.selected as int].rank)
            } else {
                None
            },
            ..p
        }
    } else if pre.tab == Tab::Games && pre.screen is List && pre.selected < pre.games@.len()
        && crate::app::spec_can_enter_live(pre.games@[pre.selected as int].status) {
        App::entered_live(p, pre.games@[pre.selected as int])
    } else {
        p
    }
}

/// Esc, one step at a time: the pitch and cursor, then the past at-bat
/// (back to the live one), then the live view itself.
pub open spec fn esc_pressed(pre: App) -> App {
    let p = App { pending_g: false, ..pre };
    if pre.live_pitch_sel is Some || pre.live_relay_cursor is Some {
        App { live_pitch_sel: None, live_relay_cursor: None, ..p }
    } else if pre.live_atbat_sel is Some {
        App { live_atbat_sel: None, ..p }
    } else if pre.screen is Live {
        App { screen: Screen::List, ..p }
    } else {
        p
    }
}

/// The state after a key on the list or the live view with no overlay open.
pub open spec fn main_post(pre: App, key: Key) -> App {
    let p = App { pending_g: false, ..pre };
    if key == Key::Char('q') || key == Key::F(10) {
        p
    } else if key == Key::F(1) || key == Key::Char('?') || key == Key::Char('h') {
        App { show_help: true, ..p }
    } else if key == Key::Tab || key == Key::F(5) {
        tab_switched(pre)
    } else if is_down(key) {
        vertical_moved(pre, true)
    } else if is_up(key) {
        vertical_moved(pre, false)
    } else if key == Key::Left || key == Key::Right {
        App { pending_g: false, ..App::pitch_sel_moved(pre, key == Key::Right) }
    } else if key == Key::Char('[') || key == Key::Char(']') {
        App { pending_g: false, ..App::at_bat_stepped(pre, key == Key::Char('[')) }
    } else if key == Key::Char('g') {
        g_pressed(pre)
    } else if key == Key::Char('G') {
        shift_g_pressed(pre)
    } else if key == Key::Enter {
        enter_pressed(pre)
    } else if key == Key::Esc {
        esc_pressed(pre)
    } else if key == Key::Char('n') && pre.news@.len() > 0 {
        App { news_list: Some(NewsListState { cursor: 0 }), ..p }
    } else {
        p
    }
}

/// A key on the list or the live view with no overlay open: `q` and F10
/// quit.
pub open spec fn main_key(pre: App, key: Key, post: App, r: KeyAction) -> bool {
    &&& post == main_post(pre, key)
    &&& r == if key == Key::Char('q') || key == Key::F(10) {
        KeyAction::Quit
    } else {
        KeyAction::Stay
    }
}

/// The state after a key, and what it asks of the loop.
pub open spec fn key_handled(pre: App, key: Key, menus: Menus, post: App, r: KeyAction) -> bool {
    let p = App { pending_g: false, ..pre };
    if pre.show_help {
        post == (App { show_help: false, ..p }) && r == KeyAction::Stay
    } else if pre.options is Some {
        options_key(pre, key, menus, post) && r == KeyAction::Stay
    } else if pre.link_picker is Some {
        picker_key(pre, key, post, r)
    } else if pre.article_view is Some {
        article_key(pre, key, post, r)
    } else if pre.news_list is Some {
        news_list_key(pre, key, post) && r == KeyAction::Stay
    } else if stats_target(pre.standings@, pre.team_stats_rank) is Some {
        (if key == Key::Esc || key == Key::Enter || key == Key::Char('q') {
            post == (App { team_stats_rank: None, ..p })
        } else {
            post == p
        }) && r == KeyAction::Stay
    } else if pre.settings is Some {
        settings_key(pre, key, post, r)
    } else if key == Key::F(9) || key == Key::Char('S') {
        post == (App { settings: Some(SettingsState { cursor: 0, save_failed: false }), ..p }) && r
            == KeyAction::Stay
    } else if key == Key::F(2) {
        post == (App { options: Some(OptionsState { pane: Pane::Date, cursor: 0 }), ..p }) && r
            == KeyAction::Stay
    } else if key == Key::Char('o') {
        (if menus.links@.len() > 0 {
            post == (App { link_picker: post.link_picker, ..p }) && (post.link_picker matches Some(
                lp,
            ) && lp.items@ == menus.links@ && lp.cursor == 0)
        } else {
            post == p
        }) && r == KeyAction::Stay
    } else {
        main_key(pre, key, post, r)
    }
}

/// The state after a mouse event over `zone`. Nothing happens with the
/// mouse off or an overlay open. A click selects a row, and a click on the
/// selected row opens it (as Enter); a click on a tab goes to that tab (and
/// leaves the live view); a click on a relay line puts the cursor there. The
/// wheel steps through pitches over the pitch views and moves up or down
/// (as the arrow keys) elsewhere; nothing happens over an empty spot.
pub open spec fn mouse_handled(pre: App, zone: Option<Zone>, kind: MouseAction, menus: Menus, post: App) -> bool {
    let p = App { pending_g: false, ..pre };
    if !pre.mouse || pre.show_help || pre.options is Some || pre.settings is Some
        || pre.article_view is Some || pre.news_list is Some || pre.link_picker is Some
        || stats_target(pre.standings@, pre.team_stats_rank) is Some {
        post == pre
    } else {
        match (kind, zone) {
            (MouseAction::Click, Some(Zone::Tab(t))) => if pre.tab != t || pre.screen is Live {
                let left = if pre.screen is Live {
                    App { screen: Screen::List, live_pitch_sel: None, live_atbat_sel: None, live_relay_cursor: None, ..p }
                } else {
                    p
                };
                post == (App { tab: t, selected: 0, ..left })
            } else {
                post == p
            },
            (MouseAction::Click, Some(Zone::GameRow(i))) => if pre.selected == i {
                key_handled(p, Key::Enter, menus, post, KeyAction::Stay)
            } else {
                post == (App { selected: i, ..p })
            },
            (MouseAction::Click, Some(Zone::StandingRow(i))) => if pre.selected == i {
                key_handled(p, Key::Enter, menus, post, KeyAction::Stay)
            } else {
                post == (App { selected: i, ..p })
            },
            (MouseAction::Click, Some(Zone::RelayLine(i))) => post == App::relay_cursor_put(p, i),
            (MouseAction::Click, _) => post == p,
            (MouseAction::ScrollUp, Some(Zone::PitchNav)) => key_handled(
                p,
                Key::Left,
                menus,
                post,
                KeyAction::Stay,
            ),
            (MouseAction::ScrollDown, Some(Zone::PitchNav)) => key_handled(
                p,
                Key::Right,
                menus,
                post,
                KeyAction::Stay,
            ),
            (MouseAction::ScrollUp, Some(_)) => key_handled(p, Key::Up, menus, post, KeyAction::Stay),
            (MouseAction::ScrollDown, Some(_)) => key_handled(
                p,
                Key::Down,
                menus,
                post,
                KeyAction::Stay,
            ),
            (_, None) => post == p,
        }
    }
}

fn copy_links(links: &Vec<(String, String)>) -> (r: Vec<(String, String)>)
    ensures
        r@ == links@,
{
    let mut r: Vec<(String, String)> = Vec::new();
    let mut i: usize = 0;
    while i < links.len()
        invariant
            i <= links@.len(),
            r@ == links@.take(i as int),
        decreases links@.len() - i,
    {
        let (a, b) = &links[i];
        r.push((a.clone(), b.clone()));
        i += 1;
        assert(links@.take(i as int) == links@.take(i - 1).push(links@[i - 1]));
    }
    assert(links@.take(i as int) == links@);
    r
}

impl App {
    fn key_options(&mut self, key: Key, menus: &Menus)
        requires
            old(self).options is Some,
        ensures
            options_key(*old(self), key, *menus, *final(self)),
    {
        self.pending_g = false;
        let opt = match self.options {
            Some(o) => o,
            None => return ,
        };
        if key == Key::Esc || key == Key::F(2) {
            self.options = None;
        } else if down_key(key) {
            self.options = Some(OptionsState { cursor: down_in(opt.cursor, menus.dates.len()), ..opt });
        } else if up_key(key) {
            self.options = Some(OptionsState { cursor: up_from(opt.cursor), ..opt });
        } else if key == Key::Enter {
            self.apply_option(menus);
        }
    }

    /// Enter in the date picker: closes it and moves to the date under its
    /// cursor.
    fn apply_option(&mut self, menus: &Menus)
        requires
            old(self).options is Some,
        ensures
            date_picked(*old(self), *menus, *final(self)),
    {
        let opt = match self.options {
            Some(o) => o,
            None => return ,
        };
        self.options = None;
        if opt.cursor < menus.dates.len() && menus.dates[opt.cursor] != self.date {
            self.date = menus.dates[opt.cursor].clone();
            self.games_loaded = false;
            self.games.clear();
            self.selected = 0;
            self.live_pitch_sel = None;
            self.live_atbat_sel = None;
            self.live_relay_cursor = None;
            self.screen = Screen::List;
        }
    }

    fn key_picker(&mut self, key: Key) -> (r: KeyAction)
        requires
            old(self).link_picker is Some,
        ensures
            picker_key(*old(self), key, *final(self), r),
    {
        self.pending_g = false;
        if key == Key::Esc || key == Key::Char('o') {
            self.link_picker = None;
            KeyAction::Stay
        } else if down_key(key) {
            if let Some(lp) = &mut self.link_picker {
                lp.cursor = down_in(lp.cursor, lp.items.len());
            }
            KeyAction::Stay
        } else if up_key(key) {
            if let Some(lp) = &mut self.link_picker {
                lp.cursor = up_from(lp.cursor);
            }
            KeyAction::Stay
        } else if key == Key::Enter {
            let r = match &self.link_picker {
                Some(lp) => if lp.cursor < lp.items.len() {
                    KeyAction::Open(lp.items[lp.cursor].1.clone())
                } else {
                    KeyAction::Stay
                },
                None => KeyAction::Stay,
            };
            self.link_picker = None;
            r
        } else {
            KeyAction::Stay
        }
    }

    fn key_article(&mut self, key: Key) -> (r: KeyAction)
        requires
            old(self).article_view is Some,
        ensures
            article_key(*old(self), key, *final(self), r),
    {
        self.pending_g = false;
        if key == Key::Esc || key == Key::Char('n') || key == Key::Char('q') {
            self.article_view = None;
            return KeyAction::Stay;
        }
        let mut r = KeyAction::Stay;
        if let Some(v) = &mut self.article_view {
            if down_key(key) {
                v.scroll = v.scroll.saturating_add(1);
            } else if up_key(key) {
                v.scroll = v.scroll.saturating_sub(1);
            } else if key == Key::PageDown {
                v.scroll = v.scroll.saturating_add(10);
            } else if key == Key::PageUp {
                v.scroll = v.scroll.saturating_sub(10);
            } else if (key == Key::Char('o') || key == Key::Enter) && !v.item.url.as_str().is_empty() {
                r = KeyAction::Open(v.item.url.clone());
            }
        }
        r
    }

    fn key_news_list(&mut self, key: Key)
        requires
            old(self).news_list is Some,
        ensures
            news_list_key(*old(self), key, *final(self)),
    {
        self.pending_g = false;
        let nl = match self.news_list {
            Some(n) => n,
            None => return ,
        };
        if key == Key::Esc || key == Key::Char('n') || key == Key::Char('q') {
            self.news_list = None;
        } else if down_key(key) {
            self.news_list = Some(NewsListState { cursor: down_in(nl.cursor, self.news.len()) });
        } else if up_key(key) {
            self.news_list = Some(NewsListState { cursor: up_from(nl.cursor) });
        } else if key == Key::Enter && nl.cursor < self.news.len() {
            let item: NewsItem = self.news[nl.cursor].clone();
            self.article_view = Some(ArticleView { item, scroll: 0 });
        }
    }

    fn settings_step(&mut self, cursor: usize, forward: bool) -> (r: KeyAction)
        requires
            old(self).settings matches Some(st) && st.cursor == cursor,
        ensures
            ({
                let st = old(self).settings->0;
                let changed = App { settings: old(self).settings, pending_g: old(self).pending_g, ..*final(self) };
                &&& setting_changed(*old(self), changed, cursor, forward)
                &&& !final(self).pending_g
                &&& if old(self).config_error is Some {
                    final(self).settings == Some(SettingsState { save_failed: true, ..st }) && r
                        == KeyAction::Stay
                } else {
                    final(self).settings == old(self).settings && (r matches KeyAction::Save(c)
                        && persisted(c, changed))
                }
            }),
    {
        self.change_setting(cursor, forward);
        let r = match self.persist() {
            Some(c) => KeyAction::Save(c),
            None => KeyAction::Stay,
        };
        self.pending_g = false;
        r
    }

    fn key_settings(&mut self, key: Key) -> (r: KeyAction)
        requires
            old(self).settings is Some,
        ensures
            settings_key(*old(self), key, *final(self), r),
    {
        let st = match self.settings {
            Some(s) => s,
            None => return KeyAction::Stay,
        };
        if key == Key::Esc || key == Key::F(9) || key == Key::Char('q') {
            self.pending_g = false;
            self.settings = None;
            KeyAction::Stay
        } else if down_key(key) {
            self.pending_g = false;
            self.settings = Some(SettingsState { cursor: down_in(st.cursor, 6), ..st });
            KeyAction::Stay
        } else if up_key(key) {
            self.pending_g = false;
            self.settings = Some(SettingsState { cursor: up_from(st.cursor), ..st });
            KeyAction::Stay
        } else if key == Key::Left || key == Key::Right || key == Key::Enter {
            self.settings_step(st.cursor, key != Key::Left)
        } else {
            self.pending_g = false;
            KeyAction::Stay
        }
    }

    fn key_tab(&mut self)
        ensures
            *final(self) == tab_switched(*old(self)),
    {
        if matches!(self.screen, Screen::Live { .. }) {
            self.screen = Screen::List;
            self.live_pitch_sel = None;
            self.live_atbat_sel = None;
            self.live_relay_cursor = None;
        }
        self.tab = match self.tab {
            Tab::Games => Tab::Standings,
            Tab::Standings => Tab::Games,
        };
        self.selected = 0;
        self.pending_g = false;
    }

    fn key_vertical(&mut self, down: bool)
        ensures
            *final(self) == vertical_moved(*old(self), down),
    {
        if self.is_live_screen() {
            self.move_relay_cursor(down);
        } else if down {
            let len = self.current_len();
            self.selected = down_in(self.selected, len);
        } else {
            self.selected = up_from(self.selected);
        }
        self.pending_g = false;
    }

    fn key_g(&mut self)
        ensures
            *final(self) == g_pressed(*old(self)),
    {
        if self.pending_g {
            if self.is_live_screen() {
                self.jump_relay_cursor(false);
            } else {
                self.selected = 0;
            }
            self.pending_g = false;
        } else {
            self.pending_g = true;
        }
    }

    fn key_shift_g(&mut self)
        ensures
            *final(self) == shift_g_pressed(*old(self)),
    {
        if self.is_live_screen() {
            self.jump_relay_cursor(true);
        } else {
            let len = self.current_len();
            self.selected = if len > 0 {
                len - 1
            } else {
                0
            };
        }
        self.pending_g = false;
    }

    fn key_enter(&mut self)
        ensures
            *final(self) == enter_pressed(*old(self)),
    {
        self.pending_g = false;
        if self.tab == Tab::Standings && matches!(self.screen, Screen::List) {
            self.team_stats_rank = if self.selected < self.standings.len() {
                Some(self.standings[self.selected].rank)
            } else {
                None
            };
        } else if self.tab == Tab::Games && matches!(self.screen, Screen::List) && self.selected
            < self.games.len() && App::can_enter_live(self.games[self.selected].status) {
            let g = self.games[self.selected].clone();
            self.enter_live(g);
        }
    }

    fn key_esc(&mut self)
        ensures
            *final(self) == esc_pressed(*old(self)),
    {
        self.pending_g = false;
        if self.live_pitch_sel.is_some() || self.live_relay_cursor.is_some() {
            self.live_pitch_sel = None;
            self.live_relay_cursor = None;
        } else if self.live_atbat_sel.is_some() {
            self.live_atbat_sel = None;
        } else if matches!(self.screen, Screen::Live { .. }) {
            self.screen = Screen::List;
        }
    }

    fn key_main(&mut self, key: Key) -> (r: KeyAction)
        ensures
            main_key(*old(self), key, *final(self), r),
    {
        if key == Key::Char('q') || key == Key::F(10) {
            self.pending_g = false;
            return KeyAction::Quit;
        }
        if key == Key::F(1) || key == Key::Char('?') || key == Key::Char('h') {
            self.show_help = true;
            self.pending_g = false;
        } else if key == Key::Tab || key == Key::F(5) {
            self.key_tab();
        } else if down_key(key) {
            self.key_vertical(true);
        } else if up_key(key) {
            self.key_vertical(false);
        } else if key == Key::Left || key == Key::Right {
            self.move_pitch_sel(key == Key::Right);
            self.pending_g = false;
        } else if key == Key::Char('[') || key == Key::Char(']') {
            self.step_at_bat(key == Key::Char('['));
            self.pending_g = false;
        } else if key == Key::Char('g') {
            self.key_g();
        } else if key == Key::Char('G') {
            self.key_shift_g();
        } else if key == Key::Enter {
            self.key_enter();
        } else if key == Key::Esc {
            self.key_esc();
        } else if key == Key::Char('n') && self.news.len() > 0 {
            self.news_list = Some(NewsListState { cursor: 0 });
            self.pending_g = false;
        } else {
            self.pending_g = false;
        }
        KeyAction::Stay
    }

    /// Handles a key (see `key_handled`); `menus` holds what the drawing
    /// side offers in this frame.
    pub fn on_key(&mut self, key: Key, menus: &Menus) -> (r: KeyAction)
        ensures
            key_handled(*old(self), key, *menus, *final(self), r),
    {
        if self.show_help {
            self.show_help = false;
            self.pending_g = false;
            return KeyAction::Stay;
        }
        if self.options.is_some() {
            self.key_options(key, menus);
            return KeyAction::Stay;
        }
        if self.link_picker.is_some() {
            return self.key_picker(key);
        }
        if self.article_view.is_some() {
            return self.key_article(key);
        }
        if self.news_list.is_some() {
            self.key_news_list(key);
            return KeyAction::Stay;
        }
        if self.team_stats_target().is_some() {
            if key == Key::Esc || key == Key::Enter || key == Key::Char('q') {
                self.team_stats_rank = None;
            }
            self.pending_g = false;
            return KeyAction::Stay;
        }
        if self.settings.is_some() {
            return self.key_settings(key);
        }
        if key == Key::F(9) || key == Key::Char('S') {
            self.settings = Some(SettingsState { cursor: 0, save_failed: false });
            self.pending_g = false;
            return KeyAction::Stay;
        }
        if key == Key::F(2) {
            self.options = Some(OptionsState { pane: Pane::Date, cursor: 0 });
            self.pending_g = false;
            return KeyAction::Stay;
        }
        if key == Key::Char('o') {
            if menus.links.len() > 0 {
                self.link_picker = Some(LinkPickerState { items: copy_links(&menus.links), cursor: 0 });
            }
            self.pending_g = false;
            return KeyAction::Stay;
        }
        self.key_main(key)
    }

    /// Handles a mouse event over `zone` (see `mouse_handled`).
    pub fn on_mouse(&mut self, zone: Option<Zone>, kind: MouseAction, menus: &Menus)
        ensures
            mouse_handled(*old(self), zone, kind, *menus, *final(self)),
    {
        if !self.mouse {
            return ;
        }
        if self.show_help || self.options.is_some() || self.settings.is_some()
            || self.article_view.is_some() || self.news_list.is_some() || self.link_picker.is_some()
            || self.team_stats_target().is_some() {
            return ;
        }
        self.pending_g = false;
        match (kind, zone) {
            (MouseAction::Click, Some(Zone::Tab(t))) => {
                if self.tab != t || matches!(self.screen, Screen::Live { .. }) {
                    if matches!(self.screen, Screen::Live { .. }) {
                        self.screen = Screen::List;
                        self.live_pitch_sel = None;
                        self.live_atbat_sel = None;
                        self.live_relay_cursor = None;
                    }
                    self.tab = t;
                    self.selected = 0;
                }
            },
            (MouseAction::Click, Some(Zone::GameRow(i))) => {
                if self.selected == i {
                    self.on_key(Key::Enter, menus);
                } else {
                    self.selected = i;
                }
            },
            (MouseAction::Click, Some(Zone::StandingRow(i))) => {
                if self.selected == i {
                    self.on_key(Key::Enter, menus);
                } else {
                    self.selected = i;
                }
            },
            (MouseAction::Click, Some(Zone::RelayLine(i))) => self.put_relay_cursor(i),
            (MouseAction::Click, _) => {},
            (MouseAction::ScrollUp, Some(Zone::PitchNav)) => {
                self.on_key(Key::Left, menus);
            },
            (MouseAction::ScrollDown, Some(Zone::PitchNav)) => {
                self.on_key(Key::Right, menus);
            },
            (MouseAction::ScrollUp, Some(_)) => {
                self.on_key(Key::Up, menus);
            },
            (MouseAction::ScrollDown, Some(_)) => {
                self.on_key(Key::Down, menus);
            },
            (_, None) => {},
        }
    }
}

} // verus!
