//! The settings screen: its rows, how a row's value steps through its
//! choices, and the settings written back after a change.
use vstd::prelude::*;
use crate::app::{App, RowValue, SettingKind, SettingsState};
use crate::config::{Config, ThemeConfig};
use crate::launch::{lang_code, opt_string_view, Lang};
use crate::strutil::{chars_of, str_eq};

verus! {

/// The rows of the settings screen, top to bottom.
pub open spec fn setting_kind_at(cursor: int) -> Option<SettingKind> {
    if cursor == 0 {
        Some(SettingKind::Team)
    } else if cursor == 1 {
        Some(SettingKind::Poll)
    } else if cursor == 2 {
        Some(SettingKind::ThemePreset)
    } else if cursor == 3 {
        Some(SettingKind::ThemeAccent)
    } else if cursor == 4 {
        Some(SettingKind::Lang)
    } else if cursor == 5 {
        Some(SettingKind::Mouse)
    } else {
        None
    }
}

/// One step forward or back through `n` choices, wrapping around.
pub open spec fn cycle_index(cur: int, n: int, forward: bool) -> int {
    if forward {
        (cur + 1) % n
    } else {
        (cur + n - 1) % n
    }
}

/// The favorite-team choices: none, then the ten clubs by KBO code.
pub open spec fn team_choice(i: int) -> Option<Seq<char>> {
    if i == 1 {
        Some("LG"@)
    } else if i == 2 {
        Some("KT"@)
    } else if i == 3 {
        Some("SK"@)
    } else if i == 4 {
        Some("NC"@)
    } else if i == 5 {
        Some("HT"@)
    } else if i == 6 {
        Some("LT"@)
    } else if i == 7 {
        Some("SS"@)
    } else if i == 8 {
        Some("HH"@)
    } else if i == 9 {
        Some("WO"@)
    } else if i == 10 {
        Some("OB"@)
    } else {
        None
    }
}

pub const TEAM_CHOICES: usize = 11;

/// The position of a favorite team among the choices; an unknown code
/// counts as the first choice.
pub open spec fn team_position(fav: Option<Seq<char>>) -> int {
    match fav {
        None => 0,
        Some(c) => if c == "LG"@ {
            1
        } else if c == "KT"@ {
            2
        } else if c == "SK"@ {
            3
        } else if c == "NC"@ {
            4
        } else if c == "HT"@ {
            5
        } else if c == "LT"@ {
            6
        } else if c == "SS"@ {
            7
        } else if c == "HH"@ {
            8
        } else if c == "WO"@ {
            9
        } else if c == "OB"@ {
            10
        } else {
            0
        },
    }
}

/// The live poll intervals offered, in seconds.
pub open spec fn poll_choice_at(i: int) -> u64 {
    if i == 0 {
        3
    } else if i == 1 {
        5
    } else if i == 2 {
        10
    } else {
        30
    }
}

/// The position of an interval among the choices; any other counts as five
/// seconds.
pub open spec fn poll_position(secs: u64) -> int {
    if secs == 3 {
        0
    } else if secs == 5 {
        1
    } else if secs == 10 {
        2
    } else if secs == 30 {
        3
    } else {
        1
    }
}

pub open spec fn preset_at(i: int) -> Seq<char> {
    if i == 1 {
        "high-contrast"@
    } else if i == 2 {
        "mono"@
    } else {
        "default"@
    }
}

/// The position of a theme preset; an unknown one counts as `default`.
pub open spec fn preset_position(p: Seq<char>) -> int {
    if p == "default"@ {
        0
    } else if p == "high-contrast"@ {
        1
    } else if p == "mono"@ {
        2
    } else {
        0
    }
}

pub open spec fn accent_at(i: int) -> Seq<char> {
    if i == 1 {
        "cyan"@
    } else if i == 2 {
        "green"@
    } else if i == 3 {
        "yellow"@
    } else if i == 4 {
        "magenta"@
    } else if i == 5 {
        "blue"@
    } else if i == 6 {
        "red"@
    } else if i == 7 {
        "none"@
    } else {
        "team"@
    }
}

/// The position of an accent source; an unknown one counts as `team`.
pub open spec fn accent_position(a: Seq<char>) -> int {
    if a == "team"@ {
        0
    } else if a == "cyan"@ {
        1
    } else if a == "green"@ {
        2
    } else if a == "yellow"@ {
        3
    } else if a == "magenta"@ {
        4
    } else if a == "blue"@ {
        5
    } else if a == "red"@ {
        6
    } else if a == "none"@ {
        7
    } else {
        0
    }
}

pub open spec fn lang_at(i: int) -> Lang {
    if i == 1 {
        Lang::En
    } else if i == 2 {
        Lang::Ja
    } else {
        Lang::Ko
    }
}

pub open spec fn lang_position(l: Lang) -> int {
    match l {
        Lang::Ko => 0,
        Lang::En => 1,
        Lang::Ja => 2,
    }
}

/// The state after stepping the row at `cursor` forward (→, Enter) or back
/// (←): the row's value moves to the next or previous choice, wrapping; the
/// mouse row flips either way; a cursor past the rows changes nothing.
pub open spec fn setting_changed(pre: App, post: App, cursor: usize, forward: bool) -> bool {
    match setting_kind_at(cursor as int) {
        None => post == pre,
        Some(SettingKind::Team) => post == (App { fav_code: post.fav_code, ..pre }) && opt_string_view(
            post.fav_code,
        ) == team_choice(
            cycle_index(team_position(opt_string_view(pre.fav_code)), TEAM_CHOICES as int, forward),
        ),
        Some(SettingKind::Poll) => post == (App {
            poll_choice: poll_choice_at(cycle_index(poll_position(pre.poll_choice), 4, forward)),
            ..pre
        }),
        Some(SettingKind::ThemePreset) => post == (App { theme_preset: post.theme_preset, ..pre })
            && post.theme_preset@ == preset_at(
            cycle_index(preset_position(pre.theme_preset@), 3, forward),
        ),
        Some(SettingKind::ThemeAccent) => post == (App { theme_accent: post.theme_accent, ..pre })
            && post.theme_accent@ == accent_at(
            cycle_index(accent_position(pre.theme_accent@), 8, forward),
        ),
        Some(SettingKind::Lang) => post == (App {
            lang: lang_at(cycle_index(lang_position(pre.lang), 3, forward)),
            ..pre
        }),
        Some(SettingKind::Mouse) => post == (App { mouse: !pre.mouse, ..pre }),
    }
}

/// The settings to write: the favorite team, poll interval, language code,
/// mouse and theme as shown, the time zone as the file had it.
pub open spec fn persisted(c: Config, a: App) -> bool {
    &&& c.favorite_team == a.fav_code
    &&& c.poll_secs == a.poll_choice
    &&& opt_string_view(c.lang) == Some(
        match a.lang {
            Lang::Ko => "ko"@,
            Lang::En => "en"@,
            Lang::Ja => "ja"@,
        },
    )
    &&& c.timezone == a.config.timezone
    &&& c.mouse == a.mouse
    &&& c.theme.preset == a.theme_preset
    &&& c.theme.accent == a.theme_accent
}

/// The settings screen with its last save marked as failed (or as not).
pub open spec fn save_marked(pre: App, failed: bool) -> App {
    App {
        settings: match pre.settings {
            Some(st) => Some(SettingsState { save_failed: failed, ..st }),
            None => None,
        },
        ..pre
    }
}

fn cycle(cur: usize, n: usize, forward: bool) -> (r: usize)
    requires
        0 < n <= 16,
        cur < n,
    ensures
        r == cycle_index(cur as int, n as int, forward),
        r < n,
{
    if forward {
        (cur + 1) % n
    } else {
        (cur + n - 1) % n
    }
}

fn team_choice_exec(i: usize) -> (r: Option<&'static str>)
    ensures
        match team_choice(i as int) {
            Some(c) => r matches Some(s) && s@ == c,
            None => r is None,
        },
{
    if i == 1 {
        Some("LG")
    } else if i == 2 {
        Some("KT")
    } else if i == 3 {
        Some("SK")
    } else if i == 4 {
        Some("NC")
    } else if i == 5 {
        Some("HT")
    } else if i == 6 {
        Some("LT")
    } else if i == 7 {
        Some("SS")
    } else if i == 8 {
        Some("HH")
    } else if i == 9 {
        Some("WO")
    } else if i == 10 {
        Some("OB")
    } else {
        None
    }
}

fn team_position_exec(fav: &Option<String>) -> (r: usize)
    ensures
        r == team_position(opt_string_view(*fav)),
        r < TEAM_CHOICES,
{
    match fav {
        None => 0,
        Some(c) => {
            let c = c.as_str();
            if str_eq(c, "LG") {
                1
            } else if str_eq(c, "KT") {
                2
            } else if str_eq(c, "SK") {
                3
            } else if str_eq(c, "NC") {
                4
            } else if str_eq(c, "HT") {
                5
            } else if str_eq(c, "LT") {
                6
            } else if str_eq(c, "SS") {
                7
            } else if str_eq(c, "HH") {
                8
            } else if str_eq(c, "WO") {
                9
            } else if str_eq(c, "OB") {
                10
            } else {
                0
            }
        },
    }
}

fn poll_position_exec(secs: u64) -> (r: usize)
    ensures
        r == poll_position(secs),
        r < 4,
{
    if secs == 3 {
        0
    } else if secs == 5 {
        1
    } else if secs == 10 {
        2
    } else if secs == 30 {
        3
    } else {
        1
    }
}

fn poll_choice_exec(i: usize) -> (r: u64)
    ensures
        r == poll_choice_at(i as int),
{
    if i == 0 {
        3
    } else if i == 1 {
        5
    } else if i == 2 {
        10
    } else {
        30
    }
}

fn preset_position_exec(p: &str) -> (r: usize)
    ensures
        r == preset_position(p@),
        r < 3,
{
    if str_eq(p, "default") {
        0
    } else if str_eq(p, "high-contrast") {
        1
    } else if str_eq(p, "mono") {
        2
    } else {
        0
    }
}

fn preset_exec(i: usize) -> (r: &'static str)
    ensures
        r@ == preset_at(i as int),
{
    if i == 1 {
        "high-contrast"
    } else if i == 2 {
        "mono"
    } else {
        "default"
    }
}

fn accent_position_exec(a: &str) -> (r: usize)
    ensures
        r == accent_position(a@),
        r < 8,
{
    if str_eq(a, "team") {
        0
    } else if str_eq(a, "cyan") {
        1
    } else if str_eq(a, "green") {
        2
    } else if str_eq(a, "yellow") {
        3
    } else if str_eq(a, "magenta") {
        4
    } else if str_eq(a, "blue") {
        5
    } else if str_eq(a, "red") {
        6
    } else if str_eq(a, "none") {
        7
    } else {
        0
    }
}

fn accent_exec(i: usize) -> (r: &'static str)
    ensures
        r@ == accent_at(i as int),
{
    if i == 1 {
        "cyan"
    } else if i == 2 {
        "green"
    } else if i == 3 {
        "yellow"
    } else if i == 4 {
        "magenta"
    } else if i == 5 {
        "blue"
    } else if i == 6 {
        "red"
    } else if i == 7 {
        "none"
    } else {
        "team"
    }
}

fn lang_exec(i: usize) -> (r: Lang)
    ensures
        r == lang_at(i as int),
{
    if i == 1 {
        Lang::En
    } else if i == 2 {
        Lang::Ja
    } else {
        Lang::Ko
    }
}

fn lang_position_exec(l: Lang) -> (r: usize)
    ensures
        r == lang_position(l),
        r < 3,
{
    match l {
        Lang::Ko => 0,
        Lang::En => 1,
        Lang::Ja => 2,
    }
}

fn setting_kind_exec(cursor: usize) -> (r: Option<SettingKind>)
    ensures
        r == setting_kind_at(cursor as int),
{
    if cursor == 0 {
        Some(SettingKind::Team)
    } else if cursor == 1 {
        Some(SettingKind::Poll)
    } else if cursor == 2 {
        Some(SettingKind::ThemePreset)
    } else if cursor == 3 {
        Some(SettingKind::ThemeAccent)
    } else if cursor == 4 {
        Some(SettingKind::Lang)
    } else if cursor == 5 {
        Some(SettingKind::Mouse)
    } else {
        None
    }
}

fn clone_opt_string(s: &Option<String>) -> (r: Option<String>)
    ensures
        r == *s,
{
    match s {
        Some(t) => Some(t.clone()),
        None => None,
    }
}

/// `#rrggbb`: a hash and six hexadecimal digits, the color form an accent
/// may take besides the named sources.
pub open spec fn is_hex_color_text(s: Seq<char>) -> bool {
    &&& s.len() == 7
    &&& s[0] == '#'
    &&& forall|i: int| 1 <= i < 7 ==> is_hex_digit(#[trigger] s[i])
}

pub open spec fn is_hex_digit(c: char) -> bool {
    ('0' <= c && c <= '9') || ('a' <= c && c <= 'f') || ('A' <= c && c <= 'F')
}

pub fn is_hex_color(s: &str) -> (b: bool)
    ensures
        b == is_hex_color_text(s@),
{
    let v = chars_of(s);
    if v.len() != 7 || v[0] != '#' {
        return false;
    }
    let mut i: usize = 1;
    while i < 7
        invariant
            v@ == s@,
            v@.len() == 7,
            1 <= i <= 7,
            forall|j: int| 1 <= j < i ==> is_hex_digit(#[trigger] v@[j]),
        decreases 7 - i,
    {
        let c = v[i];
        if !(('0' <= c && c <= '9') || ('a' <= c && c <= 'f') || ('A' <= c && c <= 'F')) {
            return false;
        }
        i += 1;
    }
    true
}

/// What row `kind` shows for the state `a`:
/// - the team: the "none" label without one, the club's name for one of the
///   choices, the code itself for an unknown one;
/// - the poll interval in seconds;
/// - the preset's name (an unknown preset shows as `default`);
/// - the accent: a named source by its name, a `#rrggbb` color as it is,
///   and the team's colors for `team` and any other value;
/// - the language; the mouse switch.
pub open spec fn shows(v: RowValue, kind: SettingKind, a: App) -> bool {
    match kind {
        SettingKind::Team => match a.fav_code {
            None => v is NoTeam,
            Some(c) => if team_position(Some(c@)) > 0 {
                v matches RowValue::TeamName(n) && n@ == c@
            } else {
                v matches RowValue::Text(t) && t@ == c@
            },
        },
        SettingKind::Poll => v == RowValue::Seconds(a.poll_choice),
        SettingKind::ThemePreset => v matches RowValue::Preset(p) && p@ == preset_at(
            preset_position(a.theme_preset@),
        ),
        SettingKind::ThemeAccent => if accent_position(a.theme_accent@) > 0 {
            v matches RowValue::AccentName(n) && n@ == a.theme_accent@
        } else if is_hex_color_text(a.theme_accent@) {
            v matches RowValue::Text(t) && t@ == a.theme_accent@
        } else {
            v is AccentTeam
        },
        SettingKind::Lang => v == RowValue::Language(a.lang),
        SettingKind::Mouse => v == RowValue::OnOff(a.mouse),
    }
}

impl App {
    /// The rows of the settings screen, top to bottom: each row's kind and
    /// what it shows (see `shows`).
    pub fn settings_rows(&self) -> (r: Vec<(SettingKind, RowValue)>)
        ensures
            r@.len() == 6,
            forall|i: int|
                0 <= i < 6 ==> setting_kind_at(i) == Some(#[trigger] r@[i].0) && shows(
                    r@[i].1,
                    r@[i].0,
                    *self,
                ),
    {
        let mut r: Vec<(SettingKind, RowValue)> = Vec::new();
        r.push((SettingKind::Team, self.team_value()));
        r.push((SettingKind::Poll, RowValue::Seconds(self.poll_choice)));
        let p = preset_exec(preset_position_exec(self.theme_preset.as_str()));
        r.push((SettingKind::ThemePreset, RowValue::Preset(p.to_string())));
        r.push((SettingKind::ThemeAccent, self.accent_value()));
        r.push((SettingKind::Lang, RowValue::Language(self.lang)));
        r.push((SettingKind::Mouse, RowValue::OnOff(self.mouse)));
        proof {
            assert(setting_kind_at(0) == Some(r@[0].0));
            assert(setting_kind_at(1) == Some(r@[1].0));
            assert(setting_kind_at(2) == Some(r@[2].0));
            assert(setting_kind_at(3) == Some(r@[3].0));
            assert(setting_kind_at(4) == Some(r@[4].0));
            assert(setting_kind_at(5) == Some(r@[5].0));
        }
        r
    }

    fn team_value(&self) -> (v: RowValue)
        ensures
            shows(v, SettingKind::Team, *self),
    {
        match &self.fav_code {
            None => RowValue::NoTeam,
            Some(c) => {
                if team_position_exec(&self.fav_code) > 0 {
                    RowValue::TeamName(c.clone())
                } else {
                    RowValue::Text(c.clone())
                }
            },
        }
    }

    fn accent_value(&self) -> (v: RowValue)
        ensures
            shows(v, SettingKind::ThemeAccent, *self),
    {
        let a = self.theme_accent.as_str();
        if accent_position_exec(a) > 0 {
            RowValue::AccentName(a.to_string())
        } else if is_hex_color(a) {
            RowValue::Text(a.to_string())
        } else {
            RowValue::AccentTeam
        }
    }

    /// Steps the row at `cursor` (see `setting_changed`); saving is the
    /// caller's.
    pub fn change_setting(&mut self, cursor: usize, forward: bool)
        ensures
            setting_changed(*old(self), *final(self), cursor, forward),
    {
        broadcast use vstd::string::group_string_axioms;

        let kind = match setting_kind_exec(cursor) {
            Some(k) => k,
            None => return ,
        };
        match kind {
            SettingKind::Team => {
                let cur = team_position_exec(&self.fav_code);
                let next = cycle(cur, TEAM_CHOICES, forward);
                self.fav_code = match team_choice_exec(next) {
                    Some(c) => Some(c.to_string()),
                    None => None,
                };
            },
            SettingKind::Poll => {
                let cur = poll_position_exec(self.poll_choice);
                let next = cycle(cur, 4, forward);
                self.poll_choice = poll_choice_exec(next);
            },
            SettingKind::ThemePreset => {
                let cur = preset_position_exec(self.theme_preset.as_str());
                let next = cycle(cur, 3, forward);
                self.theme_preset = preset_exec(next).to_string();
            },
            SettingKind::ThemeAccent => {
                let cur = accent_position_exec(self.theme_accent.as_str());
                let next = cycle(cur, 8, forward);
                self.theme_accent = accent_exec(next).to_string();
            },
            SettingKind::Lang => {
                let cur = lang_position_exec(self.lang);
                let next = cycle(cur, 3, forward);
                self.lang = lang_exec(next);
            },
            SettingKind::Mouse => {
                self.mouse = !self.mouse;
            },
        }
    }

    /// The settings to write after a change. A settings file that could not
    /// be read is never overwritten: then nothing is returned and the screen
    /// shows the save as failed.
    pub fn persist(&mut self) -> (r: Option<Config>)
        ensures
            old(self).config_error is Some ==> r is None && *final(self) == save_marked(
                *old(self),
                true,
            ),
            old(self).config_error is None ==> *final(self) == *old(self) && (r matches Some(c)
                && persisted(c, *old(self))),
    {
        broadcast use vstd::string::group_string_axioms;

        if self.config_error.is_some() {
            if let Some(st) = &mut self.settings {
                st.save_failed = true;
            }
            return None;
        }
        Some(
            Config {
                favorite_team: clone_opt_string(&self.fav_code),
                poll_secs: self.poll_choice,
                lang: Some(lang_code(self.lang).to_string()),
                timezone: clone_opt_string(&self.config.timezone),
                mouse: self.mouse,
                theme: ThemeConfig {
                    preset: self.theme_preset.clone(),
                    accent: self.theme_accent.clone(),
                },
            },
        )
    }

    /// Records whether writing the settings worked.
    pub fn record_save(&mut self, ok: bool)
        ensures
            *final(self) == save_marked(*old(self), !ok),
    {
        if let Some(st) = &mut self.settings {
            st.save_failed = !ok;
        }
    }
}

} // verus!
