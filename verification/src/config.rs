//! User settings and how they are written back into an existing TOML file
//! without losing keys the app does not know.
use vstd::prelude::*;
use crate::error::Error;

verus! {

#[derive(Debug, PartialEq)]
pub struct Config {
    pub favorite_team: Option<String>,
    pub poll_secs: u64,
    pub lang: Option<String>,
    /// Display time zone: `auto`, `kst` or an offset such as `+09:00`.
    pub timezone: Option<String>,
    pub theme: ThemeConfig,
    /// Whether the app captures the mouse (off gives the terminal its
    /// selection back); off unless the user turns it on.
    pub mouse: bool,
}

/// Theme: the preset (how much color) and where the accent color comes from.
#[derive(Debug, PartialEq)]
pub struct ThemeConfig {
    pub preset: String,
    pub accent: String,
}

fn clone_opt(s: &Option<String>) -> (r: Option<String>)
    ensures
        r == *s,
{
    match s {
        Some(t) => Some(t.clone()),
        None => None,
    }
}

impl Clone for ThemeConfig {
    fn clone(&self) -> (r: Self)
        ensures
            r == *self,
    {
        ThemeConfig { preset: self.preset.clone(), accent: self.accent.clone() }
    }
}

impl Clone for Config {
    fn clone(&self) -> (r: Self)
        ensures
            r == *self,
    {
        Config {
            favorite_team: clone_opt(&self.favorite_team),
            poll_secs: self.poll_secs,
            lang: clone_opt(&self.lang),
            timezone: clone_opt(&self.timezone),
            theme: self.theme.clone(),
            mouse: self.mouse,
        }
    }
}

impl Default for ThemeConfig {
    fn default() -> (r: Self)
        ensures
            r.preset@ == "default"@,
            r.accent@ == "team"@,
    {
        broadcast use vstd::string::group_string_axioms;
        ThemeConfig { preset: "default".to_string(), accent: "team".to_string() }
    }
}

impl Default for Config {
    fn default() -> (r: Self)
        ensures
            r.favorite_team is None,
            r.poll_secs == 5,
            r.lang is None,
            r.timezone is None,
            r.theme.preset@ == "default"@,
            r.theme.accent@ == "team"@,
            !r.mouse,
    {
        Config {
            favorite_team: None,
            poll_secs: 5,
            lang: None,
            timezone: None,
            theme: ThemeConfig::default(),
            mouse: false,
        }
    }
}

impl Config {
    /// The live poll interval, never under three seconds.
    pub fn effective_poll_secs(&self) -> (r: u64)
        ensures
            r == if self.poll_secs < 3 { 3 } else { self.poll_secs },
    {
        if self.poll_secs < 3 {
            3
        } else {
            self.poll_secs
        }
    }
}

/// The lock file beside a settings file: its path with `.lock` appended.
pub fn lock_path_for(config_path: &str) -> (r: String)
    ensures
        r@ == config_path@ + ".lock"@,
{
    crate::error::concat_text(config_path, ".lock")
}

/// A lock file older than this (seconds) is a crash's leftover and is taken
/// over; a save takes milliseconds.
pub const LOCK_STALE_SECS: u64 = 10;
/// How many times taking the lock is tried.
pub const LOCK_MAX_ATTEMPTS: u32 = 8;

/// Whether a lock file of age `age_secs` is stale. An age that cannot be read
/// (another process may have just removed the file) is not taken as stale.
pub fn lock_is_stale(age_secs: Option<u64>) -> (b: bool)
    ensures
        b == (age_secs matches Some(a) && a > LOCK_STALE_SECS),
{
    match age_secs {
        Some(a) => a > LOCK_STALE_SECS,
        None => false,
    }
}

/// What creating the lock file gave.
#[derive(Debug, Clone, Copy, PartialEq, Eq, Structural)]
pub enum LockAttempt {
    Created,
    /// Another save holds the lock; `stale` tells whether it is a leftover.
    Held { stale: bool },
    /// The file cannot be created at all (permissions and the like).
    Failed,
}

/// What to do after an attempt; `retry` tells whether another attempt follows.
#[derive(Debug, Clone, Copy, PartialEq, Eq, Structural)]
pub enum LockStep {
    Acquired,
    /// Remove the leftover lock (then try again at once, if `retry`).
    RemoveStale { retry: bool },
    /// Wait a little (then try again, if `retry`).
    Wait { retry: bool },
    GiveUp,
}

/// The decision after attempt number `attempt` (from 1): a lock is taken
/// when created; a stale one is removed, a live one waited for, and another
/// attempt follows unless this was the last; nothing helps a file that
/// cannot be created.
pub open spec fn spec_lock_step(attempt: u32, outcome: LockAttempt) -> LockStep {
    match outcome {
        LockAttempt::Created => LockStep::Acquired,
        LockAttempt::Failed => LockStep::GiveUp,
        LockAttempt::Held { stale } => if stale {
            LockStep::RemoveStale { retry: attempt < LOCK_MAX_ATTEMPTS }
        } else {
            LockStep::Wait { retry: attempt < LOCK_MAX_ATTEMPTS }
        },
    }
}

pub fn lock_step(attempt: u32, outcome: LockAttempt) -> (r: LockStep)
    ensures
        r == spec_lock_step(attempt, outcome),
{
    match outcome {
        LockAttempt::Created => LockStep::Acquired,
        LockAttempt::Failed => LockStep::GiveUp,
        LockAttempt::Held { stale } => {
            let retry = attempt < LOCK_MAX_ATTEMPTS;
            if stale {
                LockStep::RemoveStale { retry }
            } else {
                LockStep::Wait { retry }
            }
        },
    }
}

/// How the loop that takes the lock ends, from attempt `attempt` on, when
/// the attempts find `outcomes` in turn: whether the lock was taken, how
/// many leftover locks were removed, and how many attempts were made (none
/// more than there are outcomes).
pub open spec fn lock_run(attempt: u32, outcomes: Seq<LockAttempt>) -> (bool, nat, nat)
    decreases outcomes.len(),
{
    if outcomes.len() == 0 {
        (false, 0, 0)
    } else {
        match spec_lock_step(attempt, outcomes[0]) {
            LockStep::Acquired => (true, 0, 1),
            LockStep::GiveUp => (false, 0, 1),
            LockStep::RemoveStale { retry } => if retry {
                let r = lock_run((attempt + 1) as u32, outcomes.drop_first());
                (r.0, r.1 + 1, r.2 + 1)
            } else {
                (false, 1, 1)
            },
            LockStep::Wait { retry } => if retry {
                let r = lock_run((attempt + 1) as u32, outcomes.drop_first());
                (r.0, r.1, r.2 + 1)
            } else {
                (false, 0, 1)
            },
        }
    }
}

proof fn lemma_fresh_lock_run(attempt: u32, outcomes: Seq<LockAttempt>)
    requires
        1 <= attempt <= LOCK_MAX_ATTEMPTS,
        outcomes.len() >= LOCK_MAX_ATTEMPTS - attempt + 1,
        forall|i: int| 0 <= i < outcomes.len() ==> #[trigger] outcomes[i] == (LockAttempt::Held { stale: false }),
    ensures
        lock_run(attempt, outcomes) == (false, 0nat, (LOCK_MAX_ATTEMPTS - attempt + 1) as nat),
    decreases LOCK_MAX_ATTEMPTS - attempt,
{
    assert(outcomes[0] == (LockAttempt::Held { stale: false }));
    if attempt < LOCK_MAX_ATTEMPTS {
        let rest = outcomes.drop_first();
        assert forall|i: int| 0 <= i < rest.len() implies #[trigger] rest[i] == (LockAttempt::Held {
            stale: false,
        }) by {
            assert(rest[i] == outcomes[i + 1]);
        }
        lemma_fresh_lock_run((attempt + 1) as u32, rest);
    }
}

/// A lock that another save holds, and that is not stale, throughout: the
/// save never takes it and never removes it, and gives up after the last
/// of its attempts.
pub proof fn law_fresh_lock_is_never_taken(outcomes: Seq<LockAttempt>)
    requires
        outcomes.len() >= LOCK_MAX_ATTEMPTS,
        forall|i: int| 0 <= i < outcomes.len() ==> #[trigger] outcomes[i] == (LockAttempt::Held { stale: false }),
    ensures
        lock_run(1, outcomes) == (false, 0nat, LOCK_MAX_ATTEMPTS as nat),
{
    lemma_fresh_lock_run(1, outcomes);
}

/// A free lock is taken at the first attempt, and a stale one is removed
/// and then taken at the next.
pub proof fn law_free_or_stale_lock_is_taken(outcomes: Seq<LockAttempt>)
    requires
        outcomes.len() >= 2,
    ensures
        outcomes[0] == LockAttempt::Created ==> lock_run(1, outcomes) == (true, 0nat, 1nat),
        outcomes[0] == (LockAttempt::Held { stale: true }) && outcomes[1] == LockAttempt::Created ==> lock_run(
            1,
            outcomes,
        ) == (true, 1nat, 2nat),
{
    if outcomes[0] == (LockAttempt::Held { stale: true }) && outcomes[1] == LockAttempt::Created {
        assert(outcomes.drop_first()[0] == outcomes[1]);
        assert(lock_run(2, outcomes.drop_first()) == (true, 0nat, 1nat));
    }
}

#[verifier::external_type_specification]
#[verifier::external_body]
pub struct ExTomlValue(toml::Value);

#[verifier::external_type_specification]
#[verifier::external_body]
#[verifier::reject_recursive_types(K)]
#[verifier::reject_recursive_types(V)]
pub struct ExTomlMap<K, V>(toml::map::Map<K, V>);

/// A TOML table.
pub type TomlTable = toml::map::Map<String, toml::Value>;

/// A TOML value as the settings logic sees it; a value of another kind
/// (float, date, array) is held by its TOML text.
pub enum TomlVal {
    Str(Seq<char>),
    Int(int),
    Bool(bool),
    Table(Map<Seq<char>, TomlVal>),
    Other(Seq<char>),
}

pub open spec fn empty_toml() -> Map<Seq<char>, TomlVal> {
    Map::empty()
}

/// Key `k` of `m` holds a sub-table.
pub open spec fn holds_table(m: Map<Seq<char>, TomlVal>, k: Seq<char>) -> bool {
    m.dom().contains(k) && m[k] is Table
}

/// What a TOML table holds, key by key.
pub uninterp spec fn toml_contents(t: TomlTable) -> Map<Seq<char>, TomlVal>;

/// The table that TOML text `s` parses to, or none when it is not valid TOML.
pub uninterp spec fn toml_parse(s: Seq<char>) -> Option<Map<Seq<char>, TomlVal>>;

/// The pretty TOML text of a table with the given contents.
pub uninterp spec fn toml_pretty(m: Map<Seq<char>, TomlVal>) -> Seq<char>;

/// `str::parse::<toml::Table>`: the parsed table, or the parser's error
/// message. The contract claims the result is the named parse of the text,
/// and that the empty text parses to the empty table.
#[verifier::external_body]
fn toml_table_parse(s: &str) -> (r: Result<TomlTable, String>)
    ensures
        match toml_parse(s@) {
            Some(m) => r matches Ok(t) && toml_contents(t) == m,
            None => r is Err,
        },
        r is Ok || s@.len() != 0,
        r matches Ok(t) ==> (s@.len() == 0 ==> toml_contents(t) == empty_toml()),
{
    match s.parse::<toml::Table>() {
        Ok(t) => Ok(t),
        Err(e) => Err(e.to_string()),
    }
}

/// `toml::Table::new`: an empty table.
#[verifier::external_body]
fn toml_table_new() -> (r: TomlTable)
    ensures
        toml_contents(r) == empty_toml(),
{
    toml::Table::new()
}

/// `toml::Table::insert` of a string value.
#[verifier::external_body]
fn toml_insert_str(t: &mut TomlTable, k: &str, v: &str)
    ensures
        toml_contents(*final(t)) == toml_contents(*old(t)).insert(k@, TomlVal::Str(v@)),
{
    t.insert(k.to_string(), toml::Value::String(v.to_string()));
}

/// `toml::Table::insert` of an integer value.
#[verifier::external_body]
fn toml_insert_int(t: &mut TomlTable, k: &str, v: i64)
    ensures
        toml_contents(*final(t)) == toml_contents(*old(t)).insert(k@, TomlVal::Int(v as int)),
{
    t.insert(k.to_string(), toml::Value::Integer(v));
}

/// `toml::Table::insert` of a boolean value.
#[verifier::external_body]
fn toml_insert_bool(t: &mut TomlTable, k: &str, v: bool)
    ensures
        toml_contents(*final(t)) == toml_contents(*old(t)).insert(k@, TomlVal::Bool(v)),
{
    t.insert(k.to_string(), toml::Value::Boolean(v));
}

/// `toml::Table::insert` of a sub-table.
#[verifier::external_body]
fn toml_insert_table(
    t: &mut TomlTable,
    k: &str,
    v: TomlTable,
)
    ensures
        toml_contents(*final(t)) == toml_contents(*old(t)).insert(k@, TomlVal::Table(toml_contents(v))),
{
    t.insert(k.to_string(), toml::Value::Table(v));
}

/// `toml::Table::remove`.
#[verifier::external_body]
fn toml_remove(t: &mut TomlTable, k: &str)
    ensures
        toml_contents(*final(t)) == toml_contents(*old(t)).remove(k@),
{
    t.remove(k);
}

/// `toml::Table::get` of a key holding a sub-table: a copy of that table,
/// or none when the key is absent or holds another kind of value.
#[verifier::external_body]
fn toml_get_table(t: &TomlTable, k: &str) -> (r: Option<TomlTable>)
    ensures
        r is Some <==> holds_table(toml_contents(*t), k@),
        r matches Some(x) ==> TomlVal::Table(toml_contents(x)) == toml_contents(*t)[k@],
{
    match t.get(k) {
        Some(toml::Value::Table(x)) => Some(x.clone()),
        _ => None,
    }
}

/// `toml::to_string_pretty` of a table (empty text if it fails).
#[verifier::external_body]
fn toml_render(t: &TomlTable) -> (r: String)
    ensures
        r@ == toml_pretty(toml_contents(*t)),
{
    toml::to_string_pretty(t).unwrap_or_default()
}

/// `key` set to the text `v`, or removed when there is none.
pub open spec fn set_or_remove(m: Map<Seq<char>, TomlVal>, key: Seq<char>, v: Option<String>) -> Map<Seq<char>, TomlVal> {
    match v {
        Some(s) => m.insert(key, TomlVal::Str(s@)),
        None => m.remove(key),
    }
}

/// The `[theme]` table of `m` (empty unless it is a table) with the
/// configuration's preset and accent written over.
pub open spec fn merged_theme(m: Map<Seq<char>, TomlVal>, cfg: Config) -> Map<Seq<char>, TomlVal> {
    let base = if m.dom().contains("theme"@) && m["theme"@] is Table {
        m["theme"@]->Table_0
    } else {
        Map::empty()
    };
    base.insert("preset"@, TomlVal::Str(cfg.theme.preset@)).insert("accent"@, TomlVal::Str(cfg.theme.accent@))
}

/// The table `m` with the configuration's known keys written over and every
/// other key kept.
pub open spec fn merged_table(m: Map<Seq<char>, TomlVal>, cfg: Config) -> Map<Seq<char>, TomlVal> {
    let a = set_or_remove(m, "favorite_team"@, cfg.favorite_team);
    let b = a.insert("poll_secs"@, TomlVal::Int((cfg.poll_secs as i64) as int));
    let c = set_or_remove(b, "lang"@, cfg.lang);
    let d = set_or_remove(c, "timezone"@, cfg.timezone);
    let e = d.insert("mouse"@, TomlVal::Bool(cfg.mouse));
    e.insert("theme"@, TomlVal::Table(merged_theme(e, cfg)))
}

fn set_or_remove_entry(t: &mut TomlTable, k: &str, v: &Option<String>)
    ensures
        toml_contents(*final(t)) == set_or_remove(toml_contents(*old(t)), k@, *v),
{
    match v {
        Some(s) => toml_insert_str(t, k, s.as_str()),
        None => toml_remove(t, k),
    }
}

/// The keys the settings own at the top level of the file.
pub open spec fn known_key(k: Seq<char>) -> bool {
    ||| k == "favorite_team"@
    ||| k == "poll_secs"@
    ||| k == "lang"@
    ||| k == "timezone"@
    ||| k == "mouse"@
    ||| k == "theme"@
}

proof fn lemma_known_keys_differ()
    ensures
        "favorite_team"@ != "poll_secs"@,
        "favorite_team"@ != "lang"@,
        "favorite_team"@ != "timezone"@,
        "favorite_team"@ != "mouse"@,
        "favorite_team"@ != "theme"@,
        "poll_secs"@ != "lang"@,
        "poll_secs"@ != "timezone"@,
        "poll_secs"@ != "mouse"@,
        "poll_secs"@ != "theme"@,
        "lang"@ != "timezone"@,
        "lang"@ != "mouse"@,
        "lang"@ != "theme"@,
        "timezone"@ != "mouse"@,
        "timezone"@ != "theme"@,
        "mouse"@ != "theme"@,
        "preset"@ != "accent"@,
{
    reveal_strlit("favorite_team");
    reveal_strlit("poll_secs");
    reveal_strlit("lang");
    reveal_strlit("timezone");
    reveal_strlit("mouse");
    reveal_strlit("theme");
    reveal_strlit("preset");
    reveal_strlit("accent");
    assert("favorite_team"@.len() != "poll_secs"@.len());
    assert("favorite_team"@.len() != "lang"@.len());
    assert("favorite_team"@.len() != "timezone"@.len());
    assert("favorite_team"@.len() != "mouse"@.len());
    assert("favorite_team"@.len() != "theme"@.len());
    assert("poll_secs"@.len() != "lang"@.len());
    assert("poll_secs"@.len() != "timezone"@.len());
    assert("poll_secs"@.len() != "mouse"@.len());
    assert("poll_secs"@.len() != "theme"@.len());
    assert("lang"@.len() != "timezone"@.len());
    assert("lang"@.len() != "mouse"@.len());
    assert("lang"@.len() != "theme"@.len());
    assert("timezone"@.len() != "mouse"@.len());
    assert("timezone"@.len() != "theme"@.len());
    assert("mouse"@[0] != "theme"@[0]);
    assert("preset"@[0] != "accent"@[0]);
}

/// Saving the settings keeps every key and section the app does not know,
/// with its value, also inside `[theme]` when that is a table.
pub proof fn law_merge_keeps_unknown_keys(m: Map<Seq<char>, TomlVal>, cfg: Config, k: Seq<char>)
    requires
        !known_key(k),
    ensures
        merged_table(m, cfg).dom().contains(k) == m.dom().contains(k),
        m.dom().contains(k) ==> merged_table(m, cfg)[k] == m[k],
        holds_table(m, "theme"@) && k != "preset"@ && k != "accent"@ ==> {
            let before = m["theme"@]->Table_0;
            let after = merged_table(m, cfg)["theme"@]->Table_0;
            &&& after.dom().contains(k) == before.dom().contains(k)
            &&& before.dom().contains(k) ==> after[k] == before[k]
        },
{
    lemma_known_keys_differ();
}

/// Saving the settings writes each of them under its key: the text values
/// (removed when unset), the poll interval, the mouse switch and the theme.
pub proof fn law_merge_writes_known_values(m: Map<Seq<char>, TomlVal>, cfg: Config)
    requires
        cfg.poll_secs <= i64::MAX,
    ensures
        ({
            let r = merged_table(m, cfg);
            &&& r["poll_secs"@] == TomlVal::Int(cfg.poll_secs as int)
            &&& r["mouse"@] == TomlVal::Bool(cfg.mouse)
            &&& (match cfg.favorite_team {
                Some(t) => r.dom().contains("favorite_team"@) && r["favorite_team"@] == TomlVal::Str(t@),
                None => !r.dom().contains("favorite_team"@),
            })
            &&& (match cfg.lang {
                Some(t) => r.dom().contains("lang"@) && r["lang"@] == TomlVal::Str(t@),
                None => !r.dom().contains("lang"@),
            })
            &&& (match cfg.timezone {
                Some(t) => r.dom().contains("timezone"@) && r["timezone"@] == TomlVal::Str(t@),
                None => !r.dom().contains("timezone"@),
            })
            &&& holds_table(r, "theme"@)
            &&& r["theme"@]->Table_0["preset"@] == TomlVal::Str(cfg.theme.preset@)
            &&& r["theme"@]->Table_0["accent"@] == TomlVal::Str(cfg.theme.accent@)
        }),
{
    lemma_known_keys_differ();
}

/// Writes the configuration's known keys over the TOML text `existing`,
/// keeping every key and section the app does not know (comments are not
/// kept). Empty `existing` starts from an empty table; text that does not
/// parse is an error, so that the file is left alone.
pub fn merge_into_toml(existing: &str, cfg: &Config) -> (r: Result<String, Error>)
    ensures
        match toml_parse(existing@) {
            Some(m) => r matches Ok(s) && s@ == toml_pretty(merged_table(m, *cfg)),
            None => r matches Err(Error::Config(_)),
        },
        existing@.len() == 0 ==> r is Ok,
{
    let mut table = match toml_table_parse(existing) {
        Ok(t) => t,
        Err(e) => {
            return Err(Error::Config(e));
        },
    };
    let ghost m = toml_contents(table);
    set_or_remove_entry(&mut table, "favorite_team", &cfg.favorite_team);
    toml_insert_int(&mut table, "poll_secs", cfg.poll_secs as i64);
    set_or_remove_entry(&mut table, "lang", &cfg.lang);
    set_or_remove_entry(&mut table, "timezone", &cfg.timezone);
    toml_insert_bool(&mut table, "mouse", cfg.mouse);
    let mut theme = match toml_get_table(&table, "theme") {
        Some(t) => t,
        None => toml_table_new(),
    };
    toml_insert_str(&mut theme, "preset", cfg.theme.preset.as_str());
    toml_insert_str(&mut theme, "accent", cfg.theme.accent.as_str());
    toml_insert_table(&mut table, "theme", theme);
    Ok(toml_render(&table))
}

} // verus!
