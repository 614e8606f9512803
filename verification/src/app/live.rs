//! The live view: the relay-line cursor and the pitch selection that follow
//! each other, rewinding through past at-bats, and the cache of fetched
//! innings that rewinding reads.
use vstd::prelude::*;
use crate::app::{App, PastInning, Screen};
use crate::model::{
    first_seq_index, lemma_first_seq_index, line_of_pitch, pitch_for_line, AtBat, LiveState,
    RelayLine,
};
use crate::rss::parse::{keep_digit_chars_pub, keep_digits};
use crate::strutil::{parse_int, parse_u8};

verus! {

/// Two at-bats that agree on every field (a clone of the other).
pub open spec fn same_at_bat(a: AtBat, b: AtBat) -> bool {
    &&& a.seq == b.seq
    &&& a.batter_name == b.batter_name
    &&& a.inning_label == b.inning_label
    &&& a.relay_lines@ == b.relay_lines@
    &&& a.pitches@ == b.pitches@
}

/// Whether all at-bats carry distinct numbers.
pub open spec fn unique_seqs(abs: Seq<AtBat>) -> bool {
    forall|i: int, j: int| 0 <= i < j < abs.len() ==> abs[i].seq != abs[j].seq
}

/// Whether some at-bat of `r` is numbered `seq`.
pub open spec fn holds_seq(r: Seq<AtBat>, seq: i64) -> bool {
    exists|k: int| 0 <= k < r.len() && r[k].seq == seq
}

/// `r` holds the at-bats of `c` in increasing number, one for each number
/// that `c` has: the first one `c` lists.
pub open spec fn first_kept(r: Seq<AtBat>, c: Seq<AtBat>) -> bool {
    &&& seq_sorted(r)
    &&& forall|k: int|
        0 <= k < r.len() ==> (first_seq_index(c, #[trigger] r[k].seq) matches Some(j)
            && same_at_bat(r[k], c[j]))
    &&& forall|j: int| 0 <= j < c.len() ==> holds_seq(r, #[trigger] c[j].seq)
}

/// Index of the first cache entry for `inning` of game `game`.
pub open spec fn first_inning_entry(entries: Seq<PastInning>, game: Seq<char>, inning: int) -> Option<
    int,
>
    decreases entries.len(),
{
    if entries.len() == 0 {
        None
    } else if entries[0].game_id@ == game && entries[0].inning == inning {
        Some(0)
    } else {
        match first_inning_entry(entries.drop_first(), game, inning) {
            Some(i) => Some(i + 1),
            None => None,
        }
    }
}

pub proof fn lemma_first_inning_entry(entries: Seq<PastInning>, game: Seq<char>, inning: int)
    ensures
        match first_inning_entry(entries, game, inning) {
            Some(i) => 0 <= i < entries.len() && entries[i].game_id@ == game && entries[i].inning
                == inning && forall|j: int|
                0 <= j < i ==> !(entries[j].game_id@ == game && entries[j].inning == inning),
            None => forall|j: int|
                0 <= j < entries.len() ==> !(entries[j].game_id@ == game && entries[j].inning
                    == inning),
        },
    decreases entries.len(),
{
    if entries.len() > 0 {
        lemma_first_inning_entry(entries.drop_first(), game, inning);
        assert forall|j: int| 0 < j < entries.len() implies entries[j] == entries.drop_first()[j
            - 1] by {}
    }
}

/// Whether anything of game `game` is cached.
pub open spec fn has_game(entries: Seq<PastInning>, game: Seq<char>) -> bool {
    exists|k: int| 0 <= k < entries.len() && entries[k].game_id@ == game
}

/// The cached at-bats of game `game` in innings below `n`, inning by inning.
pub open spec fn past_upto(entries: Seq<PastInning>, game: Seq<char>, n: int) -> Seq<AtBat>
    decreases n,
{
    if n <= 0 {
        Seq::empty()
    } else {
        past_upto(entries, game, n - 1) + match first_inning_entry(entries, game, n - 1) {
            Some(k) => entries[k].at_bats@,
            None => Seq::empty(),
        }
    }
}

/// The cached at-bats of game `game`, earliest inning first.
pub open spec fn past_for(entries: Seq<PastInning>, game: Seq<char>) -> Seq<AtBat> {
    past_upto(entries, game, 256)
}

/// The innings below `n` cached for game `game`, ascending.
pub open spec fn innings_upto(entries: Seq<PastInning>, game: Seq<char>, n: int) -> Seq<u8>
    decreases n,
{
    if n <= 0 {
        Seq::empty()
    } else {
        innings_upto(entries, game, n - 1) + if first_inning_entry(entries, game, n - 1) is Some {
            seq![(n - 1) as u8]
        } else {
            Seq::empty()
        }
    }
}

/// From inning `t` downwards, the first inning not cached for game `game`.
pub open spec fn skip_cached(entries: Seq<PastInning>, game: Seq<char>, t: int) -> int
    decreases t,
{
    if t >= 1 && first_inning_entry(entries, game, t) is Some {
        skip_cached(entries, game, t - 1)
    } else {
        t
    }
}

/// The inning an at-bat label names ("T9", "B9", "Inn 9"): its digits read
/// as a number; none for 0, no digits or more than 255.
pub open spec fn spec_inning_number(label: Seq<char>) -> Option<u8> {
    match parse_int(keep_digits(label), false, 0, 255) {
        Some(v) => if v > 0 {
            Some(v as u8)
        } else {
            None
        },
        None => None,
    }
}

/// The cache after storing `at_bats` for `inning` of game `game_id`: the
/// entry that answered for that inning gets them, else a new entry is added.
pub open spec fn cache_stored(
    entries: Seq<PastInning>,
    game_id: String,
    inning: u8,
    at_bats: Vec<AtBat>,
) -> Seq<PastInning> {
    match first_inning_entry(entries, game_id@, inning as int) {
        Some(k) => entries.update(k, PastInning { game_id: entries[k].game_id, inning, at_bats }),
        None => entries.push(PastInning { game_id, inning, at_bats }),
    }
}

/// The same at-bats, one for one.
pub open spec fn same_seqs(a: Seq<AtBat>, b: Seq<AtBat>) -> bool {
    a.len() == b.len() && forall|i: int| 0 <= i < a.len() ==> same_at_bat(#[trigger] a[i], b[i])
}

/// Whether the numbers increase strictly.
pub open spec fn seq_sorted(r: Seq<AtBat>) -> bool {
    forall|i: int, j: int| 0 <= i < j < r.len() ==> r[i].seq < r[j].seq
}

/// The cursor on relay line `idx` of `lines`, and the pitch that line shows.
pub open spec fn cursor_on(pre: App, lines: Seq<RelayLine>, idx: int) -> App {
    App { live_relay_cursor: Some(idx as usize), live_pitch_sel: pitch_for_line(lines, idx), ..pre }
}

impl App {
    /// The live state on screen, once one has arrived.
    pub open spec fn live_state(self) -> Option<LiveState> {
        match self.screen {
            Screen::Live { state: Some(s), .. } => Some(s),
            _ => None,
        }
    }

    /// `j`/`k`: one relay line down or up, clamped; the first press starts on
    /// the last line. The pitch that line shows is selected with it.
    pub open spec fn relay_cursor_moved(pre: App, down: bool) -> App {
        match pre.live_state() {
            Some(s) => {
                let lines = s.active_lines(pre.live_atbat_sel);
                if lines.len() == 0 {
                    pre
                } else {
                    let last = lines.len() - 1;
                    let idx: int = match pre.live_relay_cursor {
                        None => last,
                        Some(i) => if down {
                            if i + 1 < last {
                                i + 1
                            } else {
                                last
                            }
                        } else {
                            let d: int = if i > 0 {
                                i - 1
                            } else {
                                0
                            };
                            if d < last {
                                d
                            } else {
                                last
                            }
                        },
                    };
                    cursor_on(pre, lines, idx)
                }
            },
            None => pre,
        }
    }

    /// A click on relay line `idx` (the last line stands for any beyond).
    pub open spec fn relay_cursor_put(pre: App, idx: usize) -> App {
        match pre.live_state() {
            Some(s) => {
                let lines = s.active_lines(pre.live_atbat_sel);
                if lines.len() == 0 {
                    pre
                } else {
                    let last = lines.len() - 1;
                    cursor_on(
                        pre,
                        lines,
                        if idx < last {
                            idx as int
                        } else {
                            last
                        },
                    )
                }
            },
            None => pre,
        }
    }

    /// `gg`/`G`: the cursor on the first or the last relay line.
    pub open spec fn relay_cursor_jumped(pre: App, to_end: bool) -> App {
        match pre.live_state() {
            Some(s) => {
                let lines = s.active_lines(pre.live_atbat_sel);
                if lines.len() == 0 {
                    pre
                } else {
                    cursor_on(
                        pre,
                        lines,
                        if to_end {
                            lines.len() - 1
                        } else {
                            0
                        },
                    )
                }
            },
            None => pre,
        }
    }

    /// `←`/`→`: the previous or next pitch of the at-bat being read (`→`
    /// starts from the first, `←` from the last), and the cursor on the first
    /// relay line that describes it, none when no line does.
    pub open spec fn pitch_sel_moved(pre: App, right: bool) -> App {
        match pre.live_state() {
            Some(s) => {
                let ps = s.active_pitch_seq(pre.live_atbat_sel);
                if ps.len() == 0 {
                    pre
                } else {
                    let last = ps.len() - 1;
                    let idx: int = match pre.live_pitch_sel {
                        None => if right {
                            0
                        } else {
                            last
                        },
                        Some(i) => if right {
                            if i + 1 < last {
                                i + 1
                            } else {
                                last
                            }
                        } else if i > 0 {
                            i - 1
                        } else {
                            0
                        },
                    };
                    App {
                        live_pitch_sel: Some(idx as usize),
                        live_relay_cursor: match line_of_pitch(
                            s.active_lines(pre.live_atbat_sel),
                            idx as usize,
                        ) {
                            Some(l) => Some(l as usize),
                            None => None,
                        },
                        ..pre
                    }
                }
            },
            None => pre,
        }
    }

    /// The inning to fetch when rewinding past the first at-bat shown: the one
    /// before the first at-bat's inning, skipping innings already cached;
    /// none below the first inning.
    pub open spec fn earlier_target(self) -> Option<u8> {
        match self.screen {
            Screen::Live { game, state: Some(s) } => if s.at_bats@.len() == 0 {
                None
            } else {
                match spec_inning_number(s.at_bats@[0].inning_label@) {
                    Some(first) => {
                        let t = skip_cached(self.past_innings@, game.id@, first - 1);
                        if t >= 1 {
                            Some(t as u8)
                        } else {
                            None
                        }
                    },
                    None => None,
                }
            },
            _ => None,
        }
    }

    /// One inning request at a time: a new one only when none is pending.
    pub open spec fn earlier_requested(pre: App) -> App {
        if pre.fetching_inning is Some {
            pre
        } else {
            App { fetching_inning: pre.earlier_target(), ..pre }
        }
    }

    /// `[`/`]`: the previous or next at-bat (by number, so that a poll which
    /// shifts the list keeps the one being read), clamped; reaching the latest
    /// follows the live one again. Pitch and cursor are cleared. `[` on the
    /// first at-bat asks for the inning before. Nothing moves while two
    /// at-bats share a number.
    pub open spec fn at_bat_stepped(pre: App, back: bool) -> App {
        match pre.live_state() {
            Some(s) => {
                let abs = s.at_bats@;
                if abs.len() > 0 && unique_seqs(abs) {
                    let last = abs.len() - 1;
                    let cur: int = match pre.live_atbat_sel {
                        Some(seq) => match first_seq_index(abs, seq) {
                            Some(i) => i,
                            None => last,
                        },
                        None => last,
                    };
                    let next: int = if back {
                        if cur > 0 {
                            cur - 1
                        } else {
                            0
                        }
                    } else if cur + 1 < last {
                        cur + 1
                    } else {
                        last
                    };
                    let moved = App {
                        live_atbat_sel: if next >= last {
                            None
                        } else {
                            Some(abs[next].seq)
                        },
                        live_pitch_sel: None,
                        live_relay_cursor: None,
                        ..pre
                    };
                    if back && cur == 0 {
                        App::earlier_requested(moved)
                    } else {
                        moved
                    }
                } else {
                    pre
                }
            },
            None => pre,
        }
    }

    /// Whether the live view shows a live state.
    pub fn is_live_screen(&self) -> (b: bool)
        ensures
            b == self.live_state() is Some,
    {
        matches!(self.screen, Screen::Live { state: Some(_), .. })
    }

    pub fn move_relay_cursor(&mut self, down: bool)
        ensures
            *final(self) == App::relay_cursor_moved(*old(self), down),
    {
        let (idx, pitch) = match &self.screen {
            Screen::Live { state: Some(s), .. } => {
                let n = s.active_relay_lines(self.live_atbat_sel).len();
                if n == 0 {
                    return ;
                }
                let last = n - 1;
                let idx = match self.live_relay_cursor {
                    None => last,
                    Some(i) => if down {
                        if i < last {
                            i + 1
                        } else {
                            last
                        }
                    } else {
                        let d = if i > 0 {
                            i - 1
                        } else {
                            0
                        };
                        if d < last {
                            d
                        } else {
                            last
                        }
                    },
                };
                (idx, s.pitch_at_relay_line(self.live_atbat_sel, idx))
            },
            _ => {
                return ;
            },
        };
        self.live_relay_cursor = Some(idx);
        self.live_pitch_sel = pitch;
    }

    pub fn put_relay_cursor(&mut self, idx: usize)
        ensures
            *final(self) == App::relay_cursor_put(*old(self), idx),
    {
        let (k, pitch) = match &self.screen {
            Screen::Live { state: Some(s), .. } => {
                let n = s.active_relay_lines(self.live_atbat_sel).len();
                if n == 0 {
                    return ;
                }
                let last = n - 1;
                let k = if idx < last {
                    idx
                } else {
                    last
                };
                (k, s.pitch_at_relay_line(self.live_atbat_sel, k))
            },
            _ => {
                return ;
            },
        };
        self.live_relay_cursor = Some(k);
        self.live_pitch_sel = pitch;
    }

    pub fn jump_relay_cursor(&mut self, to_end: bool)
        ensures
            *final(self) == App::relay_cursor_jumped(*old(self), to_end),
    {
        let (k, pitch) = match &self.screen {
            Screen::Live { state: Some(s), .. } => {
                let n = s.active_relay_lines(self.live_atbat_sel).len();
                if n == 0 {
                    return ;
                }
                let k = if to_end {
                    n - 1
                } else {
                    0
                };
                (k, s.pitch_at_relay_line(self.live_atbat_sel, k))
            },
            _ => {
                return ;
            },
        };
        self.live_relay_cursor = Some(k);
        self.live_pitch_sel = pitch;
    }

    pub fn move_pitch_sel(&mut self, right: bool)
        ensures
            *final(self) == App::pitch_sel_moved(*old(self), right),
    {
        let (idx, line) = match &self.screen {
            Screen::Live { state: Some(s), .. } => {
                let n = s.active_pitches(self.live_atbat_sel).len();
                if n == 0 {
                    return ;
                }
                let last = n - 1;
                let idx = match self.live_pitch_sel {
                    None => if right {
                        0
                    } else {
                        last
                    },
                    Some(i) => if right {
                        if i < last {
                            i + 1
                        } else {
                            last
                        }
                    } else if i > 0 {
                        i - 1
                    } else {
                        0
                    },
                };
                (idx, s.relay_line_of_pitch(self.live_atbat_sel, idx))
            },
            _ => {
                return ;
            },
        };
        self.live_pitch_sel = Some(idx);
        self.live_relay_cursor = line;
    }

    /// The inning number in an at-bat label (see `spec_inning_number`).
    pub fn inning_number_of(label: &str) -> (r: Option<u8>)
        ensures
            r == spec_inning_number(label@),
    {
        let chars = crate::strutil::chars_of(label);
        let digits = keep_digit_chars_pub(&chars);
        match parse_u8(&digits) {
            Some(n) => if n > 0 {
                Some(n)
            } else {
                None
            },
            None => None,
        }
    }

    pub fn earlier_inning_target(&self) -> (r: Option<u8>)
        ensures
            r == self.earlier_target(),
    {
        match &self.screen {
            Screen::Live { game, state: Some(s) } => {
                if s.at_bats.len() == 0 {
                    return None;
                }
                let first = match App::inning_number_of(s.at_bats[0].inning_label.as_str()) {
                    Some(f) => f,
                    None => return None,
                };
                let mut t: u8 = first - 1;
                while t >= 1 && inning_entry(&self.past_innings, &game.id, t).is_some()
                    invariant
                        skip_cached(self.past_innings@, game.id@, first - 1) == skip_cached(
                            self.past_innings@,
                            game.id@,
                            t as int,
                        ),
                    decreases t,
                {
                    t = t - 1;
                }
                if t >= 1 {
                    Some(t)
                } else {
                    None
                }
            },
            _ => None,
        }
    }

    pub fn request_earlier_inning(&mut self)
        ensures
            *final(self) == App::earlier_requested(*old(self)),
    {
        if self.fetching_inning.is_some() {
            return ;
        }
        self.fetching_inning = self.earlier_inning_target();
    }

    pub fn step_at_bat(&mut self, back: bool)
        ensures
            *final(self) == App::at_bat_stepped(*old(self), back),
    {
        let (want_earlier, next_sel) = match &self.screen {
            Screen::Live { state: Some(s), .. } => {
                let len = s.at_bats.len();
                if len == 0 || !s.has_unique_at_bat_seqs() {
                    return ;
                }
                let last = len - 1;
                let cur = match self.live_atbat_sel {
                    Some(seq) => match s.active_at_bat_index_of(seq) {
                        Some(i) => i,
                        None => last,
                    },
                    None => last,
                };
                let next = if back {
                    if cur > 0 {
                        cur - 1
                    } else {
                        0
                    }
                } else if cur < last {
                    cur + 1
                } else {
                    last
                };
                let sel = if next >= last {
                    None
                } else {
                    Some(s.at_bats[next].seq)
                };
                (back && cur == 0, sel)
            },
            _ => {
                return ;
            },
        };
        self.live_atbat_sel = next_sel;
        self.live_pitch_sel = None;
        self.live_relay_cursor = None;
        if want_earlier {
            self.request_earlier_inning();
        }
    }

    /// The innings cached for game `game_id`, ascending.
    pub fn cached_innings_of(&self, game_id: &str) -> (r: Vec<u8>)
        ensures
            r@ == innings_upto(self.past_innings@, game_id@, 256),
    {
        let id = game_id.to_string();
        let mut r: Vec<u8> = Vec::new();
        let mut n: u16 = 0;
        while n < 256
            invariant
                n <= 256,
                id@ == game_id@,
                r@ == innings_upto(self.past_innings@, game_id@, n as int),
            decreases 256 - n,
        {
            if inning_entry(&self.past_innings, &id, n as u8).is_some() {
                r.push(n as u8);
            }
            n = n + 1;
        }
        r
    }
}

impl LiveState {
    /// Index of the first at-bat numbered `seq`.
    pub fn active_at_bat_index_of(&self, seq: i64) -> (r: Option<usize>)
        ensures
            match first_seq_index(self.at_bats@, seq) {
                Some(i) => 0 <= i < self.at_bats.len() && r == Some(i as usize),
                None => r is None,
            },
    {
        proof {
            lemma_first_seq_index(self.at_bats@, seq);
        }
        let mut i: usize = 0;
        while i < self.at_bats.len()
            invariant
                i <= self.at_bats@.len(),
                forall|j: int| 0 <= j < i ==> self.at_bats@[j].seq != seq,
            decreases self.at_bats@.len() - i,
        {
            if self.at_bats[i].seq == seq {
                proof {
                    lemma_first_seq_index(self.at_bats@, seq);
                }
                return Some(i);
            }
            i += 1;
        }
        None
    }
}

/// The cache entry that answers for `inning` of game `game_id`.
pub fn inning_entry(entries: &Vec<PastInning>, game_id: &String, inning: u8) -> (r: Option<usize>)
    ensures
        match first_inning_entry(entries@, game_id@, inning as int) {
            Some(i) => 0 <= i < entries.len() && r == Some(i as usize),
            None => r is None,
        },
{
    proof {
        lemma_first_inning_entry(entries@, game_id@, inning as int);
    }
    let mut i: usize = 0;
    while i < entries.len()
        invariant
            i <= entries@.len(),
            forall|j: int|
                0 <= j < i ==> !(entries@[j].game_id@ == game_id@ && entries@[j].inning == inning),
        decreases entries@.len() - i,
    {
        if entries[i].inning == inning && entries[i].game_id == *game_id {
            proof {
                lemma_first_inning_entry(entries@, game_id@, inning as int);
            }
            return Some(i);
        }
        i += 1;
    }
    None
}


/// Appends a copy of each at-bat of `v` to `out`.
fn append_copies(out: &mut Vec<AtBat>, v: &Vec<AtBat>)
    ensures
        final(out)@.len() == old(out)@.len() + v@.len(),
        forall|i: int| 0 <= i < old(out)@.len() ==> final(out)@[i] == old(out)@[i],
        forall|j: int|
            0 <= j < v@.len() ==> same_at_bat(#[trigger] final(out)@[old(out)@.len() + j], v@[j]),
{
    let ghost start = old(out)@;
    let mut j: usize = 0;
    while j < v.len()
        invariant
            j <= v@.len(),
            out@.len() == start.len() + j,
            forall|i: int| 0 <= i < start.len() ==> out@[i] == start[i],
            forall|k: int| 0 <= k < j ==> same_at_bat(#[trigger] out@[start.len() + k], v@[k]),
        decreases v@.len() - j,
    {
        out.push(v[j].clone());
        j += 1;
    }
}

/// Whether anything of game `game_id` is cached.
pub fn caches_game(entries: &Vec<PastInning>, game_id: &String) -> (b: bool)
    ensures
        b == has_game(entries@, game_id@),
{
    let mut i: usize = 0;
    while i < entries.len()
        invariant
            i <= entries@.len(),
            forall|j: int| 0 <= j < i ==> entries@[j].game_id@ != game_id@,
        decreases entries@.len() - i,
    {
        if entries[i].game_id == *game_id {
            return true;
        }
        i += 1;
    }
    false
}

/// Copies of the cached at-bats of game `game_id`, earliest inning first.
pub fn gather_past(entries: &Vec<PastInning>, game_id: &String) -> (r: Vec<AtBat>)
    ensures
        same_seqs(r@, past_for(entries@, game_id@)),
{
    let mut r: Vec<AtBat> = Vec::new();
    let mut n: u16 = 0;
    while n < 256
        invariant
            n <= 256,
            same_seqs(r@, past_upto(entries@, game_id@, n as int)),
        decreases 256 - n,
    {
        let ghost before = r@;
        let nb: u8 = n as u8;
        assert(nb as int == n as int);
        let found = inning_entry(entries, game_id, nb);
        let ghost up = past_upto(entries@, game_id@, n as int);
        let ghost next = past_upto(entries@, game_id@, n + 1);
        match found {
            Some(k) => {
                append_copies(&mut r, &entries[k].at_bats);
                proof {
                    let extra = entries@[k as int].at_bats@;
                    assert(next == up + extra);
                    assert(r@.len() == next.len());
                    assert forall|i: int| 0 <= i < r@.len() implies same_at_bat(
                        #[trigger] r@[i],
                        next[i],
                    ) by {
                        if i < before.len() {
                            assert(r@[i] == before[i]);
                            assert(next[i] == up[i]);
                        } else {
                            let j = i - before.len();
                            assert(r@[i] == r@[before.len() + j]);
                            assert(next[i] == extra[j]);
                        }
                    }
                }
            },
            None => {
                proof {
                    assert(next == up + Seq::<AtBat>::empty());
                    assert(next == up);
                }
            },
        }
        n = n + 1;
    }
    r
}

/// Inserts a copy of `ab` in number order unless an at-bat with its number
/// is there already.
fn insert_at_bat(r: &mut Vec<AtBat>, ab: &AtBat)
    requires
        seq_sorted(old(r)@),
    ensures
        seq_sorted(final(r)@),
        holds_seq(old(r)@, ab.seq) ==> final(r)@ == old(r)@,
        !holds_seq(old(r)@, ab.seq) ==> exists|p: int|
            0 <= p <= old(r)@.len() && final(r)@ == old(r)@.insert(p, final(r)@[p])
                && same_at_bat(final(r)@[p], *ab),
{
    let mut p: usize = 0;
    while p < r.len() && r[p].seq < ab.seq
        invariant
            p <= r@.len(),
            forall|j: int| 0 <= j < p ==> r@[j].seq < ab.seq,
        decreases r@.len() - p,
    {
        p += 1;
    }
    if p < r.len() && r[p].seq == ab.seq {
        return ;
    }
    proof {
        assert forall|j: int| 0 <= j < r@.len() implies r@[j].seq != ab.seq by {
            if j >= p {
                assert(r@[p as int].seq > ab.seq);
                if j > p {
                    assert(r@[p as int].seq < r@[j].seq);
                }
            }
        }
    }
    let ghost before = r@;
    let x = ab.clone();
    r.insert(p, x);
    proof {
        assert(r@ == before.insert(p as int, r@[p as int]));
        assert forall|i: int, j: int| 0 <= i < j < r@.len() implies r@[i].seq < r@[j].seq by {
            if j < p {
                assert(r@[i] == before[i] && r@[j] == before[j]);
            } else if j == p {
                assert(r@[i] == before[i]);
            } else if i < p {
                assert(r@[i] == before[i] && r@[j] == before[j - 1]);
                if (p as int) < before.len() {
                    assert(before[p as int].seq > ab.seq);
                }
            } else if i == p {
                assert(r@[j] == before[j - 1]);
                assert(before[p as int].seq > ab.seq);
                if j - 1 > p {
                    assert(before[p as int].seq < before[j - 1].seq);
                }
            } else {
                assert(r@[i] == before[i - 1] && r@[j] == before[j - 1]);
            }
        }
    }
}

/// The at-bats of `c` in number order, one per number: the first one `c`
/// lists (see `first_kept`).
pub fn keep_first(c: &Vec<AtBat>) -> (r: Vec<AtBat>)
    ensures
        first_kept(r@, c@),
{
    let mut r: Vec<AtBat> = Vec::new();
    let mut i: usize = 0;
    while i < c.len()
        invariant
            i <= c@.len(),
            seq_sorted(r@),
            forall|k: int|
                0 <= k < r@.len() ==> (first_seq_index(c@, #[trigger] r@[k].seq) matches Some(j)
                    && j < i && same_at_bat(r@[k], c@[j])),
            forall|j: int| 0 <= j < i ==> holds_seq(r@, #[trigger] c@[j].seq),
        decreases c@.len() - i,
    {
        let ghost before = r@;
        let ghost s = c@[i as int].seq;
        proof {
            lemma_first_seq_index(c@, s);
        }
        insert_at_bat(&mut r, &c[i]);
        proof {
            if holds_seq(before, s) {
                let k = choose|k: int| 0 <= k < before.len() && before[k].seq == s;
                assert(first_seq_index(c@, before[k].seq) matches Some(j) && j < i);
            } else {
                let p = choose|p: int|
                    0 <= p <= before.len() && r@ == before.insert(p, r@[p]) && same_at_bat(
                        r@[p],
                        c@[i as int],
                    );
                assert forall|j: int| 0 <= j < i implies first_seq_index(c@, s) != Some(j) by {
                    if first_seq_index(c@, s) == Some(j) {
                        assert(c@[j].seq == s);
                        assert(holds_seq(before, c@[j].seq));
                    }
                }
                assert(first_seq_index(c@, s) == Some(i as int));
                assert forall|k: int| 0 <= k < r@.len() implies (first_seq_index(
                    c@,
                    #[trigger] r@[k].seq,
                ) matches Some(j) && j < i + 1 && same_at_bat(r@[k], c@[j])) by {
                    if k < p {
                        assert(r@[k] == before[k]);
                    } else if k > p {
                        assert(r@[k] == before[k - 1]);
                    }
                }
                assert forall|j: int| 0 <= j < i + 1 implies holds_seq(r@, #[trigger] c@[j].seq) by {
                    if j == i {
                        assert(r@[p].seq == c@[j].seq);
                    } else {
                        let k = choose|k: int| 0 <= k < before.len() && before[k].seq == c@[j].seq;
                        if k < p {
                            assert(r@[k] == before[k]);
                        } else {
                            assert(r@[k + 1] == before[k]);
                        }
                    }
                }
            }
        }
        i += 1;
    }
    r
}

/// Copies with the same numbers are first found at the same place.
proof fn lemma_same_first_index(a: Seq<AtBat>, b: Seq<AtBat>, s: i64)
    requires
        same_seqs(a, b),
    ensures
        first_seq_index(a, s) == first_seq_index(b, s),
    decreases a.len(),
{
    if a.len() > 0 {
        assert(same_at_bat(a[0], b[0]));
        assert(same_seqs(a.drop_first(), b.drop_first())) by {
            assert forall|i: int| 0 <= i < a.drop_first().len() implies same_at_bat(
                #[trigger] a.drop_first()[i],
                b.drop_first()[i],
            ) by {
                assert(same_at_bat(a[i + 1], b[i + 1]));
            }
        }
        lemma_same_first_index(a.drop_first(), b.drop_first(), s);
    }
}

/// Keeping the first of each number does not tell copies apart.
proof fn lemma_first_kept_same(r: Seq<AtBat>, a: Seq<AtBat>, b: Seq<AtBat>)
    requires
        same_seqs(a, b),
        first_kept(r, a),
    ensures
        first_kept(r, b),
{
    assert forall|k: int| 0 <= k < r.len() implies (first_seq_index(b, #[trigger] r[k].seq) matches Some(
        j,
    ) && same_at_bat(r[k], b[j])) by {
        lemma_same_first_index(a, b, r[k].seq);
        lemma_first_seq_index(a, r[k].seq);
        let j = first_seq_index(a, r[k].seq)->0;
        assert(same_at_bat(a[j], b[j]));
    }
    assert forall|j: int| 0 <= j < b.len() implies holds_seq(r, #[trigger] b[j].seq) by {
        assert(same_at_bat(a[j], b[j]));
        assert(holds_seq(r, a[j].seq));
    }
}

/// Puts the cached innings of game `game_id` before the live at-bats: the
/// at-bats of both in number order, one per number, the live copy winning
/// over a cached one. Nothing changes when the game has nothing cached.
pub fn merge_past_innings(entries: &Vec<PastInning>, game_id: &String, live: &mut LiveState)
    ensures
        !has_game(entries@, game_id@) ==> *final(live) == *old(live),
        has_game(entries@, game_id@) ==> *final(live) == (LiveState {
            at_bats: final(live).at_bats,
            ..*old(live)
        }) && first_kept(final(live).at_bats@, old(live).at_bats@ + past_for(entries@, game_id@)),
{
    if !caches_game(entries, game_id) {
        return ;
    }
    let mut past = gather_past(entries, game_id);
    let mut c: Vec<AtBat> = Vec::new();
    std::mem::swap(&mut c, &mut live.at_bats);
    let ghost live_abs = c@;
    let ghost copies = past@;
    c.append(&mut past);
    let r = keep_first(&c);
    proof {
        let target = live_abs + past_for(entries@, game_id@);
        assert(c@ == live_abs + copies);
        assert forall|i: int| 0 <= i < c@.len() implies same_at_bat(#[trigger] c@[i], target[i]) by {
            if i >= live_abs.len() {
                assert(same_at_bat(copies[i - live_abs.len()], past_for(entries@, game_id@)[i
                    - live_abs.len()]));
            }
        }
        lemma_first_kept_same(r@, c@, target);
    }
    live.at_bats = r;
}

/// Stores `at_bats` for `inning` of game `game_id` (see `cache_stored`).
pub fn cache_inning(entries: &mut Vec<PastInning>, game_id: String, inning: u8, at_bats: Vec<AtBat>)
    ensures
        final(entries)@ == cache_stored(old(entries)@, game_id, inning, at_bats),
{
    match inning_entry(entries, &game_id, inning) {
        Some(k) => {
            let id = entries[k].game_id.clone();
            entries.set(k, PastInning { game_id: id, inning, at_bats });
        },
        None => {
            entries.push(PastInning { game_id, inning, at_bats });
        },
    }
}

} // verus!
