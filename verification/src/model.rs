//! The game data the screens show: games, live state of one game with its
//! at-bats, relay lines and pitches, standings and news items.
use vstd::prelude::*;

verus! {

#[derive(Debug, PartialEq)]
pub struct Team {
    /// KBO internal code (`LG`, `HT`, …).
    pub code: String,
    /// Display name.
    pub name: String,
}

impl Clone for Team {
    fn clone(&self) -> (r: Self)
        ensures
            r == *self,
    {
        Team { code: self.code.clone(), name: self.name.clone() }
    }
}

#[derive(Debug, Clone, Copy, PartialEq, Eq, Structural)]
pub enum GameStatus {
    Scheduled,
    Live,
    Final,
    Canceled,
    Suspended,
}

impl GameStatus {
    pub fn is_live(self) -> (b: bool)
        ensures
            b <==> self == GameStatus::Live,
    {
        matches!(self, GameStatus::Live)
    }
}

#[derive(Debug, PartialEq)]
pub struct Game {
    pub id: String,
    /// Start date and time as the source gave it.
    pub start: String,
    pub status: GameStatus,
    /// Status text such as "9회말".
    pub status_label: String,
    pub home: Team,
    pub away: Team,
    pub home_score: Option<u16>,
    pub away_score: Option<u16>,
    /// Starting pitchers; empty until they are announced.
    pub away_starter: String,
    pub home_starter: String,
    /// Ballpark name.
    pub stadium: String,
    /// Broadcast channel; empty once the game is over.
    pub broadcast: String,
}

impl Clone for Game {
    fn clone(&self) -> (r: Self)
        ensures
            r == *self,
    {
        Game {
            id: self.id.clone(),
            start: self.start.clone(),
            status: self.status,
            status_label: self.status_label.clone(),
            home: self.home.clone(),
            away: self.away.clone(),
            home_score: self.home_score,
            away_score: self.away_score,
            away_starter: self.away_starter.clone(),
            home_starter: self.home_starter.clone(),
            stadium: self.stadium.clone(),
            broadcast: self.broadcast.clone(),
        }
    }
}

#[derive(Debug, Clone, Copy, PartialEq, Eq, Structural)]
pub struct BaseState {
    pub first: bool,
    pub second: bool,
    pub third: bool,
}

impl BaseState {
    /// Number of occupied bases.
    pub fn runner_count(self) -> (n: u8)
        ensures
            n == (if self.first { 1int } else { 0 }) + (if self.second { 1int } else { 0 }) + (
            if self.third { 1int } else { 0 }),
    {
        (if self.first { 1u8 } else { 0 }) + (if self.second { 1u8 } else { 0 }) + (if self.third {
            1u8
        } else {
            0
        })
    }
}

#[derive(Debug, Clone, Copy, PartialEq, Eq, Structural)]
pub struct Count {
    pub ball: u8,
    pub strike: u8,
    pub out: u8,
}

#[derive(Debug, Clone, Copy, PartialEq, Eq, Structural)]
pub enum PitchResult {
    Ball,
    StrikeLooking,
    StrikeSwinging,
    Foul,
    InPlay,
    Unknown,
}

impl Default for PitchResult {
    fn default() -> (r: Self)
        ensures
            r == PitchResult::Unknown,
    {
        PitchResult::Unknown
    }
}

/// One pitch of an at-bat. The tracking geometry that the strike-zone view
/// draws (plate crossing, release parameters) is measured in floating point
/// and is kept by the drawing side, not here.
#[derive(Debug, PartialEq)]
pub struct Pitch {
    /// Pitch number within the at-bat (`ballcount`).
    pub order: u8,
    /// Release speed in km/h, when the source measured it.
    pub speed_kmh: Option<u16>,
    pub result: PitchResult,
    /// The relay text that describes the pitch ("1구 파울").
    pub text: String,
    /// `HH:MM:SS` of the pitch, read from its id.
    pub time_hms: Option<String>,
}

impl Clone for Pitch {
    fn clone(&self) -> (r: Self)
        ensures
            r == *self,
    {
        Pitch {
            order: self.order,
            speed_kmh: self.speed_kmh,
            result: self.result,
            text: self.text.clone(),
            time_hms: match &self.time_hms {
                Some(t) => Some(t.clone()),
                None => None,
            },
        }
    }
}

impl Default for Pitch {
    fn default() -> (r: Self)
        ensures
            r.order == 0,
            r.speed_kmh is None,
            r.result == PitchResult::Unknown,
            r.text@ == Seq::<char>::empty(),
            r.time_hms is None,
    {
        Pitch {
            order: 0,
            speed_kmh: None,
            result: PitchResult::Unknown,
            text: String::new(),
            time_hms: None,
        }
    }
}

/// One line of the text relay and the pitch it describes.
#[derive(Debug, PartialEq)]
pub struct RelayLine {
    /// The text as the source gave it.
    pub text: String,
    /// Index, in the same at-bat's pitches, of the pitch this line describes.
    pub pitch_idx: Option<usize>,
    /// The source marked this line as a pitch (whether or not its pitch was
    /// found among the measured ones).
    pub is_pitch: bool,
    /// `HH:MM` of the line; only pitch lines carry a time.
    pub time_hm: Option<String>,
}

impl Clone for RelayLine {
    fn clone(&self) -> (r: Self)
        ensures
            r == *self,
    {
        RelayLine {
            text: self.text.clone(),
            pitch_idx: self.pitch_idx,
            is_pitch: self.is_pitch,
            time_hm: match &self.time_hm {
                Some(t) => Some(t.clone()),
                None => None,
            },
        }
    }
}

impl Default for RelayLine {
    fn default() -> (r: Self)
        ensures
            r.text@ == Seq::<char>::empty(),
            r.pitch_idx is None,
            !r.is_pitch,
            r.time_hm is None,
    {
        RelayLine { text: String::new(), pitch_idx: None, is_pitch: false, time_hm: None }
    }
}

impl RelayLine {
    /// A line that is not a pitch line.
    pub fn plain(text: &str) -> (r: RelayLine)
        ensures
            r.text@ == text@,
            r.pitch_idx is None,
            !r.is_pitch,
            r.time_hm is None,
    {
        RelayLine { text: text.to_string(), pitch_idx: None, is_pitch: false, time_hm: None }
    }
}

/// One at-bat: its relay lines (oldest first) and pitches.
#[derive(Debug, PartialEq)]
pub struct AtBat {
    /// The source's at-bat number, unique over the game.
    pub seq: i64,
    pub batter_name: String,
    /// Half inning ("T9", "B9").
    pub inning_label: String,
    pub relay_lines: Vec<RelayLine>,
    pub pitches: Vec<Pitch>,
}

impl Clone for AtBat {
    fn clone(&self) -> (r: Self)
        ensures
            r.seq == self.seq,
            r.batter_name == self.batter_name,
            r.inning_label == self.inning_label,
            r.relay_lines@ == self.relay_lines@,
            r.pitches@ == self.pitches@,
    {
        let mut lines: Vec<RelayLine> = Vec::new();
        let mut i: usize = 0;
        while i < self.relay_lines.len()
            invariant
                i <= self.relay_lines.len(),
                lines@ == self.relay_lines@.take(i as int),
            decreases self.relay_lines.len() - i,
        {
            lines.push(self.relay_lines[i].clone());
            i += 1;
            assert(self.relay_lines@.take(i as int) == self.relay_lines@.take(i - 1).push(
                self.relay_lines@[i - 1],
            ));
        }
        let mut pitches: Vec<Pitch> = Vec::new();
        let mut j: usize = 0;
        while j < self.pitches.len()
            invariant
                j <= self.pitches.len(),
                pitches@ == self.pitches@.take(j as int),
            decreases self.pitches.len() - j,
        {
            pitches.push(self.pitches[j].clone());
            j += 1;
            assert(self.pitches@.take(j as int) == self.pitches@.take(j - 1).push(
                self.pitches@[j - 1],
            ));
        }
        assert(self.relay_lines@.take(i as int) == self.relay_lines@);
        assert(self.pitches@.take(j as int) == self.pitches@);
        AtBat {
            seq: self.seq,
            batter_name: self.batter_name.clone(),
            inning_label: self.inning_label.clone(),
            relay_lines: lines,
            pitches,
        }
    }
}

impl Default for AtBat {
    fn default() -> (r: Self)
        ensures
            r.seq == 0,
            r.batter_name@ == Seq::<char>::empty(),
            r.inning_label@ == Seq::<char>::empty(),
            r.relay_lines@ == Seq::<RelayLine>::empty(),
            r.pitches@ == Seq::<Pitch>::empty(),
    {
        AtBat {
            seq: 0,
            batter_name: String::new(),
            inning_label: String::new(),
            relay_lines: Vec::new(),
            pitches: Vec::new(),
        }
    }
}

/// One cell of the line score: runs as the source wrote them ("-" for a half
/// inning not played is kept, not read as zero).
#[derive(Debug, Clone, PartialEq)]
pub struct InningCell {
    pub inning: u8,
    pub away: String,
    pub home: String,
}

/// The live state of one game. The win probabilities and the batter's and
/// pitcher's game lines are fractional and are kept by the drawing side.
#[derive(Debug, Clone, PartialEq)]
pub struct LiveState {
    pub inning_label: String,
    pub home: Team,
    pub away: Team,
    pub home_score: u16,
    pub away_score: u16,
    pub count: Count,
    pub bases: BaseState,
    pub pitcher_name: String,
    pub batter_name: String,
    /// Relay lines of the current at-bat (oldest first).
    pub relay_log: Vec<RelayLine>,
    /// Pitches of the current at-bat.
    pub current_pitches: Vec<Pitch>,
    /// Next batter in the batting order; empty when unknown.
    pub next_batter_name: String,
    /// The at-bats the source returned, oldest first. When empty, the
    /// `active_*` helpers fall back to `relay_log` and `current_pitches`.
    pub at_bats: Vec<AtBat>,
    pub inning_score: Vec<InningCell>,
}

/// Index of the first at-bat numbered `seq`.
pub open spec fn first_seq_index(abs: Seq<AtBat>, seq: i64) -> Option<int>
    decreases abs.len(),
{
    if abs.len() == 0 {
        None
    } else if abs[0].seq == seq {
        Some(0)
    } else {
        match first_seq_index(abs.drop_first(), seq) {
            Some(i) => Some(i + 1),
            None => None,
        }
    }
}

pub proof fn lemma_first_seq_index(abs: Seq<AtBat>, seq: i64)
    ensures
        match first_seq_index(abs, seq) {
            Some(i) => 0 <= i < abs.len() && abs[i].seq == seq && forall|j: int|
                0 <= j < i ==> abs[j].seq != seq,
            None => forall|j: int| 0 <= j < abs.len() ==> abs[j].seq != seq,
        },
    decreases abs.len(),
{
    if abs.len() > 0 {
        lemma_first_seq_index(abs.drop_first(), seq);
        if abs[0].seq != seq {
            match first_seq_index(abs.drop_first(), seq) {
                Some(i) => {
                    assert forall|j: int| 0 <= j < i + 1 implies abs[j].seq != seq by {
                        if j > 0 {
                            assert(abs[j] == abs.drop_first()[j - 1]);
                        }
                    }
                },
                None => {
                    assert forall|j: int| 0 <= j < abs.len() implies abs[j].seq != seq by {
                        if j > 0 {
                            assert(abs[j] == abs.drop_first()[j - 1]);
                        }
                    }
                },
            }
        }
    }
}

/// Index of the last relay line at or before `k` that names a pitch.
pub open spec fn carried_pitch(lines: Seq<RelayLine>, k: int) -> Option<usize>
    decreases k + 1,
{
    if k < 0 || k >= lines.len() {
        None
    } else if lines[k].pitch_idx is Some {
        lines[k].pitch_idx
    } else {
        carried_pitch(lines, k - 1)
    }
}

/// Index of the first line that names pitch `p`.
pub open spec fn line_of_pitch(lines: Seq<RelayLine>, p: usize) -> Option<int>
    decreases lines.len(),
{
    if lines.len() == 0 {
        None
    } else if lines[0].pitch_idx == Some(p) {
        Some(0)
    } else {
        match line_of_pitch(lines.drop_first(), p) {
            Some(i) => Some(i + 1),
            None => None,
        }
    }
}

pub proof fn lemma_line_of_pitch(lines: Seq<RelayLine>, p: usize)
    ensures
        match line_of_pitch(lines, p) {
            Some(i) => 0 <= i < lines.len() && lines[i].pitch_idx == Some(p) && forall|j: int|
                0 <= j < i ==> lines[j].pitch_idx != Some(p),
            None => forall|j: int| 0 <= j < lines.len() ==> lines[j].pitch_idx != Some(p),
        },
    decreases lines.len(),
{
    if lines.len() > 0 {
        lemma_line_of_pitch(lines.drop_first(), p);
        if lines[0].pitch_idx != Some(p) {
            match line_of_pitch(lines.drop_first(), p) {
                Some(i) => {
                    assert forall|j: int| 0 <= j < i + 1 implies lines[j].pitch_idx != Some(p) by {
                        if j > 0 {
                            assert(lines[j] == lines.drop_first()[j - 1]);
                        }
                    }
                },
                None => {
                    assert forall|j: int| 0 <= j < lines.len() implies lines[j].pitch_idx != Some(
                        p,
                    ) by {
                        if j > 0 {
                            assert(lines[j] == lines.drop_first()[j - 1]);
                        }
                    }
                },
            }
        }
    }
}

/// The pitch to show for relay line `line`: the line's own pitch, or the
/// nearest pitch above it; none above the first pitch, none on a pitch line
/// without tracking data, and the last line stands for any line past the end.
pub open spec fn pitch_for_line(lines: Seq<RelayLine>, line: int) -> Option<usize> {
    if lines.len() == 0 {
        None
    } else {
        let k = if line < lines.len() - 1 { line } else { lines.len() - 1 };
        if lines[k].is_pitch && lines[k].pitch_idx is None {
            None
        } else {
            carried_pitch(lines, k)
        }
    }
}

impl LiveState {
    /// Index of the at-bat that `sel` designates: the first numbered `sel`,
    /// else the latest; none when there are no at-bats.
    pub open spec fn active_index(&self, sel: Option<i64>) -> Option<int> {
        if self.at_bats@.len() == 0 {
            None
        } else {
            match sel {
                Some(seq) => match first_seq_index(self.at_bats@, seq) {
                    Some(i) => Some(i),
                    None => Some(self.at_bats@.len() - 1),
                },
                None => Some(self.at_bats@.len() - 1),
            }
        }
    }

    pub open spec fn active_lines(&self, sel: Option<i64>) -> Seq<RelayLine> {
        match self.active_index(sel) {
            Some(i) => self.at_bats@[i].relay_lines@,
            None => self.relay_log@,
        }
    }

    pub open spec fn active_pitch_seq(&self, sel: Option<i64>) -> Seq<Pitch> {
        match self.active_index(sel) {
            Some(i) => self.at_bats@[i].pitches@,
            None => self.current_pitches@,
        }
    }

    fn active_at_bat_index(&self, sel: Option<i64>) -> (r: Option<usize>)
        ensures
            match self.active_index(sel) {
                Some(i) => r == Some(i as usize),
                None => r is None,
            },
            r matches Some(i) ==> i < self.at_bats.len(),
            self.active_index(sel) matches Some(i) ==> 0 <= i < self.at_bats@.len(),
    {
        let n = self.at_bats.len();
        if n == 0 {
            return None;
        }
        if let Some(seq) = sel {
            proof {
                lemma_first_seq_index(self.at_bats@, seq);
            }
            let mut i: usize = 0;
            while i < n
                invariant
                    i <= n == self.at_bats.len(),
                    n > 0,
                    sel == Some(seq),
                    forall|j: int| 0 <= j < i ==> self.at_bats@[j].seq != seq,
                decreases n - i,
            {
                if self.at_bats[i].seq == seq {
                    proof {
                        lemma_first_seq_index(self.at_bats@, seq);
                    }
                    return Some(i);
                }
                i += 1;
            }
            proof {
                lemma_first_seq_index(self.at_bats@, seq);
            }
        }
        Some(n - 1)
    }

    /// The at-bat that `sel` designates (see `active_index`).
    pub fn active_at_bat(&self, sel: Option<i64>) -> (r: Option<&AtBat>)
        ensures
            match self.active_index(sel) {
                Some(i) => r == Some(&self.at_bats@[i]),
                None => r is None,
            },
    {
        match self.active_at_bat_index(sel) {
            Some(i) => Some(&self.at_bats[i]),
            None => None,
        }
    }

    /// Whether an at-bat numbered `seq` is in the response.
    pub fn has_at_bat(&self, seq: i64) -> (b: bool)
        ensures
            b <==> exists|i: int| 0 <= i < self.at_bats@.len() && self.at_bats@[i].seq == seq,
    {
        let mut i: usize = 0;
        while i < self.at_bats.len()
            invariant
                i <= self.at_bats.len(),
                forall|j: int| 0 <= j < i ==> self.at_bats@[j].seq != seq,
            decreases self.at_bats.len() - i,
        {
            if self.at_bats[i].seq == seq {
                return true;
            }
            i += 1;
        }
        false
    }

    /// The pitches to draw: those of the designated at-bat, else the current ones.
    pub fn active_pitches(&self, sel: Option<i64>) -> (r: &[Pitch])
        ensures
            r@ == self.active_pitch_seq(sel),
    {
        match self.active_at_bat_index(sel) {
            Some(i) => {
                self.at_bats[i].pitches.as_slice()
            },
            None => self.current_pitches.as_slice(),
        }
    }

    /// The relay lines to draw: those of the designated at-bat, else the relay log.
    pub fn active_relay_lines(&self, sel: Option<i64>) -> (r: &[RelayLine])
        ensures
            r@ == self.active_lines(sel),
    {
        match self.active_at_bat_index(sel) {
            Some(i) => self.at_bats[i].relay_lines.as_slice(),
            None => self.relay_log.as_slice(),
        }
    }

    /// Relay line to pitch: the pitch to show while line `line` is read.
    pub fn pitch_at_relay_line(&self, sel: Option<i64>, line: usize) -> (r: Option<usize>)
        ensures
            r == pitch_for_line(self.active_lines(sel), line as int),
    {
        let lines = self.active_relay_lines(sel);
        if lines.len() == 0 {
            return None;
        }
        let last = lines.len() - 1;
        let k = if line < last { line } else { last };
        if lines[k].is_pitch && lines[k].pitch_idx.is_none() {
            return None;
        }
        let mut j: usize = k + 1;
        assert(pitch_for_line(lines@, line as int) == carried_pitch(lines@, k as int));
        while j > 0
            invariant
                j <= k + 1 <= lines.len(),
                lines@ == self.active_lines(sel),
                pitch_for_line(lines@, line as int) == carried_pitch(lines@, j - 1),
            decreases j,
        {
            if lines[j - 1].pitch_idx.is_some() {
                return lines[j - 1].pitch_idx;
            }
            j -= 1;
        }
        None
    }

    /// Pitch to relay line: the first line that describes pitch `pitch`.
    pub fn relay_line_of_pitch(&self, sel: Option<i64>, pitch: usize) -> (r: Option<usize>)
        ensures
            match line_of_pitch(self.active_lines(sel), pitch) {
                Some(i) => r == Some(i as usize),
                None => r is None,
            },
    {
        let lines = self.active_relay_lines(sel);
        proof {
            lemma_line_of_pitch(lines@, pitch);
        }
        let mut i: usize = 0;
        while i < lines.len()
            invariant
                i <= lines.len(),
                lines@ == self.active_lines(sel),
                forall|j: int| 0 <= j < i ==> lines@[j].pitch_idx != Some(pitch),
            decreases lines.len() - i,
        {
            if lines[i].pitch_idx == Some(pitch) {
                proof {
                    lemma_line_of_pitch(lines@, pitch);
                }
                return Some(i);
            }
            i += 1;
        }
        None
    }

    /// Whether no two at-bats share a number.
    pub fn has_unique_at_bat_seqs(&self) -> (b: bool)
        ensures
            b <==> forall|i: int, j: int|
                0 <= i < j < self.at_bats@.len() ==> self.at_bats@[i].seq != self.at_bats@[j].seq,
    {
        let n = self.at_bats.len();
        let mut i: usize = 0;
        while i < n
            invariant
                i <= n == self.at_bats.len(),
                forall|a: int, b: int| 0 <= a < i && a < b < n ==> self.at_bats@[a].seq != self.at_bats@[b].seq,
            decreases n - i,
        {
            let mut j: usize = i + 1;
            while j < n
                invariant
                    i < j <= n == self.at_bats.len(),
                    forall|b: int| i < b < j ==> self.at_bats@[i as int].seq != self.at_bats@[b].seq,
                decreases n - j,
            {
                if self.at_bats[i].seq == self.at_bats[j].seq {
                    return false;
                }
                j += 1;
            }
            i += 1;
        }
        true
    }
}

/// Selecting a pitch puts the relay cursor on the line that describes it, and
/// reading that line shows the same pitch again.
pub proof fn law_pitch_line_round_trip(s: LiveState, sel: Option<i64>, p: usize)
    requires
        line_of_pitch(s.active_lines(sel), p) is Some,
    ensures
        pitch_for_line(
            s.active_lines(sel),
            line_of_pitch(s.active_lines(sel), p).unwrap(),
        ) == Some(p),
{
    let lines = s.active_lines(sel);
    lemma_line_of_pitch(lines, p);
}

/// A KBO news headline with its excerpt.
#[derive(Debug, PartialEq)]
pub struct NewsItem {
    pub title: String,
    /// Publisher name; empty when unknown.
    pub source: String,
    /// Link to the article; empty when there is none.
    pub url: String,
    /// Excerpt shown in the app, never the full text.
    pub summary: String,
    /// Sortable KST `YYYYMMDDHHMMSS`; empty when the date could not be read.
    pub published: String,
}

impl Clone for NewsItem {
    fn clone(&self) -> (r: Self)
        ensures
            r == *self,
    {
        NewsItem {
            title: self.title.clone(),
            source: self.source.clone(),
            url: self.url.clone(),
            summary: self.summary.clone(),
            published: self.published.clone(),
        }
    }
}

/// One row of the standings. Win rate, games behind and the season's rate
/// statistics are fractional and are kept by the drawing side.
#[derive(Debug, PartialEq)]
pub struct Standing {
    pub rank: u16,
    pub team: Team,
    pub games: u16,
    pub wins: u16,
    pub losses: u16,
    pub draws: u16,
    /// The last five results, latest on the right ("WWLDW").
    pub last_five: String,
    /// The current streak as the source wrote it ("3승").
    pub streak: String,
}

impl Clone for Standing {
    fn clone(&self) -> (r: Self)
        ensures
            r == *self,
    {
        Standing {
            rank: self.rank,
            team: self.team.clone(),
            games: self.games,
            wins: self.wins,
            losses: self.losses,
            draws: self.draws,
            last_five: self.last_five.clone(),
            streak: self.streak.clone(),
        }
    }
}

} // verus!
