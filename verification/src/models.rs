//! The scores and events the parsers produce.
//!
//! Floating-point quantities of the feed (overs bowled, run rates) are kept
//! here as the numbers they are computed from; turning them into floats is
//! left to the caller.
use vstd::prelude::*;
use crate::json::JsonNumber;

verus! {

/// The state of a match.
#[derive(Clone, Copy, Debug, PartialEq, Eq, Structural)]
pub enum MatchStatus {
    Live,
    Break,
    NoMatch,
    Scheduled,
    Completed,
}

/// The sport of a match.
#[derive(Clone, Copy, Debug, PartialEq, Eq, Structural)]
pub enum SportType {
    Cricket,
    Soccer,
}

/// The kind of a match event.
#[derive(Clone, Copy, Debug, PartialEq, Eq, Structural)]
pub enum MatchEventType {
    Wicket,
    Boundary,
    Win,
}

/// One side of a match.
#[derive(Debug)]
pub struct TeamScore {
    pub id: String,
    pub name: String,
    pub abbreviation: String,
    pub score: String,
    pub runs: u32,
    pub wickets: u32,
    /// The feed's number of overs bowled; `None` stands for no overs.
    pub overs: Option<JsonNumber>,
    pub is_batting: bool,
    pub is_winner: bool,
}

/// What the current run rate is computed from.
#[derive(Clone, Copy, Debug, PartialEq, Eq, Structural)]
pub enum RunRate {
    /// No side is batting: the rate is zero.
    Zero,
    /// Runs scored per six balls, over the given runs and overs.
    Of { runs: u32, overs: Option<JsonNumber> },
}

/// What the required run rate is computed from.
#[derive(Clone, Copy, Debug, PartialEq, Eq, Structural)]
pub enum RequiredRate {
    /// The target is reached: the rate is zero.
    Zero,
    /// Runs still needed per six of the balls left, where the innings has
    /// `limited_overs` overs (`None` stands for 50) and `overs` are bowled.
    Of { runs_needed: u32, limited_overs: Option<JsonNumber>, overs: Option<JsonNumber> },
}

/// The score of a match.
#[derive(Debug)]
pub struct MatchScore {
    pub match_id: String,
    pub series_id: String,
    pub match_title: String,
    pub status: MatchStatus,
    pub team1: TeamScore,
    pub team2: TeamScore,
    /// 1 when the first side bats, 2 when the second does, 0 otherwise.
    pub batting_team: u8,
    pub crr: RunRate,
    pub rrr: Option<RequiredRate>,
    pub target: Option<u32>,
    pub runs_needed: Option<u32>,
    pub timestamp: u64,
    pub sport: SportType,
    pub soccer_clock: Option<String>,
}

/// Where the overs of a line of commentary are read from: `text` read as a
/// floating-point number when it is one, else `number`, else no overs.
#[derive(Debug)]
pub struct OversReading {
    pub text: Option<String>,
    pub number: Option<JsonNumber>,
}

/// The parts of the score shown with an event: the batting side, its score,
/// and the overs.
#[derive(Debug)]
pub struct ScoreLine {
    pub team: String,
    pub score: String,
    pub overs: OversReading,
}

/// The score shown with an event.
#[derive(Debug)]
pub enum EventScore {
    Text(String),
    Line(ScoreLine),
}

/// A notable moment of a match: a wicket, a boundary, a goal, a red card or
/// the result.
#[derive(Debug)]
pub struct MatchEvent {
    pub event_type: MatchEventType,
    pub title: String,
    pub description: String,
    pub score: EventScore,
    pub sport: String,
}

/// A match found on a scoreboard: series id, match id, title, status,
/// league name and start time.
pub type MatchRow = (String, String, String, String, String, String);

/// A match found on a scoreboard, as texts.
pub type RowView = (Seq<char>, Seq<char>, Seq<char>, Seq<char>, Seq<char>, Seq<char>);

/// The texts of a scoreboard row.
pub open spec fn row_view(r: MatchRow) -> RowView {
    (r.0@, r.1@, r.2@, r.3@, r.4@, r.5@)
}

/// The texts of scoreboard rows.
pub open spec fn rows_view(rs: Seq<MatchRow>) -> Seq<RowView> {
    rs.map_values(|r: MatchRow| row_view(r))
}

/// A side of a match, as texts and numbers.
pub struct TeamScoreView {
    pub id: Seq<char>,
    pub name: Seq<char>,
    pub abbreviation: Seq<char>,
    pub score: Seq<char>,
    pub runs: u32,
    pub wickets: u32,
    pub overs: Option<JsonNumber>,
    pub is_batting: bool,
    pub is_winner: bool,
}

impl View for TeamScore {
    type V = TeamScoreView;

    open spec fn view(&self) -> TeamScoreView {
        TeamScoreView {
            id: self.id@,
            name: self.name@,
            abbreviation: self.abbreviation@,
            score: self.score@,
            runs: self.runs,
            wickets: self.wickets,
            overs: self.overs,
            is_batting: self.is_batting,
            is_winner: self.is_winner,
        }
    }
}

/// The texts of an optional string.
pub open spec fn opt_view(o: Option<String>) -> Option<Seq<char>> {
    match o {
        Some(s) => Some(s@),
        None => None,
    }
}

/// The score of a match, as texts and numbers.
pub struct MatchScoreView {
    pub match_id: Seq<char>,
    pub series_id: Seq<char>,
    pub match_title: Seq<char>,
    pub status: MatchStatus,
    pub team1: TeamScoreView,
    pub team2: TeamScoreView,
    pub batting_team: u8,
    pub crr: RunRate,
    pub rrr: Option<RequiredRate>,
    pub target: Option<u32>,
    pub runs_needed: Option<u32>,
    pub timestamp: u64,
    pub sport: SportType,
    pub soccer_clock: Option<Seq<char>>,
}

impl View for MatchScore {
    type V = MatchScoreView;

    open spec fn view(&self) -> MatchScoreView {
        MatchScoreView {
            match_id: self.match_id@,
            series_id: self.series_id@,
            match_title: self.match_title@,
            status: self.status,
            team1: self.team1@,
            team2: self.team2@,
            batting_team: self.batting_team,
            crr: self.crr,
            rrr: self.rrr,
            target: self.target,
            runs_needed: self.runs_needed,
            timestamp: self.timestamp,
            sport: self.sport,
            soccer_clock: opt_view(self.soccer_clock),
        }
    }
}

/// Where the overs of a line of commentary are read from, as texts.
pub struct OversReadingView {
    pub text: Option<Seq<char>>,
    pub number: Option<JsonNumber>,
}

impl View for OversReading {
    type V = OversReadingView;

    open spec fn view(&self) -> OversReadingView {
        OversReadingView { text: opt_view(self.text), number: self.number }
    }
}

/// The parts of the score shown with an event, as texts.
pub struct ScoreLineView {
    pub team: Seq<char>,
    pub score: Seq<char>,
    pub overs: OversReadingView,
}

impl View for ScoreLine {
    type V = ScoreLineView;

    open spec fn view(&self) -> ScoreLineView {
        ScoreLineView { team: self.team@, score: self.score@, overs: self.overs@ }
    }
}

/// The score shown with an event, as texts.
pub enum EventScoreView {
    Text(Seq<char>),
    Line(ScoreLineView),
}

impl View for EventScore {
    type V = EventScoreView;

    open spec fn view(&self) -> EventScoreView {
        match self {
            EventScore::Text(s) => EventScoreView::Text(s@),
            EventScore::Line(l) => EventScoreView::Line(l@),
        }
    }
}

/// A match event, as texts.
pub struct MatchEventView {
    pub event_type: MatchEventType,
    pub title: Seq<char>,
    pub description: Seq<char>,
    pub score: EventScoreView,
    pub sport: Seq<char>,
}

impl View for MatchEvent {
    type V = MatchEventView;

    open spec fn view(&self) -> MatchEventView {
        MatchEventView {
            event_type: self.event_type,
            title: self.title@,
            description: self.description@,
            score: self.score@,
            sport: self.sport@,
        }
    }
}

/// The texts of an optional event.
pub open spec fn event_view(o: Option<MatchEvent>) -> Option<MatchEventView> {
    match o {
        Some(e) => Some(e@),
        None => None,
    }
}

/// The texts and numbers of an optional score.
pub open spec fn score_view(o: Option<MatchScore>) -> Option<MatchScoreView> {
    match o {
        Some(s) => Some(s@),
        None => None,
    }
}

/// The texts of rows with one more row pushed.
pub proof fn lemma_rows_view_push(rs: Seq<MatchRow>, r: MatchRow)
    ensures
        rows_view(rs.push(r)) == rows_view(rs).push(row_view(r)),
{
    assert(rows_view(rs.push(r)) =~= rows_view(rs).push(row_view(r)));
}

} // verus!
