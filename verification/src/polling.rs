//! The decisions of the polling loop: which match to follow, where to fetch
//! it, when to poll again, and when a result is announced.
use vstd::prelude::*;
use crate::models::{
    opt_view, row_view, EventScore, EventScoreView, MatchEvent, MatchEventType, MatchEventView,
    MatchRow, MatchScore, MatchScoreView, MatchStatus, RowView,
};
use crate::cricket::{detail_panics, match_detail, parse_match_detail};
use crate::events::{latest_event, parse_latest_event, parse_soccer_latest_event, soccer_latest_event};
use crate::json::JsonValue;
use crate::models::event_view;
use crate::soccer::{parse_soccer_match_detail, soccer_detail};
use crate::text::same_text;

verus! {

/// A match to follow: sport, series id and match id.
pub type TrackedMatch = (String, String, String);

/// A match to follow, as texts.
pub type TrackedView = (Seq<char>, Seq<char>, Seq<char>);

/// A match on the scoreboards: sport, series id, match id, title, status and
/// league name.
pub type DiscoveredMatch = (String, String, String, String, String, String);

/// The texts of a match to follow.
pub open spec fn tracked_view(t: TrackedMatch) -> TrackedView {
    (t.0@, t.1@, t.2@)
}

/// The texts of an optional match to follow.
pub open spec fn opt_tracked_view(o: Option<TrackedMatch>) -> Option<TrackedView> {
    match o {
        Some(t) => Some(tracked_view(t)),
        None => None,
    }
}

/// The texts of a match on the scoreboards.
pub open spec fn discovered_view(d: DiscoveredMatch) -> RowView {
    (d.0@, d.1@, d.2@, d.3@, d.4@, d.5@)
}

/// The texts of matches on the scoreboards.
pub open spec fn discovered_views(ds: Seq<DiscoveredMatch>) -> Seq<RowView> {
    ds.map_values(|d: DiscoveredMatch| discovered_view(d))
}

/// The scoreboard entry of a match row of the given sport: the sport
/// followed by the row's series id, match id, title, status and league.
pub open spec fn entry_view(sport: Seq<char>, r: RowView) -> RowView {
    (sport, r.0, r.1, r.2, r.3, r.4)
}

/// The scoreboard entries of rows of the given sport.
pub open spec fn entries_view(sport: Seq<char>, rs: Seq<RowView>) -> Seq<RowView> {
    rs.map_values(|r: RowView| entry_view(sport, r))
}

fn push_entries(out: &mut Vec<DiscoveredMatch>, sport: &str, rows: &Vec<MatchRow>)
    ensures
        discovered_views(final(out)@) == discovered_views(old(out)@) + entries_view(
            sport@,
            rows@.map_values(|r: MatchRow| row_view(r)),
        ),
{
    let n = rows.len();
    let ghost start = discovered_views(out@);
    for i in 0..n
        invariant
            n == rows.len(),
            discovered_views(out@) == start + entries_view(
                sport@,
                rows@.take(i as int).map_values(|r: MatchRow| row_view(r)),
            ),
    {
        let r = &rows[i];
        let d: DiscoveredMatch = (
            sport.to_owned(),
            r.0.clone(),
            r.1.clone(),
            r.2.clone(),
            r.3.clone(),
            r.4.clone(),
        );
        let ghost before = out@;
        out.push(d);
        assert(discovered_views(out@) =~= discovered_views(before).push(discovered_view(d)));
        assert(rows@.take(i + 1).map_values(|r: MatchRow| row_view(r)) =~= rows@.take(
            i as int,
        ).map_values(|r: MatchRow| row_view(r)).push(row_view(rows@[i as int])));
        assert(entries_view(sport@, rows@.take(i + 1).map_values(|r: MatchRow| row_view(r)))
            =~= entries_view(sport@, rows@.take(i as int).map_values(|r: MatchRow| row_view(r))).push(
            entry_view(sport@, row_view(rows@[i as int])),
        ));
    }
    assert(rows@.take(n as int) =~= rows@);
}

/// The matches on the scoreboards: the cricket rows, then the football rows,
/// each with its sport in front.
pub fn discover_matches(cricket: &Vec<MatchRow>, soccer: &Vec<MatchRow>) -> (r: Vec<DiscoveredMatch>)
    ensures
        discovered_views(r@) == entries_view(
            "cricket"@,
            cricket@.map_values(|x: MatchRow| row_view(x)),
        ) + entries_view("soccer"@, soccer@.map_values(|x: MatchRow| row_view(x))),
{
    let mut out: Vec<DiscoveredMatch> = Vec::new();
    assert(discovered_views(out@) =~= Seq::<RowView>::empty());
    push_entries(&mut out, "cricket", cricket);
    push_entries(&mut out, "soccer", soccer);
    out
}

/// The match to follow: the one chosen, else the first on the scoreboards.
pub open spec fn tracked_match(selected: Option<TrackedView>, discovered: Seq<RowView>) -> Option<
    TrackedView,
> {
    match selected {
        Some(t) => Some(t),
        None => if discovered.len() > 0 {
            Some((discovered[0].0, discovered[0].1, discovered[0].2))
        } else {
            None
        },
    }
}

/// The match to follow: the one chosen, else the first on the scoreboards.
pub fn match_to_track(selected: &Option<TrackedMatch>, discovered: &Vec<DiscoveredMatch>) -> (r:
    Option<TrackedMatch>)
    ensures
        opt_tracked_view(r) == tracked_match(opt_tracked_view(*selected), discovered_views(discovered@)),
{
    match selected {
        Some(t) => Some((t.0.clone(), t.1.clone(), t.2.clone())),
        None => if discovered.len() > 0 {
            let d = &discovered[0];
            Some((d.0.clone(), d.1.clone(), d.2.clone()))
        } else {
            None
        },
    }
}

/// The address of the summary of a match.
pub open spec fn summary_url(sport: Seq<char>, series_id: Seq<char>, match_id: Seq<char>) -> Seq<
    char,
> {
    "https://site.api.espn.com/apis/site/v2/sports/"@ + sport + "/"@ + series_id
        + "/summary?event="@ + match_id
}

/// The address of the summary of a match.
pub fn detail_url(sport: &str, series_id: &str, match_id: &str) -> (r: String)
    ensures
        r@ == summary_url(sport@, series_id@, match_id@),
{
    let mut r = "https://site.api.espn.com/apis/site/v2/sports/".to_owned();
    r.append(sport);
    r.append("/");
    r.append(series_id);
    r.append("/summary?event=");
    r.append(match_id);
    r
}

/// Seconds to wait before polling again after a score of the given status:
/// 1 for a live match, 30 in a break or before the start, 300
/// after the end or with no match.
pub open spec fn poll_delay(status: MatchStatus) -> u64 {
    match status {
        MatchStatus::Live => 1,
        MatchStatus::Break => 30,
        MatchStatus::Scheduled => 30,
        MatchStatus::Completed => 300,
        MatchStatus::NoMatch => 300,
    }
}

/// Seconds to wait before polling again after a score of the given status.
pub fn poll_delay_secs(status: MatchStatus) -> (r: u64)
    ensures
        r == poll_delay(status),
{
    match status {
        MatchStatus::Live => 1,
        MatchStatus::Break => 30,
        MatchStatus::Scheduled => 30,
        MatchStatus::Completed => 300,
        MatchStatus::NoMatch => 300,
    }
}

/// Seconds to wait before polling again when there is no match to follow.
pub const IDLE_DELAY_SECS: u64 = 300;

/// Seconds to wait before polling again when a summary could not be read.
pub const DEFAULT_DELAY_SECS: u64 = 300;

/// Seconds to wait before the next poll: the idle delay when there is no
/// match to follow, the delay for the status of the score read when there is
/// one, and the default delay when the followed match's summary gave none.
pub open spec fn next_delay(following: bool, parsed: Option<MatchStatus>) -> u64 {
    if !following {
        IDLE_DELAY_SECS
    } else {
        match parsed {
            Some(s) => poll_delay(s),
            None => DEFAULT_DELAY_SECS,
        }
    }
}

/// Seconds to wait before the next poll (see `next_delay`).
pub fn next_delay_secs(following: bool, parsed: Option<MatchStatus>) -> (r: u64)
    ensures
        r == next_delay(following, parsed),
{
    if !following {
        IDLE_DELAY_SECS
    } else {
        match parsed {
            Some(s) => poll_delay_secs(s),
            None => DEFAULT_DELAY_SECS,
        }
    }
}

/// What the polling loop remembers between polls: the key of the ball (or
/// id of the key event) seen last, the match followed last, and the match
/// last seen completed.
#[derive(Debug)]
pub struct PollState {
    pub last_ball_id: Option<String>,
    pub last_tracked_match_id: Option<String>,
    pub last_completed_match_id: Option<String>,
}

/// What the polling loop remembers, as texts.
pub struct PollStateView {
    pub last_ball_id: Option<Seq<char>>,
    pub last_tracked_match_id: Option<Seq<char>>,
    pub last_completed_match_id: Option<Seq<char>>,
}

impl View for PollState {
    type V = PollStateView;

    open spec fn view(&self) -> PollStateView {
        PollStateView {
            last_ball_id: opt_view(self.last_ball_id),
            last_tracked_match_id: opt_view(self.last_tracked_match_id),
            last_completed_match_id: opt_view(self.last_completed_match_id),
        }
    }
}

/// The state after the first score of a match not followed before: the
/// match is followed from now, no ball has been seen of it, and it counts as
/// seen completed when that score is completed. A match already followed
/// leaves the state as it is.
pub open spec fn follow(st: PollStateView, match_id: Seq<char>, status: MatchStatus) -> PollStateView {
    if st.last_tracked_match_id != Some(match_id) {
        PollStateView {
            last_ball_id: None,
            last_tracked_match_id: Some(match_id),
            last_completed_match_id: if status == MatchStatus::Completed {
                Some(match_id)
            } else {
                None
            },
        }
    } else {
        st
    }
}

/// The announcement of the result of a match: the winning side and the two
/// abbreviations; none when neither side has won.
pub open spec fn win_event(score: MatchScoreView, sport: Seq<char>) -> Option<MatchEventView> {
    let winner = if score.team1.is_winner {
        Some(score.team1.name)
    } else if score.team2.is_winner {
        Some(score.team2.name)
    } else {
        None
    };
    match winner {
        Some(w) => Some(
            MatchEventView {
                event_type: MatchEventType::Win,
                title: "MATCH WON!"@,
                description: w + " won the match!"@,
                score: EventScoreView::Text(
                    score.team1.abbreviation + " vs "@ + score.team2.abbreviation,
                ),
                sport,
            },
        ),
        None => None,
    }
}

/// What a fetched score of the followed match does: the next state, and the
/// result to announce, when the match has just been seen completing.
pub open spec fn observe(
    st: PollStateView,
    match_id: Seq<char>,
    sport: Seq<char>,
    score: MatchScoreView,
) -> (PollStateView, Option<MatchEventView>) {
    let s1 = follow(st, match_id, score.status);
    if score.status == MatchStatus::Completed && s1.last_completed_match_id != Some(match_id) {
        (PollStateView { last_completed_match_id: Some(match_id), ..s1 }, win_event(score, sport))
    } else {
        (s1, None)
    }
}

/// The texts of an optional event.
pub open spec fn opt_event_view(o: Option<MatchEvent>) -> Option<MatchEventView> {
    match o {
        Some(e) => Some(e@),
        None => None,
    }
}

impl PollState {
    /// A state in which nothing has been seen.
    pub fn new() -> (r: PollState)
        ensures
            r@ == (PollStateView {
                last_ball_id: None,
                last_tracked_match_id: None,
                last_completed_match_id: None,
            }),
    {
        PollState { last_ball_id: None, last_tracked_match_id: None, last_completed_match_id: None }
    }

    /// Takes in a fetched score of the followed match `match_id`, and gives
    /// the result to announce, if the match has just been seen completing.
    pub fn observe_score(&mut self, match_id: &str, sport: &str, score: &MatchScore) -> (r: Option<
        MatchEvent,
    >)
        ensures
            final(self)@ == observe(old(self)@, match_id@, sport@, score@).0,
            opt_event_view(r) == observe(old(self)@, match_id@, sport@, score@).1,
    {
        let first = match &self.last_tracked_match_id {
            Some(t) => !same_text(t.as_str(), match_id),
            None => true,
        };
        if first {
            self.last_tracked_match_id = Some(match_id.to_owned());
            self.last_ball_id = None;
            self.last_completed_match_id = if score.status == MatchStatus::Completed {
                Some(match_id.to_owned())
            } else {
                None
            };
        }
        let seen_completed = match &self.last_completed_match_id {
            Some(c) => same_text(c.as_str(), match_id),
            None => false,
        };
        if score.status == MatchStatus::Completed && !seen_completed {
            self.last_completed_match_id = Some(match_id.to_owned());
            let winner = if score.team1.is_winner {
                Some(score.team1.name.clone())
            } else if score.team2.is_winner {
                Some(score.team2.name.clone())
            } else {
                None
            };
            match winner {
                Some(w) => {
                    let mut description = w;
                    description.append(" won the match!");
                    let mut line = score.team1.abbreviation.clone();
                    line.append(" vs ");
                    line.append(score.team2.abbreviation.as_str());
                    Some(
                        MatchEvent {
                            event_type: MatchEventType::Win,
                            title: "MATCH WON!".to_owned(),
                            description,
                            score: EventScore::Text(line),
                            sport: sport.to_owned(),
                        },
                    )
                },
                None => None,
            }
        } else {
            None
        }
    }
}

/// The result of a match is announced at most once: once a completed score
/// of a match has been taken in, a further completed score of the same match
/// announces nothing.
pub proof fn lemma_result_announced_once(
    st: PollStateView,
    match_id: Seq<char>,
    sport: Seq<char>,
    first: MatchScoreView,
    sport2: Seq<char>,
    second: MatchScoreView,
)
    requires
        first.status == MatchStatus::Completed,
        second.status == MatchStatus::Completed,
    ensures
        observe(observe(st, match_id, sport, first).0, match_id, sport2, second).1 is None,
{
}

/// A match first seen already completed is not announced, and following a
/// new match starts with no ball seen.
pub proof fn lemma_new_match(st: PollStateView, match_id: Seq<char>, sport: Seq<char>, score: MatchScoreView)
    requires
        st.last_tracked_match_id != Some(match_id),
    ensures
        observe(st, match_id, sport, score).1 is None,
        observe(st, match_id, sport, score).0.last_ball_id is None,
        observe(st, match_id, sport, score).0.last_tracked_match_id == Some(match_id),
{
}

/// A match that has just been seen completing, with a winner, is announced
/// with the winner's name.
pub proof fn lemma_result_announced(st: PollStateView, match_id: Seq<char>, sport: Seq<char>, score: MatchScoreView)
    requires
        st.last_tracked_match_id == Some(match_id),
        st.last_completed_match_id != Some(match_id),
        score.status == MatchStatus::Completed,
        score.team1.is_winner || score.team2.is_winner,
    ensures
        observe(st, match_id, sport, score).1 matches Some(e) && e.event_type == MatchEventType::Win
            && e.description == (if score.team1.is_winner {
            score.team1.name
        } else {
            score.team2.name
        }) + " won the match!"@,
{
}

/// Live matches are polled every second, more often than paused or
/// upcoming ones, and those more often than finished ones or none; no
/// delay is shorter than a second, and with no match to follow the
/// scoreboards are checked every five minutes.
pub proof fn lemma_poll_delay_order()
    ensures
        poll_delay(MatchStatus::Live) == 1,
        poll_delay(MatchStatus::Live) < poll_delay(MatchStatus::Break),
        poll_delay(MatchStatus::Break) == poll_delay(MatchStatus::Scheduled),
        poll_delay(MatchStatus::Scheduled) < poll_delay(MatchStatus::Completed),
        poll_delay(MatchStatus::Completed) == poll_delay(MatchStatus::NoMatch),
        forall|f: bool, p: Option<MatchStatus>| #[trigger] next_delay(f, p) >= 1,
        forall|p: Option<MatchStatus>| #[trigger] next_delay(false, p) == 300,
{
}

/// A match the user chose is followed whatever the scoreboards list; with
/// no choice the first match listed is followed, and with neither there is
/// no match to follow.
pub proof fn lemma_choice_is_followed(chosen: TrackedView, discovered: Seq<RowView>)
    ensures
        tracked_match(Some(chosen), discovered) == Some(chosen),
        discovered.len() > 0 ==> tracked_match(None, discovered) == Some(
            (discovered[0].0, discovered[0].1, discovered[0].2),
        ),
        tracked_match(None, Seq::<RowView>::empty()) is None,
{
}

/// The score the summary of a match of the given sport gives, read at
/// `timestamp`: a football summary for "soccer", a cricket one otherwise.
pub open spec fn detail_for(
    sport: Seq<char>,
    value: JsonValue,
    series_id: Seq<char>,
    match_id: Seq<char>,
    timestamp: u64,
) -> Option<MatchScoreView> {
    if sport == "soccer"@ {
        soccer_detail(value, series_id, match_id, timestamp)
    } else {
        match_detail(value, series_id, match_id, timestamp)
    }
}

/// The score the summary of a match of the given sport gives, stamped with
/// the time it is read.
pub fn parse_detail_for(sport: &str, value: &JsonValue, series_id: &str, match_id: &str) -> (r:
    Option<MatchScore>)
    requires
        sport@ == "soccer"@ || !detail_panics(*value),
    ensures
        match r {
            Some(m) => detail_for(sport@, *value, series_id@, match_id@, m.timestamp) == Some(m@),
            None => detail_for(sport@, *value, series_id@, match_id@, 0) is None,
        },
{
    if same_text(sport, "soccer") {
        parse_soccer_match_detail(value, series_id, match_id)
    } else {
        parse_match_detail(value, series_id, match_id)
    }
}

/// The event the summary of a match of the given sport makes, and the
/// key of the ball (or id of the key event) seen last afterwards.
pub open spec fn event_for(sport: Seq<char>, value: JsonValue, last: Option<Seq<char>>) -> (
    Option<MatchEventView>,
    Option<Seq<char>>,
) {
    if sport == "soccer"@ {
        soccer_latest_event(value, last)
    } else {
        latest_event(value, last)
    }
}

/// The event the summary of a match of the given sport makes, if it is one
/// not seen before; `last_id` is moved on as `event_for` says.
pub fn parse_event_for(sport: &str, value: &JsonValue, last_id: &mut Option<String>) -> (r: Option<
    MatchEvent,
>)
    ensures
        event_view(r) == event_for(sport@, *value, opt_view(*old(last_id))).0,
        opt_view(*final(last_id)) == event_for(sport@, *value, opt_view(*old(last_id))).1,
{
    if same_text(sport, "soccer") {
        parse_soccer_latest_event(value, last_id)
    } else {
        parse_latest_event(value, last_id)
    }
}

} // verus!
