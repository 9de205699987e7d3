//! Reading cricket scoreboards and match summaries.
use vstd::prelude::*;
use crate::json::{
    array_field, field_items, field_numeric, field_text, field_true, field_unsigned, number_field,
    or_text, or_zero, str_field, str_field_or, true_field, u64_field, JsonNumber, JsonValue,
};
use crate::models::{
    lemma_rows_view_push, rows_view, MatchRow, MatchScore, MatchScoreView, MatchStatus, RequiredRate,
    RowView, RunRate, SportType, TeamScore, TeamScoreView,
};
use crate::clock::unix_time_now;
use crate::text::{
    begins_with, chars_of, contains, holds, lowercase, same_text, starts_with, to_lowercase,
};

verus! {

/// Whether an innings is marked as the current one: its `isCurrent` member is
/// `true` or the integer 1.
pub open spec fn is_current(l: JsonValue) -> bool {
    field_true(l, "isCurrent"@) || field_unsigned(l, "isCurrent"@) == Some(1u64)
}

/// The first innings of `ls` marked as current.
pub open spec fn first_current(ls: Seq<JsonValue>) -> Option<JsonValue>
    decreases ls.len(),
{
    if ls.len() == 0 {
        None
    } else if is_current(ls[0]) {
        Some(ls[0])
    } else {
        first_current(ls.drop_first())
    }
}

/// The innings a side is in: the first one marked current, else the last.
pub open spec fn active_innings(ls: Seq<JsonValue>) -> Option<JsonValue> {
    match first_current(ls) {
        Some(l) => Some(l),
        None => if ls.len() > 0 {
            Some(ls.last())
        } else {
            None
        },
    }
}

/// The active innings among a competitor's `linescores`.
pub open spec fn competitor_innings(comp: JsonValue) -> Option<JsonValue> {
    match field_items(comp, "linescores"@) {
        Some(ls) => active_innings(ls),
        None => None,
    }
}

/// A side of a cricket match as the summary gives it: names from its
/// `team`, and runs, wickets, overs, batting and score text from its active
/// innings where it has one.
pub open spec fn competitor_view(comp: JsonValue) -> TeamScoreView {
    let team = comp.field("team"@)->0;
    let base_score = or_text(field_text(comp, "score"@), "Yet to bat"@);
    let innings = competitor_innings(comp);
    TeamScoreView {
        id: or_text(field_text(team, "id"@), ""@),
        name: or_text(field_text(team, "displayName"@), ""@),
        abbreviation: or_text(field_text(team, "abbreviation"@), ""@),
        score: match innings {
            Some(l) => or_text(field_text(l, "score"@), base_score),
            None => base_score,
        },
        runs: match innings {
            Some(l) => or_zero(field_unsigned(l, "runs"@)) as u32,
            None => 0,
        },
        wickets: match innings {
            Some(l) => or_zero(field_unsigned(l, "wickets"@)) as u32,
            None => 0,
        },
        overs: match innings {
            Some(l) => field_numeric(l, "overs"@),
            None => None,
        },
        is_batting: match innings {
            Some(l) => field_true(l, "isBatting"@),
            None => false,
        },
        is_winner: field_true(comp, "winner"@),
    }
}

/// The target a side chases: the non-zero `target` of its active innings
/// (read as a `u32`).
pub open spec fn target_of(comp: JsonValue) -> Option<u32> {
    match competitor_innings(comp) {
        Some(l) => {
            let t = or_zero(field_unsigned(l, "target"@)) as u32;
            if t > 0 {
                Some(t)
            } else {
                None
            }
        },
        None => None,
    }
}

fn current_flag(l: &JsonValue) -> (r: bool)
    ensures
        r == is_current(*l),
{
    true_field(l, "isCurrent") || u64_field(l, "isCurrent") == Some(1u64)
}

/// The innings a side is in, among its innings `ls`.
fn find_active_innings(ls: &Vec<JsonValue>) -> (r: Option<&JsonValue>)
    ensures
        match r {
            Some(l) => active_innings(ls@) == Some(*l),
            None => active_innings(ls@) is None,
        },
{
    let n = ls.len();
    assert(ls@.skip(0) =~= ls@);
    for i in 0..n
        invariant
            n == ls.len(),
            first_current(ls@) == first_current(ls@.skip(i as int)),
    {
        assert(ls@.skip(i as int).drop_first() =~= ls@.skip(i + 1));
        assert(ls@.skip(i as int)[0] == ls@[i as int]);
        if current_flag(&ls[i]) {
            return Some(&ls[i]);
        }
    }
    assert(ls@.skip(n as int) =~= Seq::<JsonValue>::empty());
    if n > 0 {
        Some(&ls[n - 1])
    } else {
        None
    }
}

fn innings_of(comp: &JsonValue) -> (r: Option<&JsonValue>)
    ensures
        match r {
            Some(l) => competitor_innings(*comp) == Some(*l),
            None => competitor_innings(*comp) is None,
        },
{
    match array_field(comp, "linescores") {
        Some(ls) => find_active_innings(ls),
        None => None,
    }
}

/// A side of a cricket match, read from a competitor of the summary.
pub fn parse_competitor(comp: &JsonValue) -> (t: TeamScore)
    requires
        comp.field("team"@) is Some,
    ensures
        t@ == competitor_view(*comp),
{
    let team = match comp.get("team") {
        Some(x) => x,
        None => {
            assert(false);
            comp
        },
    };
    let id = str_field_or(team, "id", "");
    let name = str_field_or(team, "displayName", "");
    let abbreviation = str_field_or(team, "abbreviation", "");
    let mut score = str_field_or(comp, "score", "Yet to bat");
    let mut runs: u32 = 0;
    let mut wickets: u32 = 0;
    let mut overs = None;
    let mut is_batting = false;
    match innings_of(comp) {
        Some(l) => {
            runs = match u64_field(l, "runs") {
                Some(n) => n as u32,
                None => 0,
            };
            wickets = match u64_field(l, "wickets") {
                Some(n) => n as u32,
                None => 0,
            };
            overs = number_field(l, "overs");
            is_batting = true_field(l, "isBatting");
            match str_field(l, "score") {
                Some(s) => {
                    score = s.to_owned();
                },
                None => {},
            }
        },
        None => {},
    }
    let is_winner = true_field(comp, "winner");
    TeamScore { id, name, abbreviation, score, runs, wickets, overs, is_batting, is_winner }
}

/// The target a side chases, read from a competitor of the summary.
pub fn get_target(comp: &JsonValue) -> (r: Option<u32>)
    ensures
        r == target_of(*comp),
{
    match innings_of(comp) {
        Some(l) => {
            let t = match u64_field(l, "target") {
                Some(n) => n as u32,
                None => 0,
            };
            if t > 0 {
                Some(t)
            } else {
                None
            }
        },
        None => None,
    }
}

/// The status a match state names: "in" is live, "pre" scheduled, "post"
/// completed, anything else no match.
pub open spec fn state_status(state: Seq<char>) -> MatchStatus {
    if state == "in"@ {
        MatchStatus::Live
    } else if state == "pre"@ {
        MatchStatus::Scheduled
    } else if state == "post"@ {
        MatchStatus::Completed
    } else {
        MatchStatus::NoMatch
    }
}

/// Whether a (lowercase) status detail tells of a pause in play.
pub open spec fn is_break(detail: Seq<char>) -> bool {
    ||| holds(detail, "drinks"@)
    ||| holds(detail, "delay"@)
    ||| holds(detail, "lunch"@)
    ||| holds(detail, "tea"@)
    ||| holds(detail, "stumps"@)
    ||| holds(detail, "rain"@)
    ||| holds(detail, "break"@)
}

/// The status of a cricket match: as its state names it, except that a live
/// match whose detail tells of a pause is in a break.
pub open spec fn cricket_status(state: Seq<char>, detail: Seq<char>) -> MatchStatus {
    let s = state_status(state);
    if s == MatchStatus::Live && is_break(lowercase(detail)) {
        MatchStatus::Break
    } else {
        s
    }
}

/// The first competition of a summary header.
pub open spec fn first_competition(header: JsonValue) -> Option<JsonValue> {
    match field_items(header, "competitions"@) {
        Some(cs) => if cs.len() > 0 {
            Some(cs[0])
        } else {
            None
        },
        None => None,
    }
}

/// The text `key` of the status type of a competition.
pub open spec fn status_text(comp: JsonValue, key: Seq<char>) -> Option<Seq<char>> {
    match comp.field("status"@) {
        Some(st) => match st.field("type"@) {
            Some(ty) => field_text(ty, key),
            None => None,
        },
        None => None,
    }
}

/// What a cricket summary is read from before its sides are.
pub struct DetailHead {
    pub title: Seq<char>,
    pub state: Seq<char>,
    pub detail: Seq<char>,
    pub comp: JsonValue,
    pub competitors: Seq<JsonValue>,
}

/// The head of a cricket summary: its title ("name • description"), the
/// state and detail of its status, its first competition and that competition's competitors, when
/// all are there and there are at least two competitors.
pub open spec fn cricket_head(value: JsonValue) -> Option<DetailHead> {
    match value.field("header"@) {
        Some(header) => match (field_text(header, "name"@), field_text(header, "description"@)) {
            (Some(base), Some(desc)) => match first_competition(header) {
                Some(comp) => match (status_text(comp, "state"@), status_text(comp, "detail"@)) {
                    (Some(state), Some(detail)) => match field_items(comp, "competitors"@) {
                        Some(cs) => if cs.len() >= 2 {
                            Some(
                                DetailHead {
                                    title: base + " • "@ + desc,
                                    state,
                                    detail,
                                    comp,
                                    competitors: cs,
                                },
                            )
                        } else {
                            None
                        },
                        None => None,
                    },
                    _ => None,
                },
                None => None,
            },
            _ => None,
        },
        None => None,
    }
}

/// Whether reading the sides of a cricket summary fails: its head is there
/// but one of its first two competitors has no `team`.
pub open spec fn detail_panics(value: JsonValue) -> bool {
    match cricket_head(value) {
        Some(h) => h.competitors[0].field("team"@) is None || h.competitors[1].field(
            "team"@,
        ) is None,
        None => false,
    }
}

/// The chase of the batting side `t` with the given target: the target, the
/// runs still needed and what the required rate is computed from.
pub open spec fn chase(target: Option<u32>, t: TeamScoreView, limited: Option<JsonNumber>) -> (
    Option<u32>,
    Option<u32>,
    Option<RequiredRate>,
) {
    match target {
        Some(tg) => if t.runs < tg {
            let need = (tg - t.runs) as u32;
            (
                Some(tg),
                Some(need),
                Some(RequiredRate::Of { runs_needed: need, limited_overs: limited, overs: t.overs }),
            )
        } else {
            (Some(tg), Some(0), Some(RequiredRate::Zero))
        },
        None => (None, None, None),
    }
}

/// The score of a cricket match read at `timestamp`, from the head of its
/// summary.
pub open spec fn cricket_score(
    h: DetailHead,
    series_id: Seq<char>,
    match_id: Seq<char>,
    timestamp: u64,
) -> MatchScoreView {
    let t1 = competitor_view(h.competitors[0]);
    let t2 = competitor_view(h.competitors[1]);
    let batting: u8 = if t1.is_batting {
        1
    } else if t2.is_batting {
        2
    } else {
        0
    };
    let crr = if batting == 1 {
        RunRate::Of { runs: t1.runs, overs: t1.overs }
    } else if batting == 2 {
        RunRate::Of { runs: t2.runs, overs: t2.overs }
    } else {
        RunRate::Zero
    };
    let limited = field_numeric(h.comp, "limitedOvers"@);
    let c = if batting == 1 {
        chase(target_of(h.competitors[0]), t1, limited)
    } else if batting == 2 {
        chase(target_of(h.competitors[1]), t2, limited)
    } else {
        (None, None, None)
    };
    MatchScoreView {
        match_id,
        series_id,
        match_title: h.title,
        status: cricket_status(h.state, h.detail),
        team1: t1,
        team2: t2,
        batting_team: batting,
        crr,
        rrr: c.2,
        target: c.0,
        runs_needed: c.1,
        timestamp,
        sport: SportType::Cricket,
        soccer_clock: None,
    }
}

/// The score a cricket summary gives, read at `timestamp`.
pub open spec fn match_detail(
    value: JsonValue,
    series_id: Seq<char>,
    match_id: Seq<char>,
    timestamp: u64,
) -> Option<MatchScoreView> {
    match cricket_head(value) {
        Some(h) => Some(cricket_score(h, series_id, match_id, timestamp)),
        None => None,
    }
}

pub(crate) fn status_of_state(state: &str) -> (r: MatchStatus)
    ensures
        r == state_status(state@),
{
    if same_text(state, "in") {
        MatchStatus::Live
    } else if same_text(state, "pre") {
        MatchStatus::Scheduled
    } else if same_text(state, "post") {
        MatchStatus::Completed
    } else {
        MatchStatus::NoMatch
    }
}

fn break_detail(detail: &str) -> (r: bool)
    ensures
        r == is_break(lowercase(detail@)),
{
    let lower = to_lowercase(detail);
    let d = chars_of(lower.as_str());
    contains(&d, &chars_of("drinks")) || contains(&d, &chars_of("delay")) || contains(
        &d,
        &chars_of("lunch"),
    ) || contains(
        &d,
        &chars_of("tea"),
    ) || contains(&d, &chars_of("stumps")) || contains(&d, &chars_of("rain")) || contains(
        &d,
        &chars_of("break"),
    )
}

pub(crate) fn competition_status_text<'a>(comp: &'a JsonValue, key: &str) -> (r: Option<&'a str>)
    ensures
        match r {
            Some(t) => status_text(*comp, key@) == Some(t@),
            None => status_text(*comp, key@) is None,
        },
{
    match comp.get("status") {
        Some(st) => match st.get("type") {
            Some(ty) => str_field(ty, key),
            None => None,
        },
        None => None,
    }
}

pub(crate) fn first_competition_of(header: &JsonValue) -> (r: Option<&JsonValue>)
    ensures
        match r {
            Some(c) => first_competition(*header) == Some(*c),
            None => first_competition(*header) is None,
        },
{
    match array_field(header, "competitions") {
        Some(cs) => if cs.len() > 0 {
            Some(&cs[0])
        } else {
            None
        },
        None => None,
    }
}

/// The head of a cricket summary: title, status, first competition and its
/// competitors.
fn read_cricket_head(value: &JsonValue) -> (r: Option<
    (String, &str, &str, &JsonValue, &Vec<JsonValue>),
>)
    ensures
        match r {
            Some(h) => cricket_head(*value) == Some(
                DetailHead { title: h.0@, state: h.1@, detail: h.2@, comp: *h.3, competitors: h.4@ },
            ),
            None => cricket_head(*value) is None,
        },
{
    let header = match value.get("header") {
        Some(h) => h,
        None => return None,
    };
    let base = match str_field(header, "name") {
        Some(t) => t,
        None => return None,
    };
    let desc = match str_field(header, "description") {
        Some(t) => t,
        None => return None,
    };
    let comp = match first_competition_of(header) {
        Some(c) => c,
        None => return None,
    };
    let state = match competition_status_text(comp, "state") {
        Some(t) => t,
        None => return None,
    };
    let detail = match competition_status_text(comp, "detail") {
        Some(t) => t,
        None => return None,
    };
    let cs = match array_field(comp, "competitors") {
        Some(a) => a,
        None => return None,
    };
    if cs.len() < 2 {
        return None;
    }
    let mut title = base.to_owned();
    title.append(" • ");
    title.append(desc);
    Some((title, state, detail, comp, cs))
}

/// Whether reading the sides of the cricket summary `value` fails (see
/// `detail_panics`).
pub fn detail_would_panic(value: &JsonValue) -> (r: bool)
    ensures
        r == detail_panics(*value),
{
    match read_cricket_head(value) {
        Some((_, _, _, _, cs)) => cs[0].get("team").is_none() || cs[1].get("team").is_none(),
        None => false,
    }
}

fn chase_of(target: Option<u32>, t: &TeamScore, limited: Option<JsonNumber>) -> (r: (
    Option<u32>,
    Option<u32>,
    Option<RequiredRate>,
))
    ensures
        r == chase(target, t@, limited),
{
    match target {
        Some(tg) => if t.runs < tg {
            let need = tg - t.runs;
            (
                Some(tg),
                Some(need),
                Some(RequiredRate::Of { runs_needed: need, limited_overs: limited, overs: t.overs }),
            )
        } else {
            (Some(tg), Some(0), Some(RequiredRate::Zero))
        },
        None => (None, None, None),
    }
}

/// The score a cricket summary gives, stamped with `timestamp`.
pub fn parse_match_detail_at(value: &JsonValue, series_id: &str, match_id: &str, timestamp: u64) -> (r:
    Option<MatchScore>)
    requires
        !detail_panics(*value),
    ensures
        match r {
            Some(m) => match_detail(*value, series_id@, match_id@, timestamp) == Some(m@),
            None => match_detail(*value, series_id@, match_id@, timestamp) is None,
        },
{
    let (title, state, detail, comp, cs) = match read_cricket_head(value) {
        Some(h) => h,
        None => return None,
    };
    let mut status = status_of_state(state);
    if status == MatchStatus::Live && break_detail(detail) {
        status = MatchStatus::Break;
    }
    let team1 = parse_competitor(&cs[0]);
    let team2 = parse_competitor(&cs[1]);
    let batting_team: u8 = if team1.is_batting {
        1
    } else if team2.is_batting {
        2
    } else {
        0
    };
    let crr = if batting_team == 1 {
        RunRate::Of { runs: team1.runs, overs: team1.overs }
    } else if batting_team == 2 {
        RunRate::Of { runs: team2.runs, overs: team2.overs }
    } else {
        RunRate::Zero
    };
    let limited = number_field(comp, "limitedOvers");
    let c = if batting_team == 1 {
        chase_of(get_target(&cs[0]), &team1, limited)
    } else if batting_team == 2 {
        chase_of(get_target(&cs[1]), &team2, limited)
    } else {
        (None, None, None)
    };
    Some(
        MatchScore {
            match_id: match_id.to_owned(),
            series_id: series_id.to_owned(),
            match_title: title,
            status,
            team1,
            team2,
            batting_team,
            crr,
            rrr: c.2,
            target: c.0,
            runs_needed: c.1,
            timestamp,
            sport: SportType::Cricket,
            soccer_clock: None,
        },
    )
}

/// The score a cricket summary gives, stamped with the time it is read.
pub fn parse_match_detail(value: &JsonValue, series_id: &str, match_id: &str) -> (r: Option<MatchScore>)
    requires
        !detail_panics(*value),
    ensures
        match r {
            Some(m) => match_detail(*value, series_id@, match_id@, m.timestamp) == Some(m@),
            None => match_detail(*value, series_id@, match_id@, 0) is None,
        },
{
    let timestamp = unix_time_now();
    parse_match_detail_at(value, series_id, match_id, timestamp)
}

/// Whether a competitor is an Indian national side: its id is "6", or its
/// display name, in lowercase, is "india" or "ind", or starts with "india "
/// (such as "India Women" or "India A"). Franchise and domestic sides whose
/// names merely contain "india" (such as "Mumbai Indians") are not.
pub open spec fn is_india(c: JsonValue) -> bool {
    let lower = lowercase(or_text(field_text(c, "displayName"@), ""@));
    ||| or_text(field_text(c, "id"@), ""@) == "6"@
    ||| lower == "india"@
    ||| lower == "ind"@
    ||| begins_with(lower, "india "@)
}

/// Whether one of the competitors `cs` is India.
pub open spec fn has_india(cs: Seq<JsonValue>) -> bool {
    exists|i: int| 0 <= i < cs.len() && is_india(#[trigger] cs[i])
}

/// Whether a match status is live or upcoming.
pub open spec fn in_or_pre(status: Seq<char>) -> bool {
    status == "in"@ || status == "pre"@
}

/// The row of a cricket scoreboard event, when it is a live or upcoming
/// match of India.
pub open spec fn cricket_event_rows(series_id: Seq<char>, league: Seq<char>, ev: JsonValue) -> Seq<
    RowView,
> {
    let match_id = or_text(field_text(ev, "id"@), ""@);
    let status = or_text(field_text(ev, "status"@), ""@);
    let name = or_text(field_text(ev, "name"@), "Cricket Match"@);
    if in_or_pre(status) {
        match field_items(ev, "competitors"@) {
            Some(cs) => if has_india(cs) {
                seq![
                    (series_id, match_id, name, status, league, or_text(field_text(ev, "date"@), ""@)),
                ]
            } else {
                seq![]
            },
            None => seq![],
        }
    } else {
        seq![]
    }
}

/// The rows of the events `evs` of a cricket league, one after the other.
pub open spec fn cricket_events_rows(series_id: Seq<char>, league: Seq<char>, evs: Seq<JsonValue>) -> Seq<
    RowView,
>
    decreases evs.len(),
{
    if evs.len() == 0 {
        seq![]
    } else {
        cricket_events_rows(series_id, league, evs.drop_last()) + cricket_event_rows(
            series_id,
            league,
            evs.last(),
        )
    }
}

/// The rows of the leagues `ls`, one after the other.
pub open spec fn cricket_leagues_rows(ls: Seq<JsonValue>) -> Seq<RowView>
    decreases ls.len(),
{
    if ls.len() == 0 {
        seq![]
    } else {
        cricket_leagues_rows(ls.drop_last()) + cricket_league_rows(ls.last())
    }
}

/// The rows of the sports `ss`, one after the other.
pub open spec fn cricket_sports_rows(ss: Seq<JsonValue>) -> Seq<RowView>
    decreases ss.len(),
{
    if ss.len() == 0 {
        seq![]
    } else {
        cricket_sports_rows(ss.drop_last()) + cricket_sport_rows(ss.last())
    }
}

/// The rows of the events of a cricket league.
pub open spec fn cricket_league_rows(league: JsonValue) -> Seq<RowView> {
    let series_id = or_text(field_text(league, "id"@), ""@);
    let name = or_text(field_text(league, "name"@), "Cricket"@);
    match field_items(league, "events"@) {
        Some(evs) => cricket_events_rows(series_id, name, evs),
        None => seq![],
    }
}

/// The rows of a sport of the scoreboard, when it is cricket.
pub open spec fn cricket_sport_rows(sport: JsonValue) -> Seq<RowView> {
    if field_text(sport, "slug"@) == Some("cricket"@) {
        match field_items(sport, "leagues"@) {
            Some(ls) => cricket_leagues_rows(ls),
            None => seq![],
        }
    } else {
        seq![]
    }
}

/// The live and upcoming cricket matches of India on a scoreboard.
pub open spec fn live_indian_matches(value: JsonValue) -> Seq<RowView> {
    match field_items(value, "sports"@) {
        Some(ss) => cricket_sports_rows(ss),
        None => seq![],
    }
}

fn india_competitor(c: &JsonValue) -> (r: bool)
    ensures
        r == is_india(*c),
{
    let id = str_field_or(c, "id", "");
    let display = str_field_or(c, "displayName", "");
    let lower = to_lowercase(display.as_str());
    same_text(id.as_str(), "6") || same_text(lower.as_str(), "india") || same_text(
        lower.as_str(),
        "ind",
    ) || starts_with(&chars_of(lower.as_str()), &chars_of("india "))
}

fn any_india(cs: &Vec<JsonValue>) -> (r: bool)
    ensures
        r == has_india(cs@),
{
    let n = cs.len();
    for i in 0..n
        invariant
            n == cs.len(),
            forall|j: int| 0 <= j < i ==> !is_india(#[trigger] cs@[j]),
    {
        if india_competitor(&cs[i]) {
            return true;
        }
    }
    false
}

fn push_cricket_event(out: &mut Vec<MatchRow>, series_id: &str, league: &str, ev: &JsonValue)
    ensures
        rows_view(final(out)@) == rows_view(old(out)@) + cricket_event_rows(series_id@, league@, *ev),
{
    let match_id = str_field_or(ev, "id", "");
    let status = str_field_or(ev, "status", "");
    let name = str_field_or(ev, "name", "Cricket Match");
    if same_text(status.as_str(), "in") || same_text(status.as_str(), "pre") {
        match array_field(ev, "competitors") {
            Some(cs) => {
                if any_india(cs) {
                    let start_time = str_field_or(ev, "date", "");
                    let row: MatchRow = (
                        series_id.to_owned(),
                        match_id,
                        name,
                        status,
                        league.to_owned(),
                        start_time,
                    );
                    proof {
                        lemma_rows_view_push(out@, row);
                    }
                    out.push(row);
                    return ;
                }
            },
            None => {},
        }
    }
    assert(rows_view(out@) + seq![] =~= rows_view(out@));
}

fn push_cricket_league(out: &mut Vec<MatchRow>, league: &JsonValue)
    ensures
        rows_view(final(out)@) == rows_view(old(out)@) + cricket_league_rows(*league),
{
    let series_id = str_field_or(league, "id", "");
    let name = str_field_or(league, "name", "Cricket");
    match array_field(league, "events") {
        Some(evs) => {
            let n = evs.len();
            let ghost start = rows_view(out@);
            assert(evs@.take(0) =~= Seq::<JsonValue>::empty());
            assert(start + seq![] =~= start);
            for i in 0..n
                invariant
                    n == evs.len(),
                    rows_view(out@) == start + cricket_events_rows(series_id@, name@, evs@.take(i as int)),
            {
                assert(evs@.take(i + 1).drop_last() =~= evs@.take(i as int));
                push_cricket_event(out, series_id.as_str(), name.as_str(), &evs[i]);
                assert(start + cricket_events_rows(series_id@, name@, evs@.take(i + 1)) =~= start
                    + cricket_events_rows(series_id@, name@, evs@.take(i as int)) + cricket_event_rows(
                    series_id@,
                    name@,
                    evs@[i as int],
                ));
            }
            assert(evs@.take(n as int) =~= evs@);
        },
        None => {
            assert(rows_view(out@) + seq![] =~= rows_view(out@));
        },
    }
}

fn push_cricket_sport(out: &mut Vec<MatchRow>, sport: &JsonValue)
    ensures
        rows_view(final(out)@) == rows_view(old(out)@) + cricket_sport_rows(*sport),
{
    let is_cricket = match str_field(sport, "slug") {
        Some(s) => same_text(s, "cricket"),
        None => false,
    };
    if is_cricket {
        match array_field(sport, "leagues") {
            Some(ls) => {
                let n = ls.len();
                let ghost start = rows_view(out@);
                assert(ls@.take(0) =~= Seq::<JsonValue>::empty());
                assert(start + seq![] =~= start);
                for i in 0..n
                    invariant
                        n == ls.len(),
                        rows_view(out@) == start + cricket_leagues_rows(ls@.take(i as int)),
                {
                    assert(ls@.take(i + 1).drop_last() =~= ls@.take(i as int));
                    push_cricket_league(out, &ls[i]);
                    assert(start + cricket_leagues_rows(ls@.take(i + 1)) =~= start
                        + cricket_leagues_rows(ls@.take(i as int)) + cricket_league_rows(
                        ls@[i as int],
                    ));
                }
                assert(ls@.take(n as int) =~= ls@);
                return ;
            },
            None => {},
        }
    }
    assert(rows_view(out@) + seq![] =~= rows_view(out@));
}

/// The live and upcoming cricket matches of India on a scoreboard: series id,
/// match id, title, status, league name and start time of each.
pub fn parse_all_live_indian_matches(value: &JsonValue) -> (r: Vec<MatchRow>)
    ensures
        rows_view(r@) == live_indian_matches(*value),
{
    let mut out: Vec<MatchRow> = Vec::new();
    assert(rows_view(out@) =~= Seq::<RowView>::empty());
    match array_field(value, "sports") {
        Some(ss) => {
            let n = ss.len();
            assert(ss@.take(0) =~= Seq::<JsonValue>::empty());
            for i in 0..n
                invariant
                    n == ss.len(),
                    rows_view(out@) == cricket_sports_rows(ss@.take(i as int)),
            {
                assert(ss@.take(i + 1).drop_last() =~= ss@.take(i as int));
                push_cricket_sport(&mut out, &ss[i]);
            }
            assert(ss@.take(n as int) =~= ss@);
        },
        None => {},
    }
    out
}

/// In a cricket score, a target, the runs needed and a required rate come
/// together, and only while a side bats; the runs needed are what the batting
/// side lacks of the target, and the required rate is zero once the target
/// is reached.
pub proof fn lemma_chase_consistent(value: JsonValue, series_id: Seq<char>, match_id: Seq<char>, timestamp: u64)
    requires
        match_detail(value, series_id, match_id, timestamp) is Some,
    ensures
        ({
            let m = match_detail(value, series_id, match_id, timestamp)->0;
            let runs = if m.batting_team == 1 {
                m.team1.runs
            } else {
                m.team2.runs
            };
            &&& (m.target is Some <==> m.runs_needed is Some)
            &&& (m.target is Some <==> m.rrr is Some)
            &&& (m.target is Some ==> m.batting_team != 0)
            &&& (m.batting_team == 0 <==> m.crr == RunRate::Zero)
            &&& (m.target matches Some(t) ==> (runs < t ==> m.runs_needed == Some((t - runs) as u32))
                && (runs >= t ==> m.runs_needed == Some(0u32) && m.rrr == Some(RequiredRate::Zero)))
        }),
{
}

/// Whether every row of `rs` is of a live or upcoming match.
pub open spec fn all_in_or_pre(rs: Seq<RowView>) -> bool {
    forall|i: int| 0 <= i < rs.len() ==> in_or_pre(#[trigger] rs[i].3)
}

pub(crate) proof fn lemma_all_in_or_pre_concat(a: Seq<RowView>, b: Seq<RowView>)
    requires
        all_in_or_pre(a),
        all_in_or_pre(b),
    ensures
        all_in_or_pre(a + b),
{
    assert forall|i: int| 0 <= i < (a + b).len() implies in_or_pre(#[trigger] (a + b)[i].3) by {
        if i < a.len() {
            assert((a + b)[i] == a[i]);
        } else {
            assert((a + b)[i] == b[i - a.len()]);
        }
    }
}

proof fn lemma_cricket_events_live(series_id: Seq<char>, league: Seq<char>, evs: Seq<JsonValue>)
    ensures
        all_in_or_pre(cricket_events_rows(series_id, league, evs)),
    decreases evs.len(),
{
    if evs.len() > 0 {
        lemma_cricket_events_live(series_id, league, evs.drop_last());
        lemma_all_in_or_pre_concat(
            cricket_events_rows(series_id, league, evs.drop_last()),
            cricket_event_rows(series_id, league, evs.last()),
        );
    }
}

proof fn lemma_cricket_leagues_live(ls: Seq<JsonValue>)
    ensures
        all_in_or_pre(cricket_leagues_rows(ls)),
    decreases ls.len(),
{
    if ls.len() > 0 {
        lemma_cricket_leagues_live(ls.drop_last());
        let l = ls.last();
        match field_items(l, "events"@) {
            Some(evs) => lemma_cricket_events_live(
                or_text(field_text(l, "id"@), ""@),
                or_text(field_text(l, "name"@), "Cricket"@),
                evs,
            ),
            None => {},
        }
        lemma_all_in_or_pre_concat(cricket_leagues_rows(ls.drop_last()), cricket_league_rows(l));
    }
}

proof fn lemma_cricket_sports_live(ss: Seq<JsonValue>)
    ensures
        all_in_or_pre(cricket_sports_rows(ss)),
    decreases ss.len(),
{
    if ss.len() > 0 {
        lemma_cricket_sports_live(ss.drop_last());
        match field_items(ss.last(), "leagues"@) {
            Some(ls) => lemma_cricket_leagues_live(ls),
            None => {},
        }
        lemma_all_in_or_pre_concat(cricket_sports_rows(ss.drop_last()), cricket_sport_rows(ss.last()));
    }
}

/// Every cricket match found on a scoreboard is live or upcoming.
pub proof fn lemma_live_indian_matches_live(value: JsonValue)
    ensures
        all_in_or_pre(live_indian_matches(value)),
{
    match field_items(value, "sports"@) {
        Some(ss) => lemma_cricket_sports_live(ss),
        None => {},
    }
}

/// The competitors of the first competition of a match summary.
pub open spec fn summary_competitors(value: JsonValue) -> Option<Seq<JsonValue>> {
    match value.field("header"@) {
        Some(header) => match first_competition(header) {
            Some(comp) => field_items(comp, "competitors"@),
            None => None,
        },
        None => None,
    }
}

/// The sides of a cricket score are the first two competitors of the
/// summary, in order, and the current run rate is that of the side that
/// bats: the first side's runs and overs when it bats, the second's when it
/// does, and zero when neither does.
pub proof fn lemma_cricket_sides_and_rate(value: JsonValue, series_id: Seq<char>, match_id: Seq<char>, timestamp: u64)
    requires
        match_detail(value, series_id, match_id, timestamp) is Some,
    ensures
        ({
            let m = match_detail(value, series_id, match_id, timestamp)->0;
            &&& summary_competitors(value) matches Some(cs) && cs.len() >= 2
                && m.team1 == competitor_view(cs[0]) && m.team2 == competitor_view(cs[1])
            &&& m.batting_team == 1 ==> m.team1.is_batting && m.crr == RunRate::Of {
                runs: m.team1.runs,
                overs: m.team1.overs,
            }
            &&& m.batting_team == 2 ==> !m.team1.is_batting && m.team2.is_batting && m.crr
                == RunRate::Of { runs: m.team2.runs, overs: m.team2.overs }
            &&& m.batting_team == 0 ==> !m.team1.is_batting && !m.team2.is_batting && m.crr
                == RunRate::Zero
            &&& m.batting_team <= 2
        }),
{
}

} // verus!
