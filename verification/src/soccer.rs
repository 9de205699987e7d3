//! Reading football scoreboards and match summaries.
use vstd::prelude::*;
use crate::clock::unix_time_now;
use crate::cricket::{
    all_in_or_pre, competition_status_text, first_competition, first_competition_of, in_or_pre,
    lemma_all_in_or_pre_concat, state_status, status_of_state, status_text, summary_competitors,
};
use crate::json::{
    array_field, field_items, field_text, field_true, or_text, str_field, str_field_or,
    true_field, JsonValue,
};
use crate::models::{
    lemma_rows_view_push, opt_view, rows_view, MatchRow, MatchScore, MatchScoreView, RowView,
    RunRate, SportType, TeamScore, TeamScoreView,
};
use crate::text::{chars_of, decimal, parse_u32, parsed_unsigned, same_text, u64_to_string};

verus! {

/// The series a football league is known by: its slug, or its id when the
/// slug is empty.
pub open spec fn soccer_series_id(league: JsonValue) -> Seq<char> {
    let slug = or_text(field_text(league, "slug"@), ""@);
    if slug.len() == 0 {
        or_text(field_text(league, "id"@), ""@)
    } else {
        slug
    }
}

/// The title of a football scoreboard event: "Home vs Away" from its first
/// two competitors when it has them, else its name.
pub open spec fn soccer_match_name(ev: JsonValue) -> Seq<char> {
    let name = or_text(field_text(ev, "name"@), "Football Match"@);
    match field_items(ev, "competitors"@) {
        Some(cs) => if cs.len() >= 2 {
            or_text(field_text(cs[0], "displayName"@), "T1"@) + " vs "@ + or_text(
                field_text(cs[1], "displayName"@),
                "T2"@,
            )
        } else {
            name
        },
        None => name,
    }
}

/// The row of a football scoreboard event, when it is live or upcoming.
pub open spec fn soccer_event_rows(series_id: Seq<char>, league: Seq<char>, ev: JsonValue) -> Seq<
    RowView,
> {
    let status = or_text(field_text(ev, "status"@), ""@);
    if in_or_pre(status) {
        seq![
            (
                series_id,
                or_text(field_text(ev, "id"@), ""@),
                soccer_match_name(ev),
                status,
                league,
                or_text(field_text(ev, "date"@), ""@),
            ),
        ]
    } else {
        seq![]
    }
}

/// The rows of the events `evs` of a football league, one after the other.
pub open spec fn soccer_events_rows(series_id: Seq<char>, league: Seq<char>, evs: Seq<JsonValue>) -> Seq<
    RowView,
>
    decreases evs.len(),
{
    if evs.len() == 0 {
        seq![]
    } else {
        soccer_events_rows(series_id, league, evs.drop_last()) + soccer_event_rows(
            series_id,
            league,
            evs.last(),
        )
    }
}

/// The rows of the events of a football league.
pub open spec fn soccer_league_rows(league: JsonValue) -> Seq<RowView> {
    let name = or_text(field_text(league, "name"@), "Football"@);
    match field_items(league, "events"@) {
        Some(evs) => soccer_events_rows(soccer_series_id(league), name, evs),
        None => seq![],
    }
}

/// The rows of the leagues `ls`, one after the other.
pub open spec fn soccer_leagues_rows(ls: Seq<JsonValue>) -> Seq<RowView>
    decreases ls.len(),
{
    if ls.len() == 0 {
        seq![]
    } else {
        soccer_leagues_rows(ls.drop_last()) + soccer_league_rows(ls.last())
    }
}

/// The rows of a sport of the scoreboard, when it is football.
pub open spec fn soccer_sport_rows(sport: JsonValue) -> Seq<RowView> {
    if field_text(sport, "slug"@) == Some("soccer"@) {
        match field_items(sport, "leagues"@) {
            Some(ls) => soccer_leagues_rows(ls),
            None => seq![],
        }
    } else {
        seq![]
    }
}

/// The rows of the sports `ss`, one after the other.
pub open spec fn soccer_sports_rows(ss: Seq<JsonValue>) -> Seq<RowView>
    decreases ss.len(),
{
    if ss.len() == 0 {
        seq![]
    } else {
        soccer_sports_rows(ss.drop_last()) + soccer_sport_rows(ss.last())
    }
}

/// The live and upcoming football matches on a scoreboard.
pub open spec fn soccer_matches(value: JsonValue) -> Seq<RowView> {
    match field_items(value, "sports"@) {
        Some(ss) => soccer_sports_rows(ss),
        None => seq![],
    }
}

fn match_name_of(ev: &JsonValue) -> (r: String)
    ensures
        r@ == soccer_match_name(*ev),
{
    let name = str_field_or(ev, "name", "Football Match");
    match array_field(ev, "competitors") {
        Some(cs) => if cs.len() >= 2 {
            let mut t = str_field_or(&cs[0], "displayName", "T1");
            t.append(" vs ");
            let away = str_field_or(&cs[1], "displayName", "T2");
            t.append(away.as_str());
            t
        } else {
            name
        },
        None => name,
    }
}

fn push_soccer_event(out: &mut Vec<MatchRow>, series_id: &str, league: &str, ev: &JsonValue)
    ensures
        rows_view(final(out)@) == rows_view(old(out)@) + soccer_event_rows(series_id@, league@, *ev),
{
    let status = str_field_or(ev, "status", "");
    if same_text(status.as_str(), "in") || same_text(status.as_str(), "pre") {
        let row: MatchRow = (
            series_id.to_owned(),
            str_field_or(ev, "id", ""),
            match_name_of(ev),
            status,
            league.to_owned(),
            str_field_or(ev, "date", ""),
        );
        proof {
            lemma_rows_view_push(out@, row);
        }
        out.push(row);
    } else {
        assert(rows_view(out@) + seq![] =~= rows_view(out@));
    }
}

fn series_id_of(league: &JsonValue) -> (r: String)
    ensures
        r@ == soccer_series_id(*league),
{
    let slug = str_field_or(league, "slug", "");
    if slug.as_str().is_empty() {
        str_field_or(league, "id", "")
    } else {
        slug
    }
}

fn push_soccer_league(out: &mut Vec<MatchRow>, league: &JsonValue)
    ensures
        rows_view(final(out)@) == rows_view(old(out)@) + soccer_league_rows(*league),
{
    let series_id = series_id_of(league);
    let name = str_field_or(league, "name", "Football");
    match array_field(league, "events") {
        Some(evs) => {
            let n = evs.len();
            let ghost start = rows_view(out@);
            assert(evs@.take(0) =~= Seq::<JsonValue>::empty());
            assert(start + seq![] =~= start);
            for i in 0..n
                invariant
                    n == evs.len(),
                    rows_view(out@) == start + soccer_events_rows(series_id@, name@, evs@.take(i as int)),
            {
                assert(evs@.take(i + 1).drop_last() =~= evs@.take(i as int));
                push_soccer_event(out, series_id.as_str(), name.as_str(), &evs[i]);
                assert(start + soccer_events_rows(series_id@, name@, evs@.take(i + 1)) =~= start
                    + soccer_events_rows(series_id@, name@, evs@.take(i as int)) + soccer_event_rows(
                    series_id@,
                    name@,
                    evs@[i as int],
                ));
            }
            assert(evs@.take(n as int) =~= evs@);
        },
        None => {
            assert(rows_view(out@) + seq![] =~= rows_view(out@));
        },
    }
}

fn push_soccer_sport(out: &mut Vec<MatchRow>, sport: &JsonValue)
    ensures
        rows_view(final(out)@) == rows_view(old(out)@) + soccer_sport_rows(*sport),
{
    let is_soccer = match str_field(sport, "slug") {
        Some(s) => same_text(s, "soccer"),
        None => false,
    };
    if is_soccer {
        match array_field(sport, "leagues") {
            Some(ls) => {
                let n = ls.len();
                let ghost start = rows_view(out@);
                assert(ls@.take(0) =~= Seq::<JsonValue>::empty());
                assert(start + seq![] =~= start);
                for i in 0..n
                    invariant
                        n == ls.len(),
                        rows_view(out@) == start + soccer_leagues_rows(ls@.take(i as int)),
                {
                    assert(ls@.take(i + 1).drop_last() =~= ls@.take(i as int));
                    push_soccer_league(out, &ls[i]);
                    assert(start + soccer_leagues_rows(ls@.take(i + 1)) =~= start
                        + soccer_leagues_rows(ls@.take(i as int)) + soccer_league_rows(
                        ls@[i as int],
                    ));
                }
                assert(ls@.take(n as int) =~= ls@);
                return ;
            },
            None => {},
        }
    }
    assert(rows_view(out@) + seq![] =~= rows_view(out@));
}

/// The live and upcoming football matches on a scoreboard: series id, match
/// id, title, status, league name and start time of each.
pub fn parse_soccer_matches(value: &JsonValue) -> (r: Vec<MatchRow>)
    ensures
        rows_view(r@) == soccer_matches(*value),
{
    let mut out: Vec<MatchRow> = Vec::new();
    assert(rows_view(out@) =~= Seq::<RowView>::empty());
    match array_field(value, "sports") {
        Some(ss) => {
            let n = ss.len();
            assert(ss@.take(0) =~= Seq::<JsonValue>::empty());
            for i in 0..n
                invariant
                    n == ss.len(),
                    rows_view(out@) == soccer_sports_rows(ss@.take(i as int)),
            {
                assert(ss@.take(i + 1).drop_last() =~= ss@.take(i as int));
                push_soccer_sport(&mut out, &ss[i]);
            }
            assert(ss@.take(n as int) =~= ss@);
        },
        None => {},
    }
    out
}

/// The score text of a football competitor: its `score` as text, or the
/// decimal numeral of a non-negative integer score, else "0".
pub open spec fn soccer_score_text(comp: JsonValue) -> Seq<char> {
    match comp.field("score"@) {
        Some(v) => match v.text() {
            Some(t) => t,
            None => match v.unsigned() {
                Some(n) => decimal(n as nat),
                None => "0"@,
            },
        },
        None => "0"@,
    }
}

/// A side of a football match as the summary gives it: names from its `team`
/// (or from the competitor itself when it has none), its score, and the goals
/// that score reads as.
pub open spec fn soccer_competitor_view(comp: JsonValue) -> TeamScoreView {
    let team = match comp.field("team"@) {
        Some(t) => t,
        None => comp,
    };
    let score = soccer_score_text(comp);
    TeamScoreView {
        id: or_text(field_text(team, "id"@), ""@),
        name: or_text(field_text(team, "displayName"@), ""@),
        abbreviation: or_text(field_text(team, "abbreviation"@), ""@),
        score,
        runs: match parsed_unsigned(score, u32::MAX as nat) {
            Some(n) => n as u32,
            None => 0,
        },
        wickets: 0,
        overs: None,
        is_batting: false,
        is_winner: field_true(comp, "winner"@),
    }
}

/// A side of a football match, read from a competitor of the summary.
pub fn parse_soccer_competitor(comp: &JsonValue) -> (t: TeamScore)
    ensures
        t@ == soccer_competitor_view(*comp),
{
    let team = match comp.get("team") {
        Some(t) => t,
        None => comp,
    };
    let id = str_field_or(team, "id", "");
    let name = str_field_or(team, "displayName", "");
    let abbreviation = str_field_or(team, "abbreviation", "");
    let score = match comp.get("score") {
        Some(v) => match v.as_str() {
            Some(t) => t.to_owned(),
            None => match v.as_u64() {
                Some(n) => u64_to_string(n),
                None => "0".to_owned(),
            },
        },
        None => "0".to_owned(),
    };
    let runs = match parse_u32(&chars_of(score.as_str())) {
        Some(n) => n,
        None => 0,
    };
    let is_winner = true_field(comp, "winner");
    TeamScore {
        id,
        name,
        abbreviation,
        score,
        runs,
        wickets: 0,
        overs: None,
        is_batting: false,
        is_winner,
    }
}

/// The score a football summary gives, read at `timestamp`: its title,
/// status, first two competitors and clock, when the header, its first
/// competition with a status, and two competitors are there.
pub open spec fn soccer_detail(
    value: JsonValue,
    series_id: Seq<char>,
    match_id: Seq<char>,
    timestamp: u64,
) -> Option<MatchScoreView> {
    match value.field("header"@) {
        Some(header) => match first_competition(header) {
            Some(comp) => if comp.field("status"@) is None {
                None
            } else {
                match field_items(comp, "competitors"@) {
                    Some(cs) => if cs.len() >= 2 {
                        let detail = or_text(status_text(comp, "detail"@), ""@);
                        Some(
                            MatchScoreView {
                                match_id,
                                series_id,
                                match_title: or_text(field_text(header, "name"@), "Soccer Match"@),
                                status: state_status(or_text(status_text(comp, "state"@), "pre"@)),
                                team1: soccer_competitor_view(cs[0]),
                                team2: soccer_competitor_view(cs[1]),
                                batting_team: 0,
                                crr: RunRate::Zero,
                                rrr: None,
                                target: None,
                                runs_needed: None,
                                timestamp,
                                sport: SportType::Soccer,
                                soccer_clock: if detail.len() == 0 {
                                    None
                                } else {
                                    Some(detail)
                                },
                            },
                        )
                    } else {
                        None
                    },
                    None => None,
                }
            },
            None => None,
        },
        None => None,
    }
}

/// The score a football summary gives, stamped with `timestamp`.
pub fn parse_soccer_match_detail_at(
    value: &JsonValue,
    series_id: &str,
    match_id: &str,
    timestamp: u64,
) -> (r: Option<MatchScore>)
    ensures
        match r {
            Some(m) => soccer_detail(*value, series_id@, match_id@, timestamp) == Some(m@),
            None => soccer_detail(*value, series_id@, match_id@, timestamp) is None,
        },
{
    let header = match value.get("header") {
        Some(h) => h,
        None => return None,
    };
    let match_title = str_field_or(header, "name", "Soccer Match");
    let comp = match first_competition_of(header) {
        Some(c) => c,
        None => return None,
    };
    if comp.get("status").is_none() {
        return None;
    }
    let state = match competition_status_text(comp, "state") {
        Some(t) => t.to_owned(),
        None => "pre".to_owned(),
    };
    let detail = match competition_status_text(comp, "detail") {
        Some(t) => t.to_owned(),
        None => "".to_owned(),
    };
    let status = status_of_state(state.as_str());
    let cs = match array_field(comp, "competitors") {
        Some(a) => if a.len() >= 2 {
            a
        } else {
            return None;
        },
        None => return None,
    };
    let team1 = parse_soccer_competitor(&cs[0]);
    let team2 = parse_soccer_competitor(&cs[1]);
    let soccer_clock = if detail.as_str().is_empty() {
        None
    } else {
        Some(detail)
    };
    let r = MatchScore {
        match_id: match_id.to_owned(),
        series_id: series_id.to_owned(),
        match_title,
        status,
        team1,
        team2,
        batting_team: 0,
        crr: RunRate::Zero,
        rrr: None,
        target: None,
        runs_needed: None,
        timestamp,
        sport: SportType::Soccer,
        soccer_clock,
    };
    assert(opt_view(r.soccer_clock) == (if detail@.len() == 0 {
        None
    } else {
        Some(detail@)
    }));
    Some(r)
}

/// The score a football summary gives, stamped with the time it is read.
pub fn parse_soccer_match_detail(value: &JsonValue, series_id: &str, match_id: &str) -> (r: Option<
    MatchScore,
>)
    ensures
        match r {
            Some(m) => soccer_detail(*value, series_id@, match_id@, m.timestamp) == Some(m@),
            None => soccer_detail(*value, series_id@, match_id@, 0) is None,
        },
{
    let timestamp = unix_time_now();
    parse_soccer_match_detail_at(value, series_id, match_id, timestamp)
}

proof fn lemma_soccer_events_live(series_id: Seq<char>, league: Seq<char>, evs: Seq<JsonValue>)
    ensures
        all_in_or_pre(soccer_events_rows(series_id, league, evs)),
    decreases evs.len(),
{
    if evs.len() > 0 {
        lemma_soccer_events_live(series_id, league, evs.drop_last());
        lemma_all_in_or_pre_concat(
            soccer_events_rows(series_id, league, evs.drop_last()),
            soccer_event_rows(series_id, league, evs.last()),
        );
    }
}

proof fn lemma_soccer_leagues_live(ls: Seq<JsonValue>)
    ensures
        all_in_or_pre(soccer_leagues_rows(ls)),
    decreases ls.len(),
{
    if ls.len() > 0 {
        lemma_soccer_leagues_live(ls.drop_last());
        let l = ls.last();
        match field_items(l, "events"@) {
            Some(evs) => lemma_soccer_events_live(
                soccer_series_id(l),
                or_text(field_text(l, "name"@), "Football"@),
                evs,
            ),
            None => {},
        }
        lemma_all_in_or_pre_concat(soccer_leagues_rows(ls.drop_last()), soccer_league_rows(l));
    }
}

proof fn lemma_soccer_sports_live(ss: Seq<JsonValue>)
    ensures
        all_in_or_pre(soccer_sports_rows(ss)),
    decreases ss.len(),
{
    if ss.len() > 0 {
        lemma_soccer_sports_live(ss.drop_last());
        match field_items(ss.last(), "leagues"@) {
            Some(ls) => lemma_soccer_leagues_live(ls),
            None => {},
        }
        lemma_all_in_or_pre_concat(soccer_sports_rows(ss.drop_last()), soccer_sport_rows(ss.last()));
    }
}

/// Every football match found on a scoreboard is live or upcoming.
pub proof fn lemma_soccer_matches_live(value: JsonValue)
    ensures
        all_in_or_pre(soccer_matches(value)),
{
    match field_items(value, "sports"@) {
        Some(ss) => lemma_soccer_sports_live(ss),
        None => {},
    }
}

/// A football score has no batting side, no run rate and no chase, and its
/// clock, when there is one, is not empty.
pub proof fn lemma_soccer_score_shape(value: JsonValue, series_id: Seq<char>, match_id: Seq<char>, timestamp: u64)
    requires
        soccer_detail(value, series_id, match_id, timestamp) is Some,
    ensures
        ({
            let m = soccer_detail(value, series_id, match_id, timestamp)->0;
            &&& m.batting_team == 0
            &&& m.crr == RunRate::Zero
            &&& m.rrr is None && m.target is None && m.runs_needed is None
            &&& m.sport == SportType::Soccer
            &&& (m.soccer_clock matches Some(c) ==> c.len() > 0)
        }),
{
}

/// The sides of a football score are the first two competitors of the
/// summary, in order: the first side is read from the first competitor and
/// the second side from the second.
pub proof fn lemma_soccer_sides(value: JsonValue, series_id: Seq<char>, match_id: Seq<char>, timestamp: u64)
    requires
        soccer_detail(value, series_id, match_id, timestamp) is Some,
    ensures
        ({
            let m = soccer_detail(value, series_id, match_id, timestamp)->0;
            summary_competitors(value) matches Some(cs) && cs.len() >= 2 && m.team1
                == soccer_competitor_view(cs[0]) && m.team2 == soccer_competitor_view(cs[1])
        }),
{
}

} // verus!
