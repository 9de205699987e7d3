use sportspulse::cricket::detail_would_panic;
use sportspulse::cricket::parse_match_detail_at;
use sportspulse::{
    get_target, parse_all_live_indian_matches, parse_competitor, parse_match_detail, JsonNumber,
    JsonValue, MatchStatus, RequiredRate, RunRate, SportType,
};

fn s(t: &str) -> JsonValue {
    JsonValue::String(t.to_string())
}

fn n(v: u64) -> JsonValue {
    JsonValue::Number(JsonNumber::PosInt(v))
}

fn f(v: f64) -> JsonValue {
    JsonValue::Number(JsonNumber::Float(v.to_bits()))
}

fn b(v: bool) -> JsonValue {
    JsonValue::Bool(v)
}

fn arr(items: Vec<JsonValue>) -> JsonValue {
    JsonValue::Array(items)
}

fn obj(members: Vec<(&str, JsonValue)>) -> JsonValue {
    JsonValue::Object(members.into_iter().map(|(k, v)| (k.to_string(), v)).collect())
}

fn team(id: &str, name: &str, abbr: &str) -> JsonValue {
    obj(vec![("id", s(id)), ("displayName", s(name)), ("abbreviation", s(abbr))])
}

fn summary(state: &str, detail: &str, c1: JsonValue, c2: JsonValue) -> JsonValue {
    obj(vec![(
        "header",
        obj(vec![
            ("name", s("India v Australia")),
            ("description", s("3rd ODI")),
            (
                "competitions",
                arr(vec![obj(vec![
                    ("status", obj(vec![("type", obj(vec![("state", s(state)), ("detail", s(detail))]))])),
                    ("competitors", arr(vec![c1, c2])),
                ])]),
            ),
        ]),
    )])
}

#[test]
fn competitor_reads_current_innings() {
    let comp = obj(vec![
        ("team", team("6", "India", "IND")),
        ("score", s("245/3")),
        (
            "linescores",
            arr(vec![
                obj(vec![("runs", n(100)), ("wickets", n(10)), ("isCurrent", b(false))]),
                obj(vec![
                    ("runs", n(245)),
                    ("wickets", n(3)),
                    ("overs", f(42.3)),
                    ("isBatting", b(true)),
                    ("isCurrent", n(1)),
                    ("score", s("245/3 (42.3)")),
                ]),
                obj(vec![("runs", n(7))]),
            ]),
        ),
        ("winner", b(false)),
    ]);
    let t = parse_competitor(&comp);
    assert_eq!(t.id, "6");
    assert_eq!(t.name, "India");
    assert_eq!(t.abbreviation, "IND");
    assert_eq!(t.runs, 245);
    assert_eq!(t.wickets, 3);
    assert_eq!(t.overs, Some(JsonNumber::Float(42.3f64.to_bits())));
    assert!(t.is_batting);
    assert!(!t.is_winner);
    assert_eq!(t.score, "245/3 (42.3)");
}

#[test]
fn competitor_falls_back_to_last_innings_and_defaults() {
    let comp = obj(vec![
        ("team", obj(vec![])),
        ("linescores", arr(vec![obj(vec![("runs", n(12))]), obj(vec![("runs", n(34)), ("target", n(300))])])),
    ]);
    let t = parse_competitor(&comp);
    assert_eq!(t.id, "");
    assert_eq!(t.name, "");
    assert_eq!(t.runs, 34);
    assert_eq!(t.overs, None);
    assert_eq!(t.score, "Yet to bat");
    assert_eq!(get_target(&comp), Some(300));
}

#[test]
fn competitor_runs_are_cut_to_u32() {
    let comp = obj(vec![("team", obj(vec![])), ("linescores", arr(vec![obj(vec![("runs", n((1u64 << 32) + 5))])]))]);
    assert_eq!(parse_competitor(&comp).runs, 5);
}

#[test]
fn target_zero_or_missing_is_none() {
    let zero = obj(vec![("linescores", arr(vec![obj(vec![("target", n(0))])]))]);
    assert_eq!(get_target(&zero), None);
    assert_eq!(get_target(&obj(vec![])), None);
    let wraps = obj(vec![("linescores", arr(vec![obj(vec![("target", n(1u64 << 32))])]))]);
    assert_eq!(get_target(&wraps), None);
}

fn batting(runs: u64, target: Option<u64>) -> JsonValue {
    let mut ls = vec![("runs", n(runs)), ("overs", f(20.0)), ("isBatting", b(true))];
    if let Some(t) = target {
        ls.push(("target", n(t)));
    }
    obj(vec![("team", team("2", "Australia", "AUS")), ("linescores", arr(vec![obj(ls)]))])
}

fn bowling() -> JsonValue {
    obj(vec![("team", team("6", "India", "IND")), ("linescores", arr(vec![obj(vec![("runs", n(280))])]))])
}

#[test]
fn detail_of_a_chase() {
    let v = summary("in", "Australia need 120 runs", bowling(), batting(161, Some(281)));
    let m = parse_match_detail_at(&v, "8039", "1234", 77).unwrap();
    assert_eq!(m.match_title, "India v Australia • 3rd ODI");
    assert_eq!(m.status, MatchStatus::Live);
    assert_eq!(m.batting_team, 2);
    assert_eq!(m.crr, RunRate::Of { runs: 161, overs: Some(JsonNumber::Float(20.0f64.to_bits())) });
    assert_eq!(m.target, Some(281));
    assert_eq!(m.runs_needed, Some(120));
    assert_eq!(
        m.rrr,
        Some(RequiredRate::Of {
            runs_needed: 120,
            limited_overs: None,
            overs: Some(JsonNumber::Float(20.0f64.to_bits()))
        })
    );
    assert_eq!(m.timestamp, 77);
    assert_eq!(m.sport, SportType::Cricket);
    assert_eq!(m.soccer_clock, None);
    assert_eq!(m.series_id, "8039");
    assert_eq!(m.match_id, "1234");
}

#[test]
fn detail_of_a_chase_won() {
    let v = summary("post", "Australia won", bowling(), batting(290, Some(281)));
    let m = parse_match_detail_at(&v, "1", "2", 0).unwrap();
    assert_eq!(m.status, MatchStatus::Completed);
    assert_eq!(m.runs_needed, Some(0));
    assert_eq!(m.rrr, Some(RequiredRate::Zero));
}

#[test]
fn detail_without_batting_side() {
    let v = summary("pre", "Starts at 9:00", bowling(), bowling());
    let m = parse_match_detail_at(&v, "1", "2", 0).unwrap();
    assert_eq!(m.status, MatchStatus::Scheduled);
    assert_eq!(m.batting_team, 0);
    assert_eq!(m.crr, RunRate::Zero);
    assert_eq!(m.target, None);
    assert_eq!(m.rrr, None);
}

#[test]
fn detail_break_is_read_from_any_case() {
    let v = summary("in", "LUNCH - Day 2", bowling(), batting(10, None));
    assert_eq!(parse_match_detail_at(&v, "1", "2", 0).unwrap().status, MatchStatus::Break);
    let v = summary("in", "Drinks", bowling(), batting(10, None));
    assert_eq!(parse_match_detail_at(&v, "1", "2", 0).unwrap().status, MatchStatus::Break);
    let v = summary("in", "Rain stops play", bowling(), batting(10, None));
    assert_eq!(parse_match_detail_at(&v, "1", "2", 0).unwrap().status, MatchStatus::Break);
    let v = summary("in", "Day 2 - Session 1", bowling(), batting(10, None));
    assert_eq!(parse_match_detail_at(&v, "1", "2", 0).unwrap().status, MatchStatus::Live);
    let v = summary("odd", "lunch", bowling(), batting(10, None));
    assert_eq!(parse_match_detail_at(&v, "1", "2", 0).unwrap().status, MatchStatus::NoMatch);
}

#[test]
fn detail_needs_header_and_two_competitors() {
    assert!(parse_match_detail(&obj(vec![]), "1", "2").is_none());
    let one = obj(vec![(
        "header",
        obj(vec![
            ("name", s("a")),
            ("description", s("b")),
            (
                "competitions",
                arr(vec![obj(vec![
                    ("status", obj(vec![("type", obj(vec![("state", s("in")), ("detail", s(""))]))])),
                    ("competitors", arr(vec![bowling()])),
                ])]),
            ),
        ]),
    )]);
    assert!(parse_match_detail(&one, "1", "2").is_none());
}

#[test]
fn detail_is_stamped_with_the_clock() {
    let v = summary("in", "", bowling(), batting(1, None));
    let m = parse_match_detail(&v, "1", "2").unwrap();
    assert!(m.timestamp > 1_600_000_000);
}

#[test]
fn detail_without_team_would_panic() {
    let v = summary("in", "", bowling(), obj(vec![("score", s("1"))]));
    assert!(detail_would_panic(&v));
    let ok = summary("in", "", bowling(), bowling());
    assert!(!detail_would_panic(&ok));
    assert!(!detail_would_panic(&obj(vec![])));
}

fn event(id: &str, status: &str, comps: Vec<JsonValue>) -> JsonValue {
    obj(vec![
        ("id", s(id)),
        ("status", s(status)),
        ("name", s("A v B")),
        ("date", s("2024-01-01T09:00Z")),
        ("competitors", arr(comps)),
    ])
}

fn comp(id: &str, name: &str) -> JsonValue {
    obj(vec![("id", s(id)), ("displayName", s(name))])
}

#[test]
fn live_indian_matches_are_found() {
    let board = obj(vec![(
        "sports",
        arr(vec![
            obj(vec![("slug", s("soccer")), ("leagues", arr(vec![obj(vec![("id", s("x")), ("events", arr(vec![event("9", "in", vec![comp("6", "India")])]))])]))]),
            obj(vec![
                ("slug", s("cricket")),
                (
                    "leagues",
                    arr(vec![
                        obj(vec![
                            ("id", s("100")),
                            ("name", s("India tour")),
                            (
                                "events",
                                arr(vec![
                                    event("1", "in", vec![comp("2", "Australia"), comp("40", "INDIA")]),
                                    event("2", "post", vec![comp("6", "India")]),
                                    event("3", "pre", vec![comp("6", "x")]),
                                    event("4", "in", vec![comp("1", "England"), comp("2", "Australia")]),
                                    event("5", "pre", vec![comp("7", "Ind")]),
                                ]),
                            ),
                        ]),
                        obj(vec![("events", arr(vec![obj(vec![("status", s("in")), ("competitors", arr(vec![comp("6", "")]))])]))]),
                    ]),
                ),
            ]),
        ]),
    )]);
    let rows = parse_all_live_indian_matches(&board);
    let ids: Vec<&str> = rows.iter().map(|r| r.1.as_str()).collect();
    assert_eq!(ids, vec!["1", "3", "5", ""]);
    assert_eq!(
        rows[0],
        (
            "100".to_string(),
            "1".to_string(),
            "A v B".to_string(),
            "in".to_string(),
            "India tour".to_string(),
            "2024-01-01T09:00Z".to_string()
        )
    );
    assert_eq!(rows[3].0, "");
    assert_eq!(rows[3].2, "Cricket Match");
    assert_eq!(rows[3].4, "Cricket");
    assert_eq!(rows[3].5, "");
    assert!(rows.iter().all(|r| r.3 == "in" || r.3 == "pre"));
}

#[test]
fn scoreboard_without_sports_is_empty() {
    assert!(parse_all_live_indian_matches(&obj(vec![])).is_empty());
    assert!(parse_all_live_indian_matches(&obj(vec![("sports", s("x"))])).is_empty());
}

#[test]
fn national_sides_count_and_franchise_sides_do_not() {
    let board = obj(vec![(
        "sports",
        arr(vec![obj(vec![
            ("slug", s("cricket")),
            (
                "leagues",
                arr(vec![obj(vec![
                    ("id", s("8048")),
                    ("name", s("IPL")),
                    (
                        "events",
                        arr(vec![
                            event("9", "in", vec![comp("335978", "Mumbai Indians"), comp("335974", "Chennai Super Kings")]),
                            event("10", "in", vec![comp("1026", "India Women"), comp("41", "England Women")]),
                            event("11", "pre", vec![comp("1", "England"), comp("77", "India")]),
                            event("12", "in", vec![comp("5", "Indians"), comp("6x", "Indiana")]),
                            event("13", "in", vec![comp("9", "INDIA A"), comp("2", "Australia A")]),
                        ]),
                    ),
                ])]),
            ),
        ])]),
    )]);
    let rows = parse_all_live_indian_matches(&board);
    let ids: Vec<&str> = rows.iter().map(|r| r.1.as_str()).collect();
    assert_eq!(ids, vec!["10", "11", "13"]);
}
