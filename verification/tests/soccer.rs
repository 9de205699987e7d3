use sportspulse::soccer::parse_soccer_match_detail_at;
use sportspulse::{
    parse_soccer_competitor, parse_soccer_match_detail, parse_soccer_matches, JsonNumber, JsonValue,
    MatchStatus, RunRate, SportType,
};

fn s(t: &str) -> JsonValue {
    JsonValue::String(t.to_string())
}

fn n(v: u64) -> JsonValue {
    JsonValue::Number(JsonNumber::PosInt(v))
}

fn arr(items: Vec<JsonValue>) -> JsonValue {
    JsonValue::Array(items)
}

fn obj(members: Vec<(&str, JsonValue)>) -> JsonValue {
    JsonValue::Object(members.into_iter().map(|(k, v)| (k.to_string(), v)).collect())
}

#[test]
fn soccer_matches_are_found() {
    let board = obj(vec![(
        "sports",
        arr(vec![
            obj(vec![("slug", s("cricket")), ("leagues", arr(vec![obj(vec![("events", arr(vec![obj(vec![("status", s("in"))])]))])]))]),
            obj(vec![
                ("slug", s("soccer")),
                (
                    "leagues",
                    arr(vec![
                        obj(vec![
                            ("slug", s("eng.1")),
                            ("id", s("700")),
                            ("name", s("Premier League")),
                            (
                                "events",
                                arr(vec![
                                    obj(vec![
                                        ("id", s("11")),
                                        ("status", s("in")),
                                        ("name", s("ARS v CHE")),
                                        ("date", s("d1")),
                                        (
                                            "competitors",
                                            arr(vec![obj(vec![("displayName", s("Arsenal"))]), obj(vec![])]),
                                        ),
                                    ]),
                                    obj(vec![("id", s("12")), ("status", s("post"))]),
                                    obj(vec![("id", s("13")), ("status", s("pre"))]),
                                ]),
                            ),
                        ]),
                        obj(vec![("slug", s("")), ("id", s("750")), ("events", arr(vec![obj(vec![("status", s("pre"))])]))]),
                    ]),
                ),
            ]),
        ]),
    )]);
    let rows = parse_soccer_matches(&board);
    assert_eq!(rows.len(), 3);
    assert_eq!(
        rows[0],
        (
            "eng.1".to_string(),
            "11".to_string(),
            "Arsenal vs T2".to_string(),
            "in".to_string(),
            "Premier League".to_string(),
            "d1".to_string()
        )
    );
    assert_eq!(rows[1].1, "13");
    assert_eq!(rows[1].2, "Football Match");
    assert_eq!(rows[1].5, "");
    assert_eq!(rows[2].0, "750");
    assert_eq!(rows[2].4, "Football");
}

#[test]
fn soccer_competitor_scores() {
    let text = obj(vec![("team", obj(vec![("id", s("1")), ("displayName", s("Arsenal")), ("abbreviation", s("ARS"))])), ("score", s("3")), ("winner", JsonValue::Bool(true))]);
    let t = parse_soccer_competitor(&text);
    assert_eq!((t.id.as_str(), t.name.as_str(), t.abbreviation.as_str()), ("1", "Arsenal", "ARS"));
    assert_eq!(t.score, "3");
    assert_eq!(t.runs, 3);
    assert!(t.is_winner);
    assert_eq!(t.overs, None);
    let number = obj(vec![("score", n(12))]);
    let t = parse_soccer_competitor(&number);
    assert_eq!(t.score, "12");
    assert_eq!(t.runs, 12);
    let none = obj(vec![("displayName", s("Self"))]);
    let t = parse_soccer_competitor(&none);
    assert_eq!(t.name, "Self");
    assert_eq!(t.score, "0");
    assert_eq!(t.runs, 0);
    let odd = obj(vec![("score", s("2 (4)"))]);
    assert_eq!(parse_soccer_competitor(&odd).runs, 0);
    let big = obj(vec![("score", s("+4294967296"))]);
    assert_eq!(parse_soccer_competitor(&big).runs, 0);
    let plus = obj(vec![("score", s("+7"))]);
    assert_eq!(parse_soccer_competitor(&plus).runs, 7);
}

fn soccer_summary(status: JsonValue, comps: Vec<JsonValue>) -> JsonValue {
    obj(vec![(
        "header",
        obj(vec![("competitions", arr(vec![obj(vec![("status", status), ("competitors", arr(comps))])]))]),
    )])
}

#[test]
fn soccer_detail_reads_clock_and_status() {
    let status = obj(vec![("type", obj(vec![("state", s("in")), ("detail", s("67'"))]))]);
    let v = soccer_summary(status, vec![obj(vec![("score", n(1))]), obj(vec![("score", n(0))])]);
    let m = parse_soccer_match_detail_at(&v, "eng.1", "11", 5).unwrap();
    assert_eq!(m.match_title, "Soccer Match");
    assert_eq!(m.status, MatchStatus::Live);
    assert_eq!(m.soccer_clock, Some("67'".to_string()));
    assert_eq!(m.team1.runs, 1);
    assert_eq!(m.batting_team, 0);
    assert_eq!(m.crr, RunRate::Zero);
    assert_eq!(m.sport, SportType::Soccer);
    assert_eq!(m.timestamp, 5);
}

#[test]
fn soccer_detail_defaults() {
    let v = soccer_summary(obj(vec![]), vec![obj(vec![]), obj(vec![])]);
    let m = parse_soccer_match_detail_at(&v, "a", "b", 0).unwrap();
    assert_eq!(m.status, MatchStatus::Scheduled);
    assert_eq!(m.soccer_clock, None);
}

#[test]
fn soccer_detail_needs_status_and_two_sides() {
    let no_status = obj(vec![(
        "header",
        obj(vec![("competitions", arr(vec![obj(vec![("competitors", arr(vec![obj(vec![]), obj(vec![])]))])]))]),
    )]);
    assert!(parse_soccer_match_detail(&no_status, "a", "b").is_none());
    let one = soccer_summary(obj(vec![]), vec![obj(vec![])]);
    assert!(parse_soccer_match_detail(&one, "a", "b").is_none());
    let v = soccer_summary(obj(vec![]), vec![obj(vec![]), obj(vec![])]);
    assert!(parse_soccer_match_detail(&v, "a", "b").unwrap().timestamp > 1_600_000_000);
}
