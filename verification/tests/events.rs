use sportspulse::events::{compose_score_text, score_line_parts};
use sportspulse::{
    extract_batsman_name, parse_latest_event, parse_soccer_latest_event, EventScore, JsonNumber,
    JsonValue, MatchEventType,
};

fn s(t: &str) -> JsonValue {
    JsonValue::String(t.to_string())
}

fn n(v: u64) -> JsonValue {
    JsonValue::Number(JsonNumber::PosInt(v))
}

fn f(v: f64) -> JsonValue {
    JsonValue::Number(JsonNumber::Float(v.to_bits()))
}

fn arr(items: Vec<JsonValue>) -> JsonValue {
    JsonValue::Array(items)
}

fn obj(members: Vec<(&str, JsonValue)>) -> JsonValue {
    JsonValue::Object(members.into_iter().map(|(k, v)| (k.to_string(), v)).collect())
}

fn with_commentary(balls: Vec<(&str, JsonValue)>) -> JsonValue {
    obj(vec![(
        "header",
        obj(vec![("competitions", arr(vec![obj(vec![("commentaries", obj(balls))])]))]),
    )])
}

fn wicket_ball() -> JsonValue {
    obj(vec![
        ("team", obj(vec![("abbreviation", s("IND"))])),
        ("homeScore", s("145/3")),
        ("over", obj(vec![("overs", f(14.2))])),
        ("shortText", s("Starc to Gill, OUT")),
        (
            "dismissal",
            obj(vec![
                ("dismissal", JsonValue::Bool(true)),
                ("text", s("c Smith b Starc")),
                ("batsman", obj(vec![("athlete", obj(vec![("displayName", s("Shubman Gill"))]))])),
            ]),
        ),
    ])
}

#[test]
fn first_ball_seen_only_sets_the_key() {
    let v = with_commentary(vec![("7", obj(vec![])), ("12", wicket_ball()), ("999999999999999", obj(vec![]))]);
    let mut last = None;
    assert!(parse_latest_event(&v, &mut last).is_none());
    assert_eq!(last, Some("12".to_string()));
}

#[test]
fn new_wicket_is_announced_once() {
    let v = with_commentary(vec![("7", obj(vec![])), ("12", wicket_ball())]);
    let mut last = Some("7".to_string());
    let e = parse_latest_event(&v, &mut last).unwrap();
    assert_eq!(e.event_type, MatchEventType::Wicket);
    assert_eq!(e.title, "Wicket!");
    assert_eq!(e.description, "Shubman Gill: c Smith b Starc (Starc to Gill, OUT)");
    assert_eq!(e.sport, "cricket");
    match e.score {
        EventScore::Line(line) => {
            assert_eq!(line.team, "IND");
            assert_eq!(line.score, "145/3");
            assert_eq!(line.overs.text, None);
            assert_eq!(line.overs.number, Some(JsonNumber::Float(14.2f64.to_bits())));
        }
        EventScore::Text(_) => panic!("a wicket has a score line"),
    }
    assert_eq!(last, Some("12".to_string()));
    assert!(parse_latest_event(&v, &mut last).is_none());
    assert_eq!(last, Some("12".to_string()));
}

#[test]
fn latest_key_is_the_largest_number() {
    let v = with_commentary(vec![("9", obj(vec![])), ("+10", obj(vec![])), ("1x", obj(vec![]))]);
    let mut last = None;
    // "+10" reads as 10, but no ball is stored under "10".
    assert!(parse_latest_event(&v, &mut last).is_none());
    assert_eq!(last, None);
    let v = with_commentary(vec![("9", obj(vec![])), ("010", obj(vec![])), ("10", obj(vec![("scoreValue", n(6))]))]);
    let mut last = Some("9".to_string());
    let e = parse_latest_event(&v, &mut last).unwrap();
    assert_eq!(e.title, "SIX!");
    assert_eq!(e.description, "");
    assert_eq!(last, Some("10".to_string()));
}

#[test]
fn boundary_is_announced() {
    let ball = obj(vec![
        ("boundary", JsonValue::Bool(true)),
        ("scoreValue", n(4)),
        ("shortText", s("Kohli, FOUR runs")),
        ("batsman", obj(vec![("athlete", obj(vec![("name", s("Virat Kohli"))]))])),
    ]);
    let v = with_commentary(vec![("3", ball)]);
    let mut last = Some("2".to_string());
    let e = parse_latest_event(&v, &mut last).unwrap();
    assert_eq!(e.event_type, MatchEventType::Boundary);
    assert_eq!(e.title, "FOUR!");
    assert_eq!(e.description, "Virat Kohli: Kohli, FOUR runs");
}

#[test]
fn ordinary_ball_is_not_announced_but_moves_the_key() {
    let v = with_commentary(vec![("5", obj(vec![("scoreValue", n(1))]))]);
    let mut last = Some("4".to_string());
    assert!(parse_latest_event(&v, &mut last).is_none());
    assert_eq!(last, Some("5".to_string()));
}

#[test]
fn summary_without_commentary_changes_nothing() {
    let mut last = Some("4".to_string());
    assert!(parse_latest_event(&obj(vec![]), &mut last).is_none());
    assert_eq!(last, Some("4".to_string()));
}

#[test]
fn batsman_name_sources_in_order() {
    let dismissal = obj(vec![("athlete", obj(vec![("shortName", s("R Sharma"))]))]);
    assert_eq!(extract_batsman_name(&obj(vec![]), &Some(&dismissal)), "R Sharma");
    let placeholder = obj(vec![("batsman", obj(vec![("displayName", s("Batsman"))]))]);
    let ball = obj(vec![
        ("batsman", obj(vec![("displayName", s(""))])),
        ("batsmen", arr(vec![obj(vec![("name", s("Batsman"))]), obj(vec![("athlete", obj(vec![("name", s("KL Rahul"))]))])])),
    ]);
    assert_eq!(extract_batsman_name(&ball, &Some(&placeholder)), "KL Rahul");
    let from_text = obj(vec![("text", s("Starc to S Gill, OUT"))]);
    assert_eq!(extract_batsman_name(&obj(vec![]), &Some(&from_text)), "S Gill");
    let ball_text = obj(vec![("text", s("R Pant run out (Jadeja)"))]);
    assert_eq!(extract_batsman_name(&ball_text, &None), "R Pant");
    assert_eq!(extract_batsman_name(&obj(vec![]), &None), "Batsman");
}

#[test]
fn score_line_parts_fall_back() {
    let line = score_line_parts(&obj(vec![
        ("team", obj(vec![("displayName", s("India"))])),
        ("score", s("10/0")),
        ("over", obj(vec![("displayValue", s("1.4"))])),
        ("overs", f(1.4)),
    ]));
    assert_eq!(line.team, "India");
    assert_eq!(line.score, "10/0");
    assert_eq!(line.overs.text, Some("1.4".to_string()));
    assert_eq!(line.overs.number, Some(JsonNumber::Float(1.4f64.to_bits())));
    let empty = score_line_parts(&obj(vec![]));
    assert_eq!((empty.team.as_str(), empty.score.as_str()), ("", ""));
    assert_eq!(empty.overs.text, None);
    assert_eq!(empty.overs.number, None);
}

#[test]
fn score_text_shapes() {
    assert_eq!(compose_score_text("IND", "145/3", "14.2", true), "IND 145/3 (14.2 ov)");
    assert_eq!(compose_score_text("", "145/3", "14.2", true), "145/3 (14.2 ov)");
    assert_eq!(compose_score_text("IND", "", "0", false), "IND (0 ov)");
    assert_eq!(compose_score_text("", "", "3.1", true), "3.1 ov");
    assert_eq!(compose_score_text("", "", "0", false), "");
}

fn key_events(evs: Vec<JsonValue>) -> JsonValue {
    obj(vec![("keyEvents", arr(evs))])
}

fn key_event(id: &str, kind: &str) -> JsonValue {
    obj(vec![
        ("id", s(id)),
        ("type", obj(vec![("type", s(kind))])),
        ("shortText", s("Saka scores")),
        ("clock", obj(vec![("displayValue", s("23'"))])),
    ])
}

#[test]
fn goal_is_announced_once() {
    let v = key_events(vec![key_event("1", "kickoff"), key_event("2", "Goal-Penalty")]);
    let mut last = None;
    let e = parse_soccer_latest_event(&v, &mut last).unwrap();
    assert_eq!(e.event_type, MatchEventType::Boundary);
    assert_eq!(e.title, "PENALTY GOAL!");
    assert_eq!(e.description, "Saka scores (23')");
    assert_eq!(e.sport, "soccer");
    assert_eq!(last, Some("2".to_string()));
    assert!(parse_soccer_latest_event(&v, &mut last).is_none());
}

#[test]
fn key_event_kinds() {
    let mut last = None;
    assert_eq!(parse_soccer_latest_event(&key_events(vec![key_event("3", "own-goal")]), &mut last).unwrap().title, "OWN GOAL!");
    assert_eq!(parse_soccer_latest_event(&key_events(vec![key_event("4", "GOAL")]), &mut last).unwrap().title, "GOAL!");
    let red = parse_soccer_latest_event(&key_events(vec![key_event("5", "red-card")]), &mut last).unwrap();
    assert_eq!(red.event_type, MatchEventType::Wicket);
    assert_eq!(red.title, "RED CARD!");
    assert!(parse_soccer_latest_event(&key_events(vec![key_event("6", "yellow-card")]), &mut last).is_none());
    assert_eq!(last, Some("6".to_string()));
    let mut scoring = key_event("7", "substitution");
    if let JsonValue::Object(ms) = &mut scoring {
        ms.push(("scoringPlay".to_string(), JsonValue::Bool(true)));
    }
    assert_eq!(parse_soccer_latest_event(&key_events(vec![scoring]), &mut last).unwrap().title, "GOAL!");
}

#[test]
fn key_event_without_type_still_moves_the_id() {
    let mut last = None;
    let v = key_events(vec![obj(vec![("id", s("9"))])]);
    assert!(parse_soccer_latest_event(&v, &mut last).is_none());
    assert_eq!(last, Some("9".to_string()));
    assert!(parse_soccer_latest_event(&key_events(vec![]), &mut last).is_none());
    assert_eq!(last, Some("9".to_string()));
}

#[test]
fn test_extract_score_str() {
    let json = obj(vec![
        ("team", obj(vec![("abbreviation", s("IND"))])),
        ("homeScore", s("145/3")),
        ("over", obj(vec![("overs", f(14.2))])),
    ]);
    let line = score_line_parts(&json);
    let over_num = line
        .overs
        .text
        .as_deref()
        .and_then(|t| t.parse::<f64>().ok())
        .or_else(|| match line.overs.number {
            Some(JsonNumber::Float(bits)) => Some(f64::from_bits(bits)),
            Some(JsonNumber::PosInt(u)) => Some(u as f64),
            Some(JsonNumber::NegInt(i)) => Some(i as f64),
            None => None,
        })
        .unwrap_or(0.0);
    let text = compose_score_text(&line.team, &line.score, &format!("{}", over_num), over_num > 0.0);
    assert_eq!(text, "IND 145/3 (14.2 ov)");
}
