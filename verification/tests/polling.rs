use sportspulse::menu::{menu_action_of, menu_item_id, MenuAction};
use sportspulse::polling::{
    detail_url, discover_matches, match_to_track, next_delay_secs, parse_detail_for, parse_event_for,
    poll_delay_secs, PollState, DEFAULT_DELAY_SECS, IDLE_DELAY_SECS,
};
use sportspulse::{JsonNumber, JsonValue};
use sportspulse::{EventScore, MatchEventType, MatchScore, MatchStatus, RunRate, SportType, TeamScore};

fn side(name: &str, abbr: &str, winner: bool) -> TeamScore {
    TeamScore {
        id: String::new(),
        name: name.to_string(),
        abbreviation: abbr.to_string(),
        score: String::new(),
        runs: 0,
        wickets: 0,
        overs: None,
        is_batting: false,
        is_winner: winner,
    }
}

fn score(status: MatchStatus, w1: bool, w2: bool) -> MatchScore {
    MatchScore {
        match_id: "m".to_string(),
        series_id: "s".to_string(),
        match_title: String::new(),
        status,
        team1: side("India", "IND", w1),
        team2: side("Australia", "AUS", w2),
        batting_team: 0,
        crr: RunRate::Zero,
        rrr: None,
        target: None,
        runs_needed: None,
        timestamp: 0,
        sport: SportType::Cricket,
        soccer_clock: None,
    }
}

#[test]
fn result_is_announced_once_when_a_followed_match_ends() {
    let mut st = PollState::new();
    assert!(st.observe_score("m1", "cricket", &score(MatchStatus::Live, false, false)).is_none());
    assert_eq!(st.last_tracked_match_id, Some("m1".to_string()));
    assert_eq!(st.last_completed_match_id, None);
    let e = st.observe_score("m1", "cricket", &score(MatchStatus::Completed, false, true)).unwrap();
    assert_eq!(e.event_type, MatchEventType::Win);
    assert_eq!(e.title, "MATCH WON!");
    assert_eq!(e.description, "Australia won the match!");
    assert_eq!(e.sport, "cricket");
    match e.score {
        EventScore::Text(t) => assert_eq!(t, "IND vs AUS"),
        EventScore::Line(_) => panic!("a result has a plain score"),
    }
    assert!(st.observe_score("m1", "cricket", &score(MatchStatus::Completed, false, true)).is_none());
}

#[test]
fn match_first_seen_completed_is_not_announced() {
    let mut st = PollState::new();
    st.last_ball_id = Some("99".to_string());
    assert!(st.observe_score("m2", "soccer", &score(MatchStatus::Completed, true, false)).is_none());
    assert_eq!(st.last_ball_id, None);
    assert_eq!(st.last_completed_match_id, Some("m2".to_string()));
}

#[test]
fn completed_without_winner_is_silent_but_remembered() {
    let mut st = PollState::new();
    st.observe_score("m3", "cricket", &score(MatchStatus::Live, false, false));
    assert!(st.observe_score("m3", "cricket", &score(MatchStatus::Completed, false, false)).is_none());
    assert_eq!(st.last_completed_match_id, Some("m3".to_string()));
}

#[test]
fn poll_delays() {
    assert_eq!(poll_delay_secs(MatchStatus::Live), 1);
    assert_eq!(poll_delay_secs(MatchStatus::Break), 30);
    assert_eq!(poll_delay_secs(MatchStatus::Scheduled), 30);
    assert_eq!(poll_delay_secs(MatchStatus::Completed), 300);
    assert_eq!(poll_delay_secs(MatchStatus::NoMatch), 300);
}

#[test]
fn next_poll_delays() {
    assert_eq!(IDLE_DELAY_SECS, 300);
    assert_eq!(next_delay_secs(false, None), 300);
    assert_eq!(next_delay_secs(false, Some(MatchStatus::Live)), 300);
    assert_eq!(next_delay_secs(true, Some(MatchStatus::Live)), 1);
    assert_eq!(next_delay_secs(true, Some(MatchStatus::Break)), 30);
    assert_eq!(next_delay_secs(true, None), DEFAULT_DELAY_SECS);
}

#[test]
fn summary_address() {
    assert_eq!(
        detail_url("cricket", "8039", "1234"),
        "https://site.api.espn.com/apis/site/v2/sports/cricket/8039/summary?event=1234"
    );
}

fn row(series: &str, id: &str) -> (String, String, String, String, String, String) {
    (series.to_string(), id.to_string(), "T".to_string(), "in".to_string(), "L".to_string(), "D".to_string())
}

#[test]
fn discovered_matches_and_choice() {
    let found = discover_matches(&vec![row("1", "a")], &vec![row("eng.1", "b"), row("esp.1", "c")]);
    assert_eq!(found.len(), 3);
    assert_eq!(found[0], ("cricket".to_string(), "1".to_string(), "a".to_string(), "T".to_string(), "in".to_string(), "L".to_string()));
    assert_eq!(found[2].0, "soccer");
    assert_eq!(found[2].2, "c");
    assert_eq!(match_to_track(&None, &found), Some(("cricket".to_string(), "1".to_string(), "a".to_string())));
    let chosen = Some(("soccer".to_string(), "eng.1".to_string(), "b".to_string()));
    assert_eq!(match_to_track(&chosen, &found), chosen);
    assert_eq!(match_to_track(&None, &vec![]), None);
}

#[test]
fn menu_item_round_trip() {
    let id = menu_item_id("soccer", "uefa_champions", "777");
    assert_eq!(id, "match_soccer_uefa_champions_777");
    match menu_action_of(&id) {
        MenuAction::Select((sport, series, m)) => {
            assert_eq!(sport, "soccer");
            assert_eq!(series, "uefa_champions");
            assert_eq!(m, "777");
        }
        other => panic!("unexpected {:?}", other),
    }
}

#[test]
fn menu_other_items() {
    assert!(matches!(menu_action_of("quit"), MenuAction::Quit));
    assert!(matches!(menu_action_of("show_dashboard"), MenuAction::ShowDashboard));
    assert!(matches!(menu_action_of("match_cricket_1"), MenuAction::Ignore));
    assert!(matches!(menu_action_of("other"), MenuAction::Ignore));
    match menu_action_of("match___") {
        MenuAction::Select((a, b, c)) => assert!(a.is_empty() && b.is_empty() && c.is_empty()),
        other => panic!("unexpected {:?}", other),
    }
}

fn js(t: &str) -> JsonValue {
    JsonValue::String(t.to_string())
}

fn jobj(members: Vec<(&str, JsonValue)>) -> JsonValue {
    JsonValue::Object(members.into_iter().map(|(k, v)| (k.to_string(), v)).collect())
}

#[test]
fn detail_and_event_by_sport() {
    let comps = JsonValue::Array(vec![
        jobj(vec![("team", jobj(vec![])), ("score", JsonValue::Number(JsonNumber::PosInt(2)))]),
        jobj(vec![("team", jobj(vec![]))]),
    ]);
    let v = jobj(vec![(
        "header",
        jobj(vec![
            ("name", js("A v B")),
            ("description", js("Final")),
            (
                "competitions",
                JsonValue::Array(vec![jobj(vec![
                    ("status", jobj(vec![("type", jobj(vec![("state", js("post")), ("detail", js("FT"))]))])),
                    ("competitors", comps),
                ])]),
            ),
        ]),
    )]);
    let soccer = parse_detail_for("soccer", &v, "eng.1", "5").unwrap();
    assert_eq!(soccer.sport, SportType::Soccer);
    assert_eq!(soccer.match_title, "A v B");
    assert_eq!(soccer.team1.runs, 2);
    let cricket = parse_detail_for("cricket", &v, "1", "5").unwrap();
    assert_eq!(cricket.sport, SportType::Cricket);
    assert_eq!(cricket.match_title, "A v B • Final");
    assert_eq!(cricket.status, MatchStatus::Completed);

    let key_events = jobj(vec![(
        "keyEvents",
        JsonValue::Array(vec![jobj(vec![("id", js("1")), ("type", jobj(vec![("type", js("goal"))]))])]),
    )]);
    let mut last = None;
    assert_eq!(parse_event_for("soccer", &key_events, &mut last).unwrap().title, "GOAL!");
    let mut last = None;
    assert!(parse_event_for("cricket", &key_events, &mut last).is_none());
    assert_eq!(last, None);
}
