//! Reading the latest notable moment of a match out of its summary.
use vstd::prelude::*;
use crate::batsman::{batsman_from_text, parse_batsman_from_text};
use crate::cricket::{first_competition, first_competition_of};
use crate::json::{
    array_field, entry_value, field_items, field_numeric, field_text, field_true, field_unsigned,
    deref_value, lookup, number_field, or_text, or_zero, str_field, str_field_or, true_field,
    u64_field, JsonValue,
};
use crate::text::{
    chars_of, contains, decimal, holds, lowercase, parse_u64, parsed_unsigned, same_text,
    to_lowercase, u64_to_string,
};
use crate::models::{
    event_view, opt_view, EventScore, EventScoreView, MatchEvent, MatchEventType, MatchEventView,
    OversReading, OversReadingView, ScoreLine, ScoreLineView,
};

verus! {

/// Whether `n` is a usable batsman's name: not empty and not the placeholder
/// "Batsman".
pub open spec fn good_name(n: Seq<char>) -> bool {
    n.len() > 0 && n != "Batsman"@
}

/// `o` when it is a usable name.
pub open spec fn usable(o: Option<Seq<char>>) -> Option<Seq<char>> {
    match o {
        Some(n) => if good_name(n) {
            Some(n)
        } else {
            None
        },
        None => None,
    }
}

/// `a`, or `b` when there is no `a`.
pub open spec fn either(a: Option<Seq<char>>, b: Option<Seq<char>>) -> Option<Seq<char>> {
    match a {
        Some(x) => Some(x),
        None => b,
    }
}

/// The text of an optional value.
pub open spec fn text_of(o: Option<JsonValue>) -> Option<Seq<char>> {
    match o {
        Some(x) => x.text(),
        None => None,
    }
}

/// The first of the members `a`, `b` of `v` that is there.
pub open spec fn first_of2(v: JsonValue, a: Seq<char>, b: Seq<char>) -> Option<JsonValue> {
    match v.field(a) {
        Some(x) => Some(x),
        None => v.field(b),
    }
}

/// The first of the members `a`, `b`, `c` of `v` that is there.
pub open spec fn first_of3(v: JsonValue, a: Seq<char>, b: Seq<char>, c: Seq<char>) -> Option<
    JsonValue,
> {
    match v.field(a) {
        Some(x) => Some(x),
        None => first_of2(v, b, c),
    }
}

/// The usable name of a person: the first of its `displayName`, `name` and
/// `shortName` that is there, when that is usable text.
pub open spec fn long_name(v: JsonValue) -> Option<Seq<char>> {
    usable(text_of(first_of3(v, "displayName"@, "name"@, "shortName"@)))
}

/// The usable name of a person: the first of its `displayName` and `name`
/// that is there, when that is usable text.
pub open spec fn short_name(v: JsonValue) -> Option<Seq<char>> {
    usable(text_of(first_of2(v, "displayName"@, "name"@)))
}

/// The name a dismissal record gives: that of its batsman's athlete, of its
/// batsman, or of its athlete.
pub open spec fn dismissal_name(d: JsonValue) -> Option<Seq<char>> {
    let from_batsman = match d.field("batsman"@) {
        Some(b) => either(
            match b.field("athlete"@) {
                Some(a) => long_name(a),
                None => None,
            },
            long_name(b),
        ),
        None => None,
    };
    either(
        from_batsman,
        match d.field("athlete"@) {
            Some(a) => long_name(a),
            None => None,
        },
    )
}

/// The name the batsman of a ball gives: that of its athlete or its own.
pub open spec fn ball_batsman_name(ball: JsonValue) -> Option<Seq<char>> {
    match ball.field("batsman"@) {
        Some(b) => either(
            match b.field("athlete"@) {
                Some(a) => short_name(a),
                None => None,
            },
            short_name(b),
        ),
        None => None,
    }
}

/// The name an entry of a ball's batsmen gives: the first of its athlete's
/// `displayName` and `name`, else of its own, when that is usable text.
pub open spec fn listed_name(b: JsonValue) -> Option<Seq<char>> {
    let from_athlete = match b.field("athlete"@) {
        Some(a) => first_of2(a, "displayName"@, "name"@),
        None => None,
    };
    let v = match from_athlete {
        Some(x) => Some(x),
        None => first_of2(b, "displayName"@, "name"@),
    };
    usable(text_of(v))
}

/// The first name the batsmen `bs` give.
pub open spec fn batsmen_name(bs: Seq<JsonValue>) -> Option<Seq<char>>
    decreases bs.len(),
{
    if bs.len() == 0 {
        None
    } else {
        either(listed_name(bs[0]), batsmen_name(bs.drop_first()))
    }
}

/// The usable name a line of commentary gives.
pub open spec fn text_name(t: Option<Seq<char>>) -> Option<Seq<char>> {
    match t {
        Some(s) => usable(batsman_from_text(s)),
        None => None,
    }
}

/// The batsman's name of a ball, with its dismissal record if any: the
/// first usable name among the dismissal record's people, the ball's
/// batsman, its batsmen, and the lines of commentary of the dismissal and of
/// the ball; "Batsman" when there is none.
pub open spec fn batsman_name(ball: JsonValue, dismissal: Option<JsonValue>) -> Seq<char> {
    let from_dismissal = match dismissal {
        Some(d) => dismissal_name(d),
        None => None,
    };
    let from_list = match field_items(ball, "batsmen"@) {
        Some(bs) => batsmen_name(bs),
        None => None,
    };
    let from_dismissal_text = match dismissal {
        Some(d) => either(text_name(field_text(d, "text"@)), text_name(field_text(d, "shortText"@))),
        None => None,
    };
    let from_ball_text = either(
        text_name(field_text(ball, "shortText"@)),
        text_name(field_text(ball, "text"@)),
    );
    or_text(
        either(
            from_dismissal,
            either(
                ball_batsman_name(ball),
                either(from_list, either(from_dismissal_text, from_ball_text)),
            ),
        ),
        "Batsman"@,
    )
}

fn keep_usable(o: Option<&str>) -> (r: Option<String>)
    ensures
        opt_view(r) == usable(match o {
            Some(s) => Some(s@),
            None => None,
        }),
{
    match o {
        Some(s) => if !s.is_empty() && !same_text(s, "Batsman") {
            Some(s.to_owned())
        } else {
            None
        },
        None => None,
    }
}

fn first_present2<'a>(v: &'a JsonValue, a: &str, b: &str) -> (r: Option<&'a JsonValue>)
    ensures
        deref_value(r) == first_of2(*v, a@, b@),
{
    match v.get(a) {
        Some(x) => Some(x),
        None => v.get(b),
    }
}

fn first_present3<'a>(v: &'a JsonValue, a: &str, b: &str, c: &str) -> (r: Option<&'a JsonValue>)
    ensures
        deref_value(r) == first_of3(*v, a@, b@, c@),
{
    match v.get(a) {
        Some(x) => Some(x),
        None => first_present2(v, b, c),
    }
}

fn text_of_value(o: Option<&JsonValue>) -> (r: Option<&str>)
    ensures
        match r {
            Some(s) => text_of(deref_value(o)) == Some(s@),
            None => text_of(deref_value(o)) is None,
        },
{
    match o {
        Some(x) => x.as_str(),
        None => None,
    }
}

fn long_name_of(v: &JsonValue) -> (r: Option<String>)
    ensures
        opt_view(r) == long_name(*v),
{
    keep_usable(text_of_value(first_present3(v, "displayName", "name", "shortName")))
}

fn short_name_of(v: &JsonValue) -> (r: Option<String>)
    ensures
        opt_view(r) == short_name(*v),
{
    keep_usable(text_of_value(first_present2(v, "displayName", "name")))
}

fn dismissal_name_of(d: &JsonValue) -> (r: Option<String>)
    ensures
        opt_view(r) == dismissal_name(*d),
{
    match d.get("batsman") {
        Some(b) => {
            match b.get("athlete") {
                Some(a) => match long_name_of(a) {
                    Some(n) => return Some(n),
                    None => {},
                },
                None => {},
            }
            match long_name_of(b) {
                Some(n) => return Some(n),
                None => {},
            }
        },
        None => {},
    }
    match d.get("athlete") {
        Some(a) => long_name_of(a),
        None => None,
    }
}

fn ball_batsman_name_of(ball: &JsonValue) -> (r: Option<String>)
    ensures
        opt_view(r) == ball_batsman_name(*ball),
{
    match ball.get("batsman") {
        Some(b) => {
            match b.get("athlete") {
                Some(a) => match short_name_of(a) {
                    Some(n) => return Some(n),
                    None => {},
                },
                None => {},
            }
            short_name_of(b)
        },
        None => None,
    }
}

fn listed_name_of(b: &JsonValue) -> (r: Option<String>)
    ensures
        opt_view(r) == listed_name(*b),
{
    let from_athlete = match b.get("athlete") {
        Some(a) => first_present2(a, "displayName", "name"),
        None => None,
    };
    let v = match from_athlete {
        Some(x) => Some(x),
        None => first_present2(b, "displayName", "name"),
    };
    keep_usable(text_of_value(v))
}

fn batsmen_name_of(bs: &Vec<JsonValue>) -> (r: Option<String>)
    ensures
        opt_view(r) == batsmen_name(bs@),
{
    let n = bs.len();
    assert(bs@.skip(0) =~= bs@);
    for i in 0..n
        invariant
            n == bs.len(),
            batsmen_name(bs@) == batsmen_name(bs@.skip(i as int)),
    {
        assert(bs@.skip(i as int).drop_first() =~= bs@.skip(i + 1));
        assert(bs@.skip(i as int)[0] == bs@[i as int]);
        match listed_name_of(&bs[i]) {
            Some(name) => return Some(name),
            None => {},
        }
    }
    assert(bs@.skip(n as int) =~= Seq::<JsonValue>::empty());
    None
}

fn text_name_of(t: Option<&str>) -> (r: Option<String>)
    ensures
        opt_view(r) == text_name(match t {
            Some(s) => Some(s@),
            None => None,
        }),
{
    match t {
        Some(s) => match parse_batsman_from_text(s) {
            Some(name) => keep_usable(Some(name.as_str())),
            None => None,
        },
        None => None,
    }
}

/// The batsman's name of a ball, given its dismissal record if any.
pub fn extract_batsman_name(ball_data: &JsonValue, dismissal: &Option<&JsonValue>) -> (r: String)
    ensures
        r@ == batsman_name(*ball_data, deref_value(*dismissal)),
{
    match dismissal {
        Some(d) => match dismissal_name_of(d) {
            Some(n) => return n,
            None => {},
        },
        None => {},
    }
    match ball_batsman_name_of(ball_data) {
        Some(n) => return n,
        None => {},
    }
    match array_field(ball_data, "batsmen") {
        Some(bs) => match batsmen_name_of(bs) {
            Some(n) => return n,
            None => {},
        },
        None => {},
    }
    match dismissal {
        Some(d) => {
            match text_name_of(str_field(d, "text")) {
                Some(n) => return n,
                None => {},
            }
            match text_name_of(str_field(d, "shortText")) {
                Some(n) => return n,
                None => {},
            }
        },
        None => {},
    }
    match text_name_of(str_field(ball_data, "shortText")) {
        Some(n) => return n,
        None => {},
    }
    match text_name_of(str_field(ball_data, "text")) {
        Some(n) => return n,
        None => {},
    }
    "Batsman".to_owned()
}

/// Where the overs of a ball are read from: the ball's `over` record's
/// `overs` (or, when absent, its `displayValue`), a number as it is and a
/// text to be read as a number, with the ball's own `overs` number to fall
/// back on.
pub open spec fn overs_reading(ball: JsonValue) -> OversReadingView {
    let fallback = field_numeric(ball, "overs"@);
    let primary = match ball.field("over"@) {
        Some(o) => first_of2(o, "overs"@, "displayValue"@),
        None => None,
    };
    match primary {
        Some(v) => match v.numeric() {
            Some(n) => OversReadingView { text: None, number: Some(n) },
            None => OversReadingView { text: v.text(), number: fallback },
        },
        None => OversReadingView { text: None, number: fallback },
    }
}

/// The parts of the score line of a ball: the batting side's abbreviation
/// (or display name), the score (`homeScore`, `currentScore` or `score`, the
/// first there) and the overs.
pub open spec fn score_line(ball: JsonValue) -> ScoreLineView {
    let team = match ball.field("team"@) {
        Some(t) => text_of(first_of2(t, "abbreviation"@, "displayName"@)),
        None => None,
    };
    ScoreLineView {
        team: or_text(team, ""@),
        score: or_text(text_of(first_of3(ball, "homeScore"@, "currentScore"@, "score"@)), ""@),
        overs: overs_reading(ball),
    }
}

/// The text of a score line, given the overs as written and whether they are
/// more than zero: "TEAM SCORE (OVERS ov)", leaving out an empty team or
/// score; with neither, "OVERS ov" when the overs are more than zero and
/// nothing otherwise.
pub open spec fn score_text(team: Seq<char>, score: Seq<char>, overs: Seq<char>, positive: bool) -> Seq<
    char,
> {
    if team.len() > 0 && score.len() > 0 {
        team + " "@ + score + " ("@ + overs + " ov)"@
    } else if score.len() > 0 {
        score + " ("@ + overs + " ov)"@
    } else if team.len() > 0 {
        team + " ("@ + overs + " ov)"@
    } else if positive {
        overs + " ov"@
    } else {
        ""@
    }
}

/// The parts of the score line of a ball.
pub fn score_line_parts(ball: &JsonValue) -> (r: ScoreLine)
    ensures
        r@ == score_line(*ball),
{
    let team = match ball.get("team") {
        Some(t) => text_of_value(first_present2(t, "abbreviation", "displayName")),
        None => None,
    };
    let team = match team {
        Some(t) => t.to_owned(),
        None => "".to_owned(),
    };
    let score = match text_of_value(first_present3(ball, "homeScore", "currentScore", "score")) {
        Some(t) => t.to_owned(),
        None => "".to_owned(),
    };
    let fallback = number_field(ball, "overs");
    let primary = match ball.get("over") {
        Some(o) => first_present2(o, "overs", "displayValue"),
        None => None,
    };
    let overs = match primary {
        Some(v) => match v.as_number() {
            Some(n) => OversReading { text: None, number: Some(n) },
            None => OversReading {
                text: match v.as_str() {
                    Some(t) => Some(t.to_owned()),
                    None => None,
                },
                number: fallback,
            },
        },
        None => OversReading { text: None, number: fallback },
    };
    ScoreLine { team, score, overs }
}

/// The text of a score line (see `score_text`).
pub fn compose_score_text(team: &str, score: &str, overs: &str, positive: bool) -> (r: String)
    ensures
        r@ == score_text(team@, score@, overs@, positive),
{
    if !team.is_empty() && !score.is_empty() {
        let mut r = team.to_owned();
        r.append(" ");
        r.append(score);
        r.append(" (");
        r.append(overs);
        r.append(" ov)");
        r
    } else if !score.is_empty() {
        let mut r = score.to_owned();
        r.append(" (");
        r.append(overs);
        r.append(" ov)");
        r
    } else if !team.is_empty() {
        let mut r = team.to_owned();
        r.append(" (");
        r.append(overs);
        r.append(" ov)");
        r
    } else if positive {
        let mut r = overs.to_owned();
        r.append(" ov");
        r
    } else {
        "".to_owned()
    }
}

/// The event a ball of cricket makes: a wicket when its dismissal record says
/// so, else a boundary when it is one or scores four or six, else none.
pub open spec fn ball_event(ball: JsonValue) -> Option<MatchEventView> {
    let d = ball.field("dismissal"@);
    let is_dismissal = match d {
        Some(dv) => field_true(dv, "dismissal"@),
        None => false,
    };
    let short = or_text(field_text(ball, "shortText"@), ""@);
    let line = EventScoreView::Line(score_line(ball));
    if is_dismissal {
        let name = batsman_name(ball, d);
        let dtext = or_text(
            match d {
                Some(dv) => field_text(dv, "text"@),
                None => None,
            },
            ""@,
        );
        let desc = if dtext.len() > 0 {
            name + ": "@ + dtext + " ("@ + short + ")"@
        } else if short.len() > 0 {
            name + ": "@ + short
        } else {
            name
        };
        Some(
            MatchEventView {
                event_type: MatchEventType::Wicket,
                title: "Wicket!"@,
                description: desc,
                score: line,
                sport: "cricket"@,
            },
        )
    } else {
        let sv = or_zero(field_unsigned(ball, "scoreValue"@));
        if field_true(ball, "boundary"@) || sv == 4 || sv == 6 {
            let name = batsman_name(ball, None);
            let desc = if good_name(name) {
                name + ": "@ + short
            } else {
                short
            };
            Some(
                MatchEventView {
                    event_type: MatchEventType::Boundary,
                    title: if sv == 6 {
                        "SIX!"@
                    } else {
                        "FOUR!"@
                    },
                    description: desc,
                    score: line,
                    sport: "cricket"@,
                },
            )
        } else {
            None
        }
    }
}

/// The members of the commentary of a cricket summary.
pub open spec fn commentaries(value: JsonValue) -> Option<Seq<(String, JsonValue)>> {
    match value.field("header"@) {
        Some(h) => match first_competition(h) {
            Some(c) => match c.field("commentaries"@) {
                Some(x) => x.members(),
                None => None,
            },
            None => None,
        },
        None => None,
    }
}

/// The ball number a commentary key stands for: the key read as a `u64`,
/// except the key "999999999999999", which stands for none.
pub open spec fn key_number(k: Seq<char>) -> Option<nat> {
    if k == "999999999999999"@ {
        None
    } else {
        parsed_unsigned(k, u64::MAX as nat)
    }
}

/// The largest ball number among the keys of `es`.
pub open spec fn latest_key(es: Seq<(String, JsonValue)>) -> Option<nat>
    decreases es.len(),
{
    if es.len() == 0 {
        None
    } else {
        let prev = latest_key(es.drop_last());
        match key_number(es.last().0@) {
            Some(k) => if prev is None || k > prev->0 {
                Some(k)
            } else {
                prev
            },
            None => prev,
        }
    }
}

/// The latest ball of a cricket summary: the key written as the decimal
/// numeral of the largest ball number, and the commentary stored under it.
pub open spec fn latest_ball(value: JsonValue) -> Option<(Seq<char>, JsonValue)> {
    match commentaries(value) {
        Some(es) => match latest_key(es) {
            Some(k) => match entry_value(es, decimal(k)) {
                Some(b) => Some((decimal(k), b)),
                None => None,
            },
            None => None,
        },
        None => None,
    }
}

/// The event the latest ball of a cricket summary makes, given the key of
/// the ball seen last, and the key of the ball seen last afterwards. The
/// first ball seen only sets the key; a ball seen before makes no event.
pub open spec fn latest_event(value: JsonValue, last: Option<Seq<char>>) -> (
    Option<MatchEventView>,
    Option<Seq<char>>,
) {
    match latest_ball(value) {
        Some((key, ball)) => match last {
            None => (None, Some(key)),
            Some(prev) => if prev == key {
                (None, last)
            } else {
                (ball_event(ball), Some(key))
            },
        },
        None => (None, last),
    }
}

fn commentaries_of(value: &JsonValue) -> (r: Option<&Vec<(String, JsonValue)>>)
    ensures
        match r {
            Some(es) => commentaries(*value) == Some(es@),
            None => commentaries(*value) is None,
        },
{
    let h = match value.get("header") {
        Some(h) => h,
        None => return None,
    };
    let c = match first_competition_of(h) {
        Some(c) => c,
        None => return None,
    };
    match c.get("commentaries") {
        Some(x) => x.as_object(),
        None => None,
    }
}

fn key_number_of(k: &String) -> (r: Option<u64>)
    ensures
        match r {
            Some(n) => key_number(k@) == Some(n as nat),
            None => key_number(k@) is None,
        },
{
    if same_text(k.as_str(), "999999999999999") {
        None
    } else {
        parse_u64(&chars_of(k.as_str()))
    }
}

fn latest_key_of(es: &Vec<(String, JsonValue)>) -> (r: Option<u64>)
    ensures
        match r {
            Some(n) => latest_key(es@) == Some(n as nat),
            None => latest_key(es@) is None,
        },
{
    let n = es.len();
    let mut best: Option<u64> = None;
    assert(es@.take(0) =~= Seq::<(String, JsonValue)>::empty());
    for i in 0..n
        invariant
            n == es.len(),
            match best {
                Some(b) => latest_key(es@.take(i as int)) == Some(b as nat),
                None => latest_key(es@.take(i as int)) is None,
            },
    {
        assert(es@.take(i + 1).drop_last() =~= es@.take(i as int));
        assert(es@.take(i + 1).last() == es@[i as int]);
        match key_number_of(&es[i].0) {
            Some(k) => {
                match best {
                    None => {
                        best = Some(k);
                    },
                    Some(b) => {
                        if k > b {
                            best = Some(k);
                        }
                    },
                }
            },
            None => {},
        }
    }
    assert(es@.take(n as int) =~= es@);
    best
}

fn ball_event_of(ball: &JsonValue) -> (r: Option<MatchEvent>)
    ensures
        event_view(r) == ball_event(*ball),
{
    let line = EventScore::Line(score_line_parts(ball));
    let dismissal = ball.get("dismissal");
    let is_dismissal = match dismissal {
        Some(d) => true_field(d, "dismissal"),
        None => false,
    };
    let short = str_field_or(ball, "shortText", "");
    if is_dismissal {
        let name = extract_batsman_name(ball, &dismissal);
        let dtext = match dismissal {
            Some(d) => str_field_or(d, "text", ""),
            None => "".to_owned(),
        };
        let description = if !dtext.as_str().is_empty() {
            let mut t = name;
            t.append(": ");
            t.append(dtext.as_str());
            t.append(" (");
            t.append(short.as_str());
            t.append(")");
            t
        } else if !short.as_str().is_empty() {
            let mut t = name;
            t.append(": ");
            t.append(short.as_str());
            t
        } else {
            name
        };
        return Some(
            MatchEvent {
                event_type: MatchEventType::Wicket,
                title: "Wicket!".to_owned(),
                description,
                score: line,
                sport: "cricket".to_owned(),
            },
        );
    }
    let sv = match u64_field(ball, "scoreValue") {
        Some(v) => v,
        None => 0,
    };
    if true_field(ball, "boundary") || sv == 4 || sv == 6 {
        let none: Option<&JsonValue> = None;
        let name = extract_batsman_name(ball, &none);
        let description = if !name.as_str().is_empty() && !same_text(name.as_str(), "Batsman") {
            let mut t = name;
            t.append(": ");
            t.append(short.as_str());
            t
        } else {
            short
        };
        let title = if sv == 6 {
            "SIX!".to_owned()
        } else {
            "FOUR!".to_owned()
        };
        return Some(
            MatchEvent {
                event_type: MatchEventType::Boundary,
                title,
                description,
                score: line,
                sport: "cricket".to_owned(),
            },
        );
    }
    None
}

/// The event the latest ball of a cricket summary makes, if it is a ball not
/// seen before; `last_ball_id` holds the key of the ball seen last and is
/// moved on to the latest one.
pub fn parse_latest_event(value: &JsonValue, last_ball_id: &mut Option<String>) -> (r: Option<
    MatchEvent,
>)
    ensures
        event_view(r) == latest_event(*value, opt_view(*old(last_ball_id))).0,
        opt_view(*final(last_ball_id)) == latest_event(*value, opt_view(*old(last_ball_id))).1,
{
    let es = match commentaries_of(value) {
        Some(es) => es,
        None => return None,
    };
    let k = match latest_key_of(es) {
        Some(k) => k,
        None => return None,
    };
    let key = u64_to_string(k);
    let ball = match lookup(es, key.as_str()) {
        Some(b) => b,
        None => return None,
    };
    let is_new = match last_ball_id {
        Some(prev) => !same_text(prev.as_str(), key.as_str()),
        None => {
            *last_ball_id = Some(key);
            return None;
        },
    };
    if !is_new {
        return None;
    }
    *last_ball_id = Some(key);
    ball_event_of(ball)
}

/// The event a key event of a football summary makes: a goal (own goal,
/// penalty goal or plain) when its type mentions a goal or it is a scoring
/// play, a red card when its type mentions red, else none. Its description
/// is "TEXT (CLOCK)".
pub open spec fn key_event(ev: JsonValue) -> Option<MatchEventView> {
    match ev.field("type"@) {
        Some(ty) => match field_text(ty, "type"@) {
            Some(raw) => {
                let slug = lowercase(raw);
                let short = or_text(field_text(ev, "shortText"@), ""@);
                let clock = or_text(
                    match ev.field("clock"@) {
                        Some(c) => field_text(c, "displayValue"@),
                        None => None,
                    },
                    ""@,
                );
                let desc = short + " ("@ + clock + ")"@;
                if holds(slug, "goal"@) || field_true(ev, "scoringPlay"@) {
                    Some(
                        MatchEventView {
                            event_type: MatchEventType::Boundary,
                            title: if holds(slug, "own"@) {
                                "OWN GOAL!"@
                            } else if holds(slug, "penalty"@) {
                                "PENALTY GOAL!"@
                            } else {
                                "GOAL!"@
                            },
                            description: desc,
                            score: EventScoreView::Text(""@),
                            sport: "soccer"@,
                        },
                    )
                } else if holds(slug, "red"@) {
                    Some(
                        MatchEventView {
                            event_type: MatchEventType::Wicket,
                            title: "RED CARD!"@,
                            description: desc,
                            score: EventScoreView::Text(""@),
                            sport: "soccer"@,
                        },
                    )
                } else {
                    None
                }
            },
            None => None,
        },
        None => None,
    }
}

/// The event the last key event of a football summary makes, given the id
/// of the key event seen last, and that id afterwards. A key event seen
/// before makes no event and changes nothing.
pub open spec fn soccer_latest_event(value: JsonValue, last: Option<Seq<char>>) -> (
    Option<MatchEventView>,
    Option<Seq<char>>,
) {
    match field_items(value, "keyEvents"@) {
        Some(kes) => if kes.len() == 0 {
            (None, last)
        } else {
            match field_text(kes.last(), "id"@) {
                Some(id) => if last == Some(id) {
                    (None, last)
                } else {
                    (key_event(kes.last()), Some(id))
                },
                None => (None, last),
            }
        },
        None => (None, last),
    }
}

fn key_event_of(ev: &JsonValue) -> (r: Option<MatchEvent>)
    ensures
        event_view(r) == key_event(*ev),
{
    let ty = match ev.get("type") {
        Some(t) => t,
        None => return None,
    };
    let raw = match str_field(ty, "type") {
        Some(t) => t,
        None => return None,
    };
    let slug = chars_of(to_lowercase(raw).as_str());
    let short = str_field_or(ev, "shortText", "");
    let clock = match ev.get("clock") {
        Some(c) => str_field(c, "displayValue"),
        None => None,
    };
    let clock = match clock {
        Some(t) => t.to_owned(),
        None => "".to_owned(),
    };
    let mut description = short;
    description.append(" (");
    description.append(clock.as_str());
    description.append(")");
    if contains(&slug, &chars_of("goal")) || true_field(ev, "scoringPlay") {
        let title = if contains(&slug, &chars_of("own")) {
            "OWN GOAL!".to_owned()
        } else if contains(&slug, &chars_of("penalty")) {
            "PENALTY GOAL!".to_owned()
        } else {
            "GOAL!".to_owned()
        };
        Some(
            MatchEvent {
                event_type: MatchEventType::Boundary,
                title,
                description,
                score: EventScore::Text("".to_owned()),
                sport: "soccer".to_owned(),
            },
        )
    } else if contains(&slug, &chars_of("red")) {
        Some(
            MatchEvent {
                event_type: MatchEventType::Wicket,
                title: "RED CARD!".to_owned(),
                description,
                score: EventScore::Text("".to_owned()),
                sport: "soccer".to_owned(),
            },
        )
    } else {
        None
    }
}

/// The event the last key event of a football summary makes, if it is one
/// not seen before; `last_event_id` holds the id of the key event seen last
/// and is moved on to the last one.
pub fn parse_soccer_latest_event(value: &JsonValue, last_event_id: &mut Option<String>) -> (r:
    Option<MatchEvent>)
    ensures
        event_view(r) == soccer_latest_event(*value, opt_view(*old(last_event_id))).0,
        opt_view(*final(last_event_id)) == soccer_latest_event(
            *value,
            opt_view(*old(last_event_id)),
        ).1,
{
    let kes = match array_field(value, "keyEvents") {
        Some(a) => a,
        None => return None,
    };
    if kes.len() == 0 {
        return None;
    }
    let latest = &kes[kes.len() - 1];
    let id = match str_field(latest, "id") {
        Some(t) => t,
        None => return None,
    };
    let seen = match last_event_id {
        Some(prev) => same_text(prev.as_str(), id),
        None => false,
    };
    if seen {
        return None;
    }
    *last_event_id = Some(id.to_owned());
    key_event_of(latest)
}

/// A ball of cricket is announced at most once: reading the same summary
/// again, with the key the first reading left, gives no event; and the first
/// ball ever seen is not announced.
pub proof fn lemma_ball_announced_once(value: JsonValue, last: Option<Seq<char>>)
    ensures
        latest_event(value, latest_event(value, last).1).0 is None,
        latest_event(value, None).0 is None,
{
}

/// A key event of football is announced at most once: reading the same
/// summary again, with the id the first reading left, gives no event.
pub proof fn lemma_key_event_announced_once(value: JsonValue, last: Option<Seq<char>>)
    ensures
        soccer_latest_event(value, soccer_latest_event(value, last).1).0 is None,
{
}

/// The ball read is the one with the largest number: every key of the
/// commentary that stands for a ball number is at most the latest key, and
/// the latest key is the number of one of the keys.
pub proof fn lemma_latest_key_is_largest(es: Seq<(String, JsonValue)>)
    ensures
        forall|i: int|
            0 <= i < es.len() && key_number(#[trigger] es[i].0@) is Some ==> latest_key(es) is Some
                && key_number(es[i].0@)->0 <= latest_key(es)->0,
        latest_key(es) matches Some(k) ==> exists|i: int|
            0 <= i < es.len() && key_number(#[trigger] es[i].0@) == Some(k),
    decreases es.len(),
{
    if es.len() > 0 {
        let init = es.drop_last();
        lemma_latest_key_is_largest(init);
        assert forall|i: int|
            0 <= i < es.len() && key_number(#[trigger] es[i].0@) is Some implies latest_key(es) is Some
                && key_number(es[i].0@)->0 <= latest_key(es)->0 by {
            if i < es.len() - 1 {
                assert(es[i] == init[i]);
            }
        }
        if latest_key(es) != latest_key(init) {
            assert(key_number(es[es.len() - 1].0@) == latest_key(es));
        } else if let Some(k) = latest_key(init) {
            let j = choose|j: int| 0 <= j < init.len() && key_number(#[trigger] init[j].0@) == Some(k);
            assert(es[j] == init[j]);
        }
    }
}

/// The type of a football key event, in lowercase.
pub open spec fn key_event_type(ev: JsonValue) -> Option<Seq<char>> {
    match ev.field("type"@) {
        Some(ty) => match field_text(ty, "type"@) {
            Some(raw) => Some(lowercase(raw)),
            None => None,
        },
        None => None,
    }
}

/// A key event of football that is a scoring play, or whose type mentions a
/// goal, is announced as a goal (a boundary titled "GOAL!", "OWN GOAL!" or
/// "PENALTY GOAL!"), never as a red card; a red card is announced only for a
/// key event that is neither.
pub proof fn lemma_goals_are_goals(ev: JsonValue)
    ensures
        (key_event_type(ev) is Some && (field_true(ev, "scoringPlay"@) || holds(
            key_event_type(ev)->0,
            "goal"@,
        ))) ==> (key_event(ev) matches Some(e) && e.event_type == MatchEventType::Boundary && (
        e.title == "GOAL!"@ || e.title == "OWN GOAL!"@ || e.title == "PENALTY GOAL!"@)),
        (key_event(ev) matches Some(e) && e.event_type == MatchEventType::Wicket) ==> (!field_true(
            ev,
            "scoringPlay"@,
        ) && key_event_type(ev) is Some && !holds(key_event_type(ev)->0, "goal"@)),
{
}

} // verus!
