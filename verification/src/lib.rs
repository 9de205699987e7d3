//! Live cricket and football scores from a sports feed: reading scoreboards
//! and match summaries into scores and events, and the decisions of the loop
//! that polls them.
pub mod batsman;
pub mod clock;
pub mod cricket;
pub mod events;
pub mod json;
pub mod menu;
pub mod models;
pub mod polling;
pub mod soccer;
pub mod text;

pub use batsman::parse_batsman_from_text;
pub use cricket::{get_target, parse_all_live_indian_matches, parse_competitor, parse_match_detail};
pub use events::{extract_batsman_name, parse_latest_event, parse_soccer_latest_event};
pub use json::{JsonNumber, JsonValue};
pub use models::{
    EventScore, MatchEvent, MatchEventType, MatchScore, MatchStatus, OversReading, RequiredRate,
    RunRate, ScoreLine, SportType, TeamScore,
};
pub use soccer::{parse_soccer_competitor, parse_soccer_match_detail, parse_soccer_matches};
