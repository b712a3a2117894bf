//! Records decoded from the teams, schedule and review-report feeds.
//!
//! Decoding itself happens outside the verified library; these are the
//! plain shapes the aggregation logic reads.

use vstd::prelude::*;

verus! {

/// An arbitrary JSON value, carried through unchanged: the feeds type some
/// fields inconsistently from one payload to the next.
#[verifier::external_type_specification]
#[verifier::external_body]
pub struct ExJsonValue(serde_json::Value);

/// A UTC instant, as nanoseconds since the Unix epoch.
#[derive(Debug, Clone, Copy, PartialEq, Eq, Structural, Default)]
pub struct UtcTimestamp {
    pub unix_nanos: i128,
}

/// One line of a review report's tally: a category and its count for each side.
#[derive(Debug, Clone, Default)]
pub struct LastTwoMinutesStat {
    pub stats_name: String,
    pub home: u32,
    pub away: u32,
}

/// The game summary section of a review report.
#[derive(Debug)]
pub struct LastTwoMinutesGame {
    pub home_team: String,
    pub away_team: String,
    pub game_id: String,
    pub home_team_score: u32,
    pub visitor_team_score: u32,
    pub game_date: String,
    pub home_team_id: u64,
    pub away_team_id: u64,
    pub home_team_abbr: String,
    pub away_team_abbr: String,
    pub l2m_comments: serde_json::Value,
    pub game_date_out: String,
}

/// One reviewed possession of a review report.
#[derive(Debug, Default)]
pub struct LastTwoMinutesEntry {
    pub period_name: String,
    pub pc_time: String,
    pub imposible_indicator: u32,
    pub comment: Option<String>,
    pub call_rating_name: String,
    pub call_type: String,
    pub cp: Option<String>,
    pub dp: Option<String>,
    pub difficulty: String,
    pub video_link: String,
    pub qualifier: serde_json::Value,
    pub pos_id: u32,
    pub pos_start: String,
    pub pos_end: String,
    pub pos_team_id: u32,
    pub team_id_in_favor: serde_json::Value,
    pub error_in_favor: String,
    /// Chart coordinate; numeric upstream, kept opaque here.
    pub img_chart: serde_json::Value,
}

/// A whole review report: summary, tally lines and reviewed plays.
#[derive(Debug, Default)]
pub struct LastTwoMinutesReport {
    pub game: Vec<LastTwoMinutesGame>,
    pub stats: Vec<LastTwoMinutesStat>,
    pub l2m: Vec<LastTwoMinutesEntry>,
}

/// The envelope of the teams and schedule feeds.
#[derive(Debug, Default)]
pub struct DataNbaNetResponse<T> {
    pub _internal: serde_json::Value,
    pub league: DataNbaLeagues<T>,
}

/// The named buckets of an envelope; only `standard` is aggregated.
#[derive(Debug, Clone, Default)]
pub struct DataNbaLeagues<T> {
    pub standard: Vec<T>,
    pub africa: Vec<T>,
    pub sacramento: Vec<T>,
    pub vegas: Vec<T>,
    pub utah: Vec<T>,
}

/// The contents of a bucket that may be absent: its items, or none.
pub open spec fn bucket_or_empty<T>(bucket: Option<Vec<T>>) -> Seq<T> {
    match bucket {
        Some(items) => items@,
        None => Seq::empty(),
    }
}

fn bucket_items<T>(bucket: Option<Vec<T>>) -> (r: Vec<T>)
    ensures
        r@ == bucket_or_empty(bucket),
{
    match bucket {
        Some(items) => items,
        None => Vec::new(),
    }
}

impl<T> DataNbaLeagues<T> {
    /// Gathers the buckets of an envelope as decoded; a bucket that the
    /// payload lacks is empty rather than an error.
    pub fn from_buckets(
        standard: Option<Vec<T>>,
        africa: Option<Vec<T>>,
        sacramento: Option<Vec<T>>,
        vegas: Option<Vec<T>>,
        utah: Option<Vec<T>>,
    ) -> (r: Self)
        ensures
            r.standard@ == bucket_or_empty(standard),
            r.africa@ == bucket_or_empty(africa),
            r.sacramento@ == bucket_or_empty(sacramento),
            r.vegas@ == bucket_or_empty(vegas),
            r.utah@ == bucket_or_empty(utah),
    {
        DataNbaLeagues {
            standard: bucket_items(standard),
            africa: bucket_items(africa),
            sacramento: bucket_items(sacramento),
            vegas: bucket_items(vegas),
            utah: bucket_items(utah),
        }
    }
}

/// A scheduled game.
#[derive(Debug)]
pub struct Game {
    pub game_id: String,
    pub season_stage_id: u32,
    pub game_url_code: String,
    pub status_num: u32,
    pub extended_status_num: u32,
    pub is_start_time_tbd: bool,
    pub start_time_utc: UtcTimestamp,
    pub start_date_eastern: String,
    pub is_neutral_venue: bool,
    pub start_time_eastern: String,
    pub is_buzzer_beater: bool,
    pub period: GamePeriod,
    pub nugget: Option<GameNugget>,
    pub h_team: GameTeam,
    pub v_team: GameTeam,
    pub watch: GameWatchDetails,
}

#[derive(Debug, Clone, Default)]
pub struct GamePeriod {
    pub current: u8,
    pub kind: u32,
    pub max_regular: u32,
}

#[derive(Debug, Clone, Default)]
pub struct GameNugget {
    pub text: String,
}

/// One side of a scheduled game; scores arrive as text.
#[derive(Debug, Clone, Default)]
pub struct GameTeam {
    pub team_id: String,
    pub score: String,
    pub win: String,
    pub loss: String,
}

#[derive(Debug, Default)]
pub struct GameWatchDetails {
    pub broadcast: GameWatchBroadcast,
}

#[derive(Debug, Default)]
pub struct GameWatchBroadcast {
    pub video: GameWatchVideo,
}

#[derive(Debug, Default)]
pub struct GameWatchVideo {
    pub regional_blackout_codes: String,
    pub is_league_pass: bool,
    pub is_national_blackout: bool,
    pub is_tnt_ot: bool,
    pub can_purchase: bool,
    pub is_vr: bool,
    pub is_next_vr: bool,
    pub is_nba_on_tnt_vr: bool,
    pub is_magic_leap: bool,
    pub is_oculus_venues: bool,
    pub national: NationalWatch,
    pub canadian: Vec<serde_json::Value>,
    pub spanish_national: Vec<serde_json::Value>,
}

#[derive(Debug, Clone, Default)]
pub struct NationalWatch {
    pub broadcasters: Vec<Broadcaster>,
}

#[derive(Debug, Clone, Default)]
pub struct Broadcaster {
    pub short_name: String,
    pub long_name: String,
}

/// A team of the teams feed; `team_id` is its stable key.
#[derive(Debug, Clone, Default)]
pub struct Team {
    pub is_nba_franchise: bool,
    pub is_all_star: bool,
    pub city: String,
    pub alt_city_name: String,
    pub full_name: String,
    pub tricode: String,
    pub team_id: String,
    pub nickname: String,
    pub url_name: String,
    pub team_short_name: String,
    pub conf_name: String,
    pub div_name: String,
}

} // verus!
