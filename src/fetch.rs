//! The checks and addresses of the JSON fetcher; the transfer itself is
//! made by the caller.

use vstd::prelude::*;

verus! {

/// Why a feed could not be read. Both variants keep the raw body, so that
/// drift in the upstream schema can be diagnosed.
#[derive(Debug, Clone)]
pub enum FetchError {
    /// The server answered with a status outside 200..=299.
    HttpError { status: u16, body: String },
    /// The body did not decode into the expected shape.
    DecodeError { body: String, cause: String },
    /// No response was had at all.
    TransportError { cause: String },
}

/// Whether an HTTP status code denotes success.
pub open spec fn is_success_status(status: u16) -> bool {
    200 <= status <= 299
}

/// Accepts the body of a successful response, and turns any other into an
/// `HttpError` that carries its status and body.
pub fn check_response(status: u16, body: String) -> (r: Result<String, FetchError>)
    ensures
        is_success_status(status) ==> r == Ok::<String, FetchError>(body),
        !is_success_status(status) ==> r == Err::<String, FetchError>(FetchError::HttpError { status, body }),
{
    if 200 <= status && status <= 299 {
        Ok(body)
    } else {
        Err(FetchError::HttpError { status, body })
    }
}

/// The decimal digits of `n`, most significant first, with no leading zero.
pub open spec fn decimal(n: nat) -> Seq<char>
    decreases n,
{
    if n < 10 {
        seq![digit_char(n)]
    } else {
        decimal(n / 10).push(digit_char(n % 10))
    }
}

pub open spec fn digit_char(d: nat) -> char {
    ((d + '0' as nat) as u8) as char
}

/// Relies on `u32::to_string` (the standard `Display` of integers): the
/// decimal digits of the value.
#[verifier::external_body]
fn decimal_text(n: u32) -> (r: String)
    ensures
        r@ == decimal(n as nat),
{
    n.to_string()
}

/// The address of the review report of game `game_id`.
pub fn last_two_minutes_url(game_id: &str) -> (r: String)
    ensures
        r@ == "https://official.nba.com/l2m/json/"@ + game_id@ + ".json"@,
{
    let mut url = String::from_str("https://official.nba.com/l2m/json/");
    url.append(game_id);
    url.append(".json");
    url
}

/// The address of a data feed endpoint, relative to the feeds' base.
pub fn data_nba_net_url(endpoint: &str) -> (r: String)
    ensures
        r@ == "http://data.nba.net/prod/v2/"@ + endpoint@,
{
    let mut url = String::from_str("http://data.nba.net/prod/v2/");
    url.append(endpoint);
    url
}

/// The schedule endpoint of a season: `<year>/schedule.json`.
pub fn schedule_endpoint(season_year: u32) -> (r: String)
    ensures
        r@ == decimal(season_year as nat) + "/schedule.json"@,
{
    let mut endpoint = decimal_text(season_year);
    endpoint.append("/schedule.json");
    endpoint
}

/// The teams endpoint of a season: `<year>/teams.json`.
pub fn teams_endpoint(season_year: u32) -> (r: String)
    ensures
        r@ == decimal(season_year as nat) + "/teams.json"@,
{
    let mut endpoint = decimal_text(season_year);
    endpoint.append("/teams.json");
    endpoint
}

} // verus!
