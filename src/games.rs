//! Choosing the games whose review report is looked for.

use vstd::prelude::*;
use crate::schema::{Game, UtcTimestamp};

verus! {

/// The season stage of regular-season games.
pub open spec fn regular_season_stage() -> u32 {
    2
}

/// A regular-season game that started before `now`.
pub open spec fn is_eligible(game: Game, now: UtcTimestamp) -> bool {
    game.season_stage_id == regular_season_stage() && game.start_time_utc.unix_nanos < now.unix_nanos
}

/// The eligible games of `games`, in order.
pub open spec fn eligible_games(games: Seq<Game>, now: UtcTimestamp) -> Seq<Game>
    decreases games.len(),
{
    if games.len() == 0 {
        Seq::empty()
    } else if is_eligible(games.last(), now) {
        eligible_games(games.drop_last(), now).push(games.last())
    } else {
        eligible_games(games.drop_last(), now)
    }
}

/// Keeps the regular-season games that started before `now`, in order.
pub fn select_eligible_games(games: Vec<Game>, now: UtcTimestamp) -> (r: Vec<Game>)
    ensures
        r@ == eligible_games(games@, now),
{
    let ghost all = games@;
    let total = games.len();
    let mut rest = games;
    let mut kept: Vec<Game> = Vec::new();
    let mut k: usize = 0;
    while rest.len() > 0
        invariant
            k <= all.len(),
            all.len() == total,
            rest@ == all.skip(k as int),
            kept@ == eligible_games(all.take(k as int), now),
        decreases rest@.len(),
    {
        let game = rest.remove(0);
        proof {
            assert(all.take(k + 1).drop_last() =~= all.take(k as int));
            assert(all.take(k + 1).last() == game);
            assert(rest@ =~= all.skip(k + 1));
        }
        if game.season_stage_id == 2 && game.start_time_utc.unix_nanos < now.unix_nanos {
            kept.push(game);
        }
        k = k + 1;
    }
    proof {
        assert(all.take(k as int) =~= all);
    }
    kept
}

/// Relies on `time::OffsetDateTime::now_utc` and its
/// `unix_timestamp_nanos`: the current instant, of which nothing is promised.
#[verifier::external_body]
fn now_utc() -> (r: UtcTimestamp) {
    UtcTimestamp { unix_nanos: time::OffsetDateTime::now_utc().unix_timestamp_nanos() }
}

/// Samples the clock once and keeps the games eligible at that instant.
pub fn select_games_played_by_now(games: Vec<Game>) -> (r: Vec<Game>)
    ensures
        exists|now: UtcTimestamp| r@ == eligible_games(games@, now),
{
    let now = now_utc();
    select_eligible_games(games, now)
}

} // verus!
