//! The identity index: one aggregate of call outcomes per team, keyed by
//! team id, and the per-game folds that update it.

use vstd::prelude::*;
use crate::fetch::FetchError;
use crate::schema::{Game, LastTwoMinutesReport, LastTwoMinutesStat, Team};
use crate::tally::{away_errors, errors_in_favor_totals, home_errors};

verus! {

/// Running call outcomes of one team.
#[derive(Debug, Clone)]
pub struct TeamAggregate {
    pub team: Team,
    /// Plays where an officiating error benefited this team.
    pub calls_in_favor: u64,
    /// Plays where an officiating error hurt this team.
    pub calls_against: u64,
    /// Eligible games whose review report could not be retrieved.
    pub games_missed: u64,
}

/// Why a fold into the index was refused; the index is then left unchanged.
#[derive(Debug, Clone, Copy, PartialEq, Eq, Structural)]
pub enum AggregateError {
    /// A game names a team id that the index does not hold.
    MissingIdentity,
    /// A counter would exceed the range of `u64`.
    CounterOverflow,
}

/// A fresh aggregate for a team: every counter zero.
pub open spec fn fresh_aggregate(team: Team) -> TeamAggregate {
    TeamAggregate { team, calls_in_favor: 0, calls_against: 0, games_missed: 0 }
}

pub open spec fn unique_ids(s: Seq<TeamAggregate>) -> bool {
    forall|i: int, j: int|
        0 <= i < j < s.len() ==> s[i].team.team_id@ != s[j].team.team_id@
}

pub open spec fn has_team(s: Seq<TeamAggregate>, id: Seq<char>) -> bool {
    exists|i: int| 0 <= i < s.len() && s[i].team.team_id@ == id
}

/// What a team with id `id` gains from a game between `home` and `away`:
/// `for_home` if it is the home side, plus `for_away` if it is the away side.
pub open spec fn share(id: Seq<char>, home: Seq<char>, away: Seq<char>, for_home: int, for_away: int) -> int {
    (if id == home { for_home } else { 0 }) + (if id == away { for_away } else { 0 })
}

/// `new` is `old` with, for a game between `home` and `away`, `favor_home`
/// errors in favour of home, `favor_away` in favour of away (each counted
/// against the opponent) and `missed` added to both sides' missed games.
pub open spec fn counters_added(
    old: Seq<TeamAggregate>,
    new: Seq<TeamAggregate>,
    home: Seq<char>,
    away: Seq<char>,
    favor_home: int,
    favor_away: int,
    missed: int,
) -> bool {
    &&& new.len() == old.len()
    &&& forall|i: int| 0 <= i < old.len() ==> {
        let id = #[trigger] old[i].team.team_id@;
        &&& new[i].team == old[i].team
        &&& new[i].calls_in_favor == old[i].calls_in_favor + share(id, home, away, favor_home, favor_away)
        &&& new[i].calls_against == old[i].calls_against + share(id, home, away, favor_away, favor_home)
        &&& new[i].games_missed == old[i].games_missed + share(id, home, away, missed, missed)
    }
}

/// Whether every counter of `old` stays within `u64` under those additions.
pub open spec fn additions_fit(
    old: Seq<TeamAggregate>,
    home: Seq<char>,
    away: Seq<char>,
    favor_home: int,
    favor_away: int,
    missed: int,
) -> bool {
    forall|i: int| 0 <= i < old.len() ==> {
        let id = #[trigger] old[i].team.team_id@;
        &&& old[i].calls_in_favor + share(id, home, away, favor_home, favor_away) <= u64::MAX
        &&& old[i].calls_against + share(id, home, away, favor_away, favor_home) <= u64::MAX
        &&& old[i].games_missed + share(id, home, away, missed, missed) <= u64::MAX
    }
}

/// `new` is `old` after folding a report's tally lines for that game.
pub open spec fn report_folded(
    old: Seq<TeamAggregate>,
    new: Seq<TeamAggregate>,
    home: Seq<char>,
    away: Seq<char>,
    stats: Seq<LastTwoMinutesStat>,
) -> bool {
    counters_added(old, new, home, away, home_errors(stats), away_errors(stats), 0)
}

/// `new` is `old` after recording that game's report as missing.
pub open spec fn game_missed(
    old: Seq<TeamAggregate>,
    new: Seq<TeamAggregate>,
    home: Seq<char>,
    away: Seq<char>,
) -> bool {
    counters_added(old, new, home, away, 0, 0, 1)
}

/// The most recent team with id `id` in `teams`, if any.
pub open spec fn latest_team(teams: Seq<Team>, id: Seq<char>) -> Option<Team>
    decreases teams.len(),
{
    if teams.len() == 0 {
        None
    } else if teams.last().team_id@ == id {
        Some(teams.last())
    } else {
        latest_team(teams.drop_last(), id)
    }
}

/// Aggregates keyed by team id, one per id.
pub struct IdentityIndex {
    entries: Vec<TeamAggregate>,
}

impl View for IdentityIndex {
    type V = Seq<TeamAggregate>;

    closed spec fn view(&self) -> Seq<TeamAggregate> {
        self.entries@
    }
}

impl IdentityIndex {
    /// No two aggregates share a team id.
    pub open spec fn wf(&self) -> bool {
        unique_ids(self@)
    }

    /// An index holding no team.
    pub fn new() -> (r: Self)
        ensures
            r.wf(),
            r@ == Seq::<TeamAggregate>::empty(),
    {
        IdentityIndex { entries: Vec::new() }
    }

    /// One fresh aggregate per distinct team id of `teams`; where an id
    /// repeats, the last team with it wins.
    pub fn from_teams(teams: Vec<Team>) -> (r: Self)
        ensures
            r.wf(),
            forall|id: Seq<char>| has_team(r@, id) <==> latest_team(teams@, id) is Some,
            forall|i: int| 0 <= i < r@.len() ==> {
                &&& Some(#[trigger] r@[i].team) == latest_team(teams@, r@[i].team.team_id@)
                &&& r@[i] == fresh_aggregate(r@[i].team)
            },
    {
        let ghost all = teams@;
        let total = teams.len();
        let mut rest = teams;
        let mut index = IdentityIndex::new();
        let mut k: usize = 0;
        while rest.len() > 0
            invariant
                k <= all.len(),
                all.len() == total,
                rest@ == all.skip(k as int),
                index.wf(),
                forall|id: Seq<char>| has_team(index@, id) <==> latest_team(all.take(k as int), id) is Some,
                forall|i: int| 0 <= i < index@.len() ==> {
                    &&& Some(#[trigger] index@[i].team) == latest_team(all.take(k as int), index@[i].team.team_id@)
                    &&& index@[i] == fresh_aggregate(index@[i].team)
                },
            decreases rest@.len(),
        {
            let team = rest.remove(0);
            let ghost before = index@;
            let ghost prefix = all.take(k as int);
            let ghost next = all.take(k + 1);
            proof {
                assert(next.drop_last() =~= prefix);
                assert(next.last() == team);
                assert(rest@ =~= all.skip(k + 1));
            }
            index.insert_team(team);
            proof {
                assert forall|id: Seq<char>| has_team(index@, id) <==> latest_team(next, id) is Some by {
                    if has_team(before, id) {
                        let i = choose|i: int| 0 <= i < before.len() && before[i].team.team_id@ == id;
                        assert(before[i].team.team_id@ == id);
                    }
                }
                assert forall|i: int| 0 <= i < index@.len() implies {
                    &&& Some(#[trigger] index@[i].team) == latest_team(next, index@[i].team.team_id@)
                    &&& index@[i] == fresh_aggregate(index@[i].team)
                } by {
                    if index@[i].team.team_id@ != team.team_id@ {
                        let j = choose|j: int| 0 <= j < before.len() && before[j] == index@[i];
                        assert(before[j].team == index@[i].team);
                    }
                }
            }
            k = k + 1;
        }
        proof {
            assert(all.take(k as int) =~= all);
        }
        index
    }

    /// Adds a fresh aggregate for `team`, replacing any held under its id.
    pub fn insert_team(&mut self, team: Team)
        requires
            old(self).wf(),
        ensures
            final(self).wf(),
            forall|id: Seq<char>| has_team(final(self)@, id) <==> (has_team(old(self)@, id) || id == team.team_id@),
            forall|i: int| 0 <= i < final(self)@.len() ==> if (#[trigger] final(self)@[i]).team.team_id@ == team.team_id@ {
                final(self)@[i] == fresh_aggregate(team)
            } else {
                exists|j: int| 0 <= j < old(self)@.len() && old(self)@[j] == final(self)@[i]
            },
    {
        let ghost before = self@;
        let ghost id = team.team_id@;
        match self.position(&team.team_id) {
            Some(i) => {
                let fresh = TeamAggregate { team, calls_in_favor: 0, calls_against: 0, games_missed: 0 };
                self.entries.set(i, fresh);
                proof {
                    assert forall|j: int| 0 <= j < self@.len() && j != i implies
                        #[trigger] self@[j].team.team_id@ != id by {
                        assert(before[j] == self@[j]);
                        if j < i {
                            assert(before[j].team.team_id@ != before[i as int].team.team_id@);
                        } else {
                            assert(before[i as int].team.team_id@ != before[j].team.team_id@);
                        }
                    }
                    assert forall|x: Seq<char>| has_team(self@, x) <==> (has_team(before, x) || x == id) by {
                        if has_team(before, x) {
                            let j = choose|j: int| 0 <= j < before.len() && before[j].team.team_id@ == x;
                            assert(self@[j].team.team_id@ == x);
                        }
                        if has_team(self@, x) {
                            let j = choose|j: int| 0 <= j < self@.len() && self@[j].team.team_id@ == x;
                            assert(before[j].team.team_id@ == x);
                        }
                    }
                    assert forall|j: int| 0 <= j < self@.len() && (#[trigger] self@[j]).team.team_id@ != id implies
                        exists|m: int| 0 <= m < before.len() && before[m] == self@[j] by {
                        assert(before[j] == self@[j]);
                    }
                }
            },
            None => {
                let fresh = TeamAggregate { team, calls_in_favor: 0, calls_against: 0, games_missed: 0 };
                self.entries.push(fresh);
                proof {
                    let n = before.len() as int;
                    assert forall|j: int| 0 <= j < n implies #[trigger] self@[j].team.team_id@ != id by {
                        assert(self@[j] == before[j]);
                    }
                    assert forall|x: Seq<char>| has_team(self@, x) <==> (has_team(before, x) || x == id) by {
                        if has_team(before, x) {
                            let j = choose|j: int| 0 <= j < before.len() && before[j].team.team_id@ == x;
                            assert(self@[j].team.team_id@ == x);
                        }
                        if x == id {
                            assert(self@[n].team.team_id@ == x);
                        }
                        if has_team(self@, x) {
                            let j = choose|j: int| 0 <= j < self@.len() && self@[j].team.team_id@ == x;
                            if j < n {
                                assert(before[j].team.team_id@ == x);
                            }
                        }
                    }
                    assert forall|j: int| 0 <= j < self@.len() && (#[trigger] self@[j]).team.team_id@ != id implies
                        exists|m: int| 0 <= m < before.len() && before[m] == self@[j] by {
                        assert(before[j] == self@[j]);
                    }
                }
            },
        }
    }

    /// The aggregates, in index order.
    pub fn aggregates(&self) -> (r: &Vec<TeamAggregate>)
        ensures
            r@ == self@,
    {
        &self.entries
    }

    /// Where the aggregate of team `id` stands, if the index holds one.
    pub fn position(&self, id: &String) -> (r: Option<usize>)
        ensures
            match r {
                Some(i) => i < self@.len() && self@[i as int].team.team_id@ == id@,
                None => !has_team(self@, id@),
            },
    {
        let mut i: usize = 0;
        while i < self.entries.len()
            invariant
                i <= self@.len(),
                self@ == self.entries@,
                forall|j: int| 0 <= j < i ==> self@[j].team.team_id@ != id@,
            decreases self.entries@.len() - i,
        {
            if self.entries[i].team.team_id == *id {
                return Some(i);
            }
            i = i + 1;
        }
        None
    }

    /// Overwrites the counters of the aggregate at `i`.
    fn set_counters(&mut self, i: usize, favor: u64, against: u64, missed: u64)
        requires
            i < old(self)@.len(),
        ensures
            final(self)@ == old(self)@.update(
                i as int,
                (TeamAggregate {
                    team: old(self)@[i as int].team,
                    calls_in_favor: favor,
                    calls_against: against,
                    games_missed: missed,
                }),
            ),
    {
        let mut entry = self.entries.remove(i);
        entry.calls_in_favor = favor;
        entry.calls_against = against;
        entry.games_missed = missed;
        self.entries.insert(i, entry);
        proof {
            assert(self@ =~= old(self)@.update(
                i as int,
                (TeamAggregate {
                    team: old(self)@[i as int].team,
                    calls_in_favor: favor,
                    calls_against: against,
                    games_missed: missed,
                }),
            ));
        }
    }

    /// Adds, for a game between `home_id` and `away_id`, `favor_home` calls
    /// in favour of home and against away, `favor_away` in favour of away
    /// and against home, and `missed` missed games to each side.
    fn add_counters(&mut self, home_id: &String, away_id: &String, favor_home: u128, favor_away: u128, missed: u128) -> (r: Result<(), AggregateError>)
        requires
            old(self).wf(),
        ensures
            final(self).wf(),
            r == Err::<(), AggregateError>(AggregateError::MissingIdentity) <==> !(has_team(old(self)@, home_id@) && has_team(old(self)@, away_id@)),
            r == Err::<(), AggregateError>(AggregateError::CounterOverflow) <==> (has_team(old(self)@, home_id@) && has_team(old(self)@, away_id@)
                && !additions_fit(old(self)@, home_id@, away_id@, favor_home as int, favor_away as int, missed as int)),
            r is Ok ==> counters_added(old(self)@, final(self)@, home_id@, away_id@, favor_home as int, favor_away as int, missed as int),
            r is Err ==> final(self)@ == old(self)@,
    {
        let ghost before = self@;
        let ghost home = home_id@;
        let ghost away = away_id@;
        let ghost fh = favor_home as int;
        let ghost fa = favor_away as int;
        let ghost m = missed as int;
        let hi = match self.position(home_id) {
            Some(i) => i,
            None => { return Err(AggregateError::MissingIdentity); },
        };
        let ai = match self.position(away_id) {
            Some(i) => i,
            None => { return Err(AggregateError::MissingIdentity); },
        };
        proof {
            assert forall|i: int| 0 <= i < before.len() && i != hi implies #[trigger] before[i].team.team_id@ != home by {
                if i < hi { assert(before[i].team.team_id@ != before[hi as int].team.team_id@); }
                else { assert(before[hi as int].team.team_id@ != before[i].team.team_id@); }
            }
            assert forall|i: int| 0 <= i < before.len() && i != ai implies #[trigger] before[i].team.team_id@ != away by {
                if i < ai { assert(before[i].team.team_id@ != before[ai as int].team.team_id@); }
                else { assert(before[ai as int].team.team_id@ != before[i].team.team_id@); }
            }
        }
        let limit: u128 = u64::MAX as u128;
        if favor_home > limit || favor_away > limit || missed > limit {
            proof {
                let id = before[hi as int].team.team_id@;
                assert(share(id, home, away, fh, fa) >= fh);
                assert(share(id, home, away, fa, fh) >= fa);
                assert(share(id, home, away, m, m) >= m);
            }
            return Err(AggregateError::CounterOverflow);
        }
        let h_favor = self.entries[hi].calls_in_favor as u128;
        let h_against = self.entries[hi].calls_against as u128;
        let h_missed = self.entries[hi].games_missed as u128;
        if hi == ai {
            let favor = h_favor + favor_home + favor_away;
            let against = h_against + favor_away + favor_home;
            let games = h_missed + missed + missed;
            if favor > limit || against > limit || games > limit {
                proof { assert(before[hi as int].team.team_id@ == home); }
                return Err(AggregateError::CounterOverflow);
            }
            self.set_counters(hi, favor as u64, against as u64, games as u64);
        } else {
            let a_favor = self.entries[ai].calls_in_favor as u128;
            let a_against = self.entries[ai].calls_against as u128;
            let a_missed = self.entries[ai].games_missed as u128;
            let hf = h_favor + favor_home;
            let ha = h_against + favor_away;
            let hm = h_missed + missed;
            let af = a_favor + favor_away;
            let aa = a_against + favor_home;
            let am = a_missed + missed;
            if hf > limit || ha > limit || hm > limit {
                proof { assert(before[hi as int].team.team_id@ == home); }
                return Err(AggregateError::CounterOverflow);
            }
            if af > limit || aa > limit || am > limit {
                proof { assert(before[ai as int].team.team_id@ == away); }
                return Err(AggregateError::CounterOverflow);
            }
            self.set_counters(hi, hf as u64, ha as u64, hm as u64);
            self.set_counters(ai, af as u64, aa as u64, am as u64);
        }
        proof {
            assert forall|i: int, j: int| 0 <= i < j < self@.len() implies
                self@[i].team.team_id@ != self@[j].team.team_id@ by {
                assert(self@[i].team == before[i].team);
                assert(self@[j].team == before[j].team);
            }
        }
        Ok(())
    }

    /// Folds a review report of the game between `home_id` and `away_id`:
    /// the home count of its "Errors in Favor" lines goes to home's calls in
    /// favour and away's calls against, the away count the other way round.
    pub fn record_report(&mut self, home_id: &String, away_id: &String, stats: &Vec<LastTwoMinutesStat>) -> (r: Result<(), AggregateError>)
        requires
            old(self).wf(),
        ensures
            final(self).wf(),
            r == Err::<(), AggregateError>(AggregateError::MissingIdentity) <==> !(has_team(old(self)@, home_id@) && has_team(old(self)@, away_id@)),
            r == Err::<(), AggregateError>(AggregateError::CounterOverflow) <==> (has_team(old(self)@, home_id@) && has_team(old(self)@, away_id@)
                && !additions_fit(old(self)@, home_id@, away_id@, home_errors(stats@), away_errors(stats@), 0)),
            r is Ok ==> report_folded(old(self)@, final(self)@, home_id@, away_id@, stats@),
            r is Err ==> final(self)@ == old(self)@,
    {
        let (favor_home, favor_away) = errors_in_favor_totals(stats);
        self.add_counters(home_id, away_id, favor_home, favor_away, 0)
    }

    /// Records that the report of the game between `home_id` and `away_id`
    /// could not be had: one more missed game for each side.
    pub fn record_missed(&mut self, home_id: &String, away_id: &String) -> (r: Result<(), AggregateError>)
        requires
            old(self).wf(),
        ensures
            final(self).wf(),
            r == Err::<(), AggregateError>(AggregateError::MissingIdentity) <==> !(has_team(old(self)@, home_id@) && has_team(old(self)@, away_id@)),
            r == Err::<(), AggregateError>(AggregateError::CounterOverflow) <==> (has_team(old(self)@, home_id@) && has_team(old(self)@, away_id@)
                && !additions_fit(old(self)@, home_id@, away_id@, 0, 0, 1)),
            r is Ok ==> game_missed(old(self)@, final(self)@, home_id@, away_id@),
            r is Err ==> final(self)@ == old(self)@,
    {
        self.add_counters(home_id, away_id, 0, 0, 1)
    }

    /// One step of the per-game loop: folds the outcome of fetching the
    /// report of `game`. A failed fetch, for whatever reason, is a missed game.
    pub fn record_game(&mut self, game: &Game, report: &Result<LastTwoMinutesReport, FetchError>) -> (r: Result<(), AggregateError>)
        requires
            old(self).wf(),
        ensures
            final(self).wf(),
            r == Err::<(), AggregateError>(AggregateError::MissingIdentity)
                <==> !(has_team(old(self)@, game.h_team.team_id@) && has_team(old(self)@, game.v_team.team_id@)),
            r is Err ==> final(self)@ == old(self)@,
            match report {
                Ok(rep) => {
                    &&& r == Err::<(), AggregateError>(AggregateError::CounterOverflow)
                        <==> (has_team(old(self)@, game.h_team.team_id@) && has_team(old(self)@, game.v_team.team_id@)
                        && !additions_fit(old(self)@, game.h_team.team_id@, game.v_team.team_id@,
                            home_errors(rep.stats@), away_errors(rep.stats@), 0))
                    &&& r is Ok ==> report_folded(old(self)@, final(self)@, game.h_team.team_id@, game.v_team.team_id@, rep.stats@)
                },
                Err(_) => {
                    &&& r == Err::<(), AggregateError>(AggregateError::CounterOverflow)
                        <==> (has_team(old(self)@, game.h_team.team_id@) && has_team(old(self)@, game.v_team.team_id@)
                        && !additions_fit(old(self)@, game.h_team.team_id@, game.v_team.team_id@, 0, 0, 1))
                    &&& r is Ok ==> game_missed(old(self)@, final(self)@, game.h_team.team_id@, game.v_team.team_id@)
                },
            },
    {
        match report {
            Ok(rep) => self.record_report(&game.h_team.team_id, &game.v_team.team_id, &rep.stats),
            Err(_) => self.record_missed(&game.h_team.team_id, &game.v_team.team_id),
        }
    }

    /// The label "HOM v AWY" of a game, from its teams' tricodes.
    pub fn game_label(&self, game: &Game) -> (r: Result<String, AggregateError>)
        requires
            self.wf(),
        ensures
            r is Ok <==> has_team(self@, game.h_team.team_id@) && has_team(self@, game.v_team.team_id@),
            r is Err ==> r == Err::<String, AggregateError>(AggregateError::MissingIdentity),
            r matches Ok(label) ==> exists|i: int, j: int|
                0 <= i < self@.len() && 0 <= j < self@.len()
                && self@[i].team.team_id@ == game.h_team.team_id@
                && self@[j].team.team_id@ == game.v_team.team_id@
                && label@ == self@[i].team.tricode@ + " v "@ + self@[j].team.tricode@,
    {
        let hi = match self.position(&game.h_team.team_id) {
            Some(i) => i,
            None => { return Err(AggregateError::MissingIdentity); },
        };
        let ai = match self.position(&game.v_team.team_id) {
            Some(i) => i,
            None => { return Err(AggregateError::MissingIdentity); },
        };
        let mut label = self.entries[hi].team.tricode.clone();
        label.append(" v ");
        label.append(self.entries[ai].team.tricode.as_str());
        proof {
            assert(label@ == self@[hi as int].team.tricode@ + " v "@ + self@[ai as int].team.tricode@);
        }
        Ok(label)
    }

    /// The output rows of the franchise teams, in index order; every other
    /// aggregate is left out, whatever its counters.
    pub fn franchise_rows(&self) -> (r: Vec<TeamRow>)
        ensures
            r@ == franchise_rows_of(self@),
    {
        let mut rows: Vec<TeamRow> = Vec::new();
        let mut i: usize = 0;
        while i < self.entries.len()
            invariant
                i <= self@.len(),
                self@ == self.entries@,
                rows@ == franchise_rows_of(self@.take(i as int)),
            decreases self.entries@.len() - i,
        {
            let entry = &self.entries[i];
            proof {
                assert(self@.take(i + 1).drop_last() =~= self@.take(i as int));
            }
            if entry.team.is_nba_franchise {
                rows.push(TeamRow {
                    tricode: entry.team.tricode.clone(),
                    calls_in_favor: entry.calls_in_favor,
                    calls_against: entry.calls_against,
                    games_missed: entry.games_missed,
                });
            }
            i = i + 1;
        }
        proof {
            assert(self@.take(i as int) =~= self@);
        }
        rows
    }
}

/// One line of the final table.
#[derive(Debug, Clone)]
pub struct TeamRow {
    pub tricode: String,
    pub calls_in_favor: u64,
    pub calls_against: u64,
    pub games_missed: u64,
}

pub open spec fn row_of(a: TeamAggregate) -> TeamRow {
    TeamRow {
        tricode: a.team.tricode,
        calls_in_favor: a.calls_in_favor,
        calls_against: a.calls_against,
        games_missed: a.games_missed,
    }
}

/// The rows of the franchise aggregates of `s`, in order.
pub open spec fn franchise_rows_of(s: Seq<TeamAggregate>) -> Seq<TeamRow>
    decreases s.len(),
{
    if s.len() == 0 {
        Seq::empty()
    } else if s.last().team.is_nba_franchise {
        franchise_rows_of(s.drop_last()).push(row_of(s.last()))
    } else {
        franchise_rows_of(s.drop_last())
    }
}

/// Every output row comes from the aggregate of a franchise team: a team
/// that is not a franchise never appears, whatever its counters. The
/// result is the position of that aggregate.
pub proof fn lemma_row_source(s: Seq<TeamAggregate>, k: int) -> (i: int)
    requires
        0 <= k < franchise_rows_of(s).len(),
    ensures
        0 <= i < s.len(),
        s[i].team.is_nba_franchise,
        franchise_rows_of(s)[k] == row_of(s[i]),
    decreases s.len(),
{
    let p = s.drop_last();
    if k < franchise_rows_of(p).len() {
        let i = lemma_row_source(p, k);
        assert(s[i] == p[i]);
        i
    } else {
        s.len() - 1
    }
}

/// Every franchise aggregate gives an output row; the result is its position.
pub proof fn lemma_row_target(s: Seq<TeamAggregate>, i: int) -> (k: int)
    requires
        0 <= i < s.len(),
        s[i].team.is_nba_franchise,
    ensures
        0 <= k < franchise_rows_of(s).len(),
        franchise_rows_of(s)[k] == row_of(s[i]),
    decreases s.len(),
{
    let p = s.drop_last();
    if i < p.len() {
        assert(p[i] == s[i]);
        lemma_row_target(p, i)
    } else {
        franchise_rows_of(p).len() as int
    }
}

/// Folding the same report twice adds exactly twice what folding it once
/// adds: nothing is deduplicated, so each game must be folded only once.
pub proof fn lemma_fold_twice_doubles(
    first: Seq<TeamAggregate>,
    once: Seq<TeamAggregate>,
    twice: Seq<TeamAggregate>,
    home: Seq<char>,
    away: Seq<char>,
    stats: Seq<LastTwoMinutesStat>,
)
    requires
        report_folded(first, once, home, away, stats),
        report_folded(once, twice, home, away, stats),
    ensures
        twice.len() == first.len(),
        forall|i: int| 0 <= i < first.len() ==> {
            &&& #[trigger] twice[i].team == first[i].team
            &&& twice[i].calls_in_favor - first[i].calls_in_favor == 2 * (once[i].calls_in_favor - first[i].calls_in_favor)
            &&& twice[i].calls_against - first[i].calls_against == 2 * (once[i].calls_against - first[i].calls_against)
            &&& twice[i].games_missed == first[i].games_missed
        },
{
    assert forall|i: int| 0 <= i < first.len() implies {
        &&& #[trigger] twice[i].team == first[i].team
        &&& twice[i].calls_in_favor - first[i].calls_in_favor == 2 * (once[i].calls_in_favor - first[i].calls_in_favor)
        &&& twice[i].calls_against - first[i].calls_against == 2 * (once[i].calls_against - first[i].calls_against)
        &&& twice[i].games_missed == first[i].games_missed
    } by {
        assert(once[i].team.team_id@ == first[i].team.team_id@);
    }
}

/// Favour and against mirror each other between opponents: what the home
/// team gains in favour the away team gains against, and the reverse.
pub proof fn lemma_calls_mirrored(
    before: Seq<TeamAggregate>,
    after: Seq<TeamAggregate>,
    home: Seq<char>,
    away: Seq<char>,
    stats: Seq<LastTwoMinutesStat>,
    h: int,
    a: int,
)
    requires
        report_folded(before, after, home, away, stats),
        0 <= h < before.len(),
        0 <= a < before.len(),
        before[h].team.team_id@ == home,
        before[a].team.team_id@ == away,
    ensures
        after[h].calls_in_favor - before[h].calls_in_favor == after[a].calls_against - before[a].calls_against,
        after[a].calls_in_favor - before[a].calls_in_favor == after[h].calls_against - before[h].calls_against,
{
}

} // verus!
