//! The one tally category that carries aggregation meaning: officiating
//! errors that went in a team's favour.

use vstd::prelude::*;
use crate::schema::LastTwoMinutesStat;

verus! {

/// The category name of the missed calls that benefited a side.
pub open spec fn errors_in_favor_name() -> Seq<char> {
    "Errors in Favor"@
}

pub open spec fn is_errors_in_favor(stat: LastTwoMinutesStat) -> bool {
    stat.stats_name@ == errors_in_favor_name()
}

/// Sum of the home counts of every "Errors in Favor" line.
pub open spec fn home_errors(stats: Seq<LastTwoMinutesStat>) -> int
    decreases stats.len(),
{
    if stats.len() == 0 {
        0
    } else {
        home_errors(stats.drop_last()) + if is_errors_in_favor(stats.last()) {
            stats.last().home as int
        } else {
            0
        }
    }
}

/// Sum of the away counts of every "Errors in Favor" line.
pub open spec fn away_errors(stats: Seq<LastTwoMinutesStat>) -> int
    decreases stats.len(),
{
    if stats.len() == 0 {
        0
    } else {
        away_errors(stats.drop_last()) + if is_errors_in_favor(stats.last()) {
            stats.last().away as int
        } else {
            0
        }
    }
}

proof fn lemma_errors_bounded(stats: Seq<LastTwoMinutesStat>)
    ensures
        0 <= home_errors(stats) <= stats.len() * 0xFFFF_FFFF,
        0 <= away_errors(stats) <= stats.len() * 0xFFFF_FFFF,
    decreases stats.len(),
{
    if stats.len() > 0 {
        lemma_errors_bounded(stats.drop_last());
    }
}

/// Totals of the "Errors in Favor" lines of a report, as (home, away).
/// Lines of every other category are ignored; duplicates are summed.
pub fn errors_in_favor_totals(stats: &Vec<LastTwoMinutesStat>) -> (r: (u128, u128))
    ensures
        r.0 == home_errors(stats@),
        r.1 == away_errors(stats@),
{
    let label = String::from_str("Errors in Favor");
    proof {
        reveal_strlit("Errors in Favor");
    }
    let mut home: u128 = 0;
    let mut away: u128 = 0;
    let mut i: usize = 0;
    while i < stats.len()
        invariant
            i <= stats@.len(),
            label@ == errors_in_favor_name(),
            home == home_errors(stats@.take(i as int)),
            away == away_errors(stats@.take(i as int)),
        decreases stats@.len() - i,
    {
        let stat = &stats[i];
        proof {
            let next = stats@.take(i + 1);
            assert(next.drop_last() =~= stats@.take(i as int));
            lemma_errors_bounded(stats@.take(i as int));
            assert(i * 0xFFFF_FFFF <= 0xFFFF_FFFF_FFFF_FFFF * 0xFFFF_FFFF) by (nonlinear_arith)
                requires i <= 0xFFFF_FFFF_FFFF_FFFF;
        }
        if stat.stats_name == label {
            home = home + stat.home as u128;
            away = away + stat.away as u128;
        }
        i = i + 1;
    }
    assert(stats@.take(i as int) =~= stats@);
    (home, away)
}

/// Sums over a concatenation split into sums over the parts.
pub proof fn lemma_errors_concat(a: Seq<LastTwoMinutesStat>, b: Seq<LastTwoMinutesStat>)
    ensures
        home_errors(a + b) == home_errors(a) + home_errors(b),
        away_errors(a + b) == away_errors(a) + away_errors(b),
    decreases b.len(),
{
    if b.len() == 0 {
        assert(a + b =~= a);
    } else {
        lemma_errors_concat(a, b.drop_last());
        assert((a + b).drop_last() =~= a + b.drop_last());
    }
}

/// A tally line of any category other than "Errors in Favor", wherever it
/// stands in a report and whatever its counts, changes neither total.
pub proof fn lemma_other_category_ignored(
    before: Seq<LastTwoMinutesStat>,
    other: LastTwoMinutesStat,
    after: Seq<LastTwoMinutesStat>,
)
    requires
        other.stats_name@ != errors_in_favor_name(),
    ensures
        home_errors(before + seq![other] + after) == home_errors(before + after),
        away_errors(before + seq![other] + after) == away_errors(before + after),
{
    lemma_errors_concat(before + seq![other], after);
    lemma_errors_concat(before, seq![other]);
    lemma_errors_concat(before, after);
    let single = seq![other];
    assert(single.drop_last() =~= Seq::<LastTwoMinutesStat>::empty());
    assert(single.last() == other);
    assert(home_errors(single.drop_last()) == 0);
    assert(away_errors(single.drop_last()) == 0);
    assert(home_errors(single) == 0);
    assert(away_errors(single) == 0);
}

} // verus!
