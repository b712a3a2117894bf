use nba_utils::fetch::{
    check_response, data_nba_net_url, last_two_minutes_url, schedule_endpoint, teams_endpoint, FetchError,
};
use nba_utils::games::select_eligible_games;
use nba_utils::index::{AggregateError, IdentityIndex, TeamAggregate};
use nba_utils::schema::{
    DataNbaLeagues, Game, GamePeriod, GameTeam, GameWatchDetails, LastTwoMinutesReport, LastTwoMinutesStat, Team, UtcTimestamp,
};
use nba_utils::tally::errors_in_favor_totals;

fn team(id: &str, tricode: &str, franchise: bool) -> Team {
    Team {
        is_nba_franchise: franchise,
        tricode: tricode.to_string(),
        team_id: id.to_string(),
        ..Default::default()
    }
}

fn game(id: &str, stage: u32, start: i128, home: &str, away: &str) -> Game {
    Game {
        game_id: id.to_string(),
        season_stage_id: stage,
        game_url_code: String::new(),
        status_num: 3,
        extended_status_num: 0,
        is_start_time_tbd: false,
        start_time_utc: UtcTimestamp { unix_nanos: start },
        start_date_eastern: String::new(),
        is_neutral_venue: false,
        start_time_eastern: String::new(),
        is_buzzer_beater: false,
        period: GamePeriod::default(),
        nugget: None,
        h_team: GameTeam { team_id: home.to_string(), ..Default::default() },
        v_team: GameTeam { team_id: away.to_string(), ..Default::default() },
        watch: GameWatchDetails::default(),
    }
}

fn stat(name: &str, home: u32, away: u32) -> LastTwoMinutesStat {
    LastTwoMinutesStat { stats_name: name.to_string(), home, away }
}

fn example_stats() -> Vec<LastTwoMinutesStat> {
    vec![stat("Errors in Favor", 3, 5), stat("Correct Calls", 50, 48)]
}

fn two_team_index() -> IdentityIndex {
    IdentityIndex::from_teams(vec![team("1", "HOM", true), team("2", "AWY", true)])
}

fn find<'a>(index: &'a IdentityIndex, id: &str) -> &'a TeamAggregate {
    index.aggregates().iter().find(|a| a.team.team_id == id).unwrap()
}

fn counters(a: &TeamAggregate) -> (u64, u64, u64) {
    (a.calls_in_favor, a.calls_against, a.games_missed)
}

#[test]
fn only_errors_in_favor_counts() {
    assert_eq!(errors_in_favor_totals(&example_stats()), (3, 5));
    assert_eq!(errors_in_favor_totals(&vec![stat("Correct Calls", 50, 48)]), (0, 0));
    assert_eq!(errors_in_favor_totals(&Vec::new()), (0, 0));
}

#[test]
fn duplicate_errors_in_favor_lines_are_summed() {
    let stats = vec![stat("Errors in Favor", 1, 2), stat("Errors in Favor", 4, 8)];
    assert_eq!(errors_in_favor_totals(&stats), (5, 10));
}

#[test]
fn report_fold_example() {
    let mut index = two_team_index();
    let r = index.record_report(&"1".to_string(), &"2".to_string(), &example_stats());
    assert_eq!(r, Ok(()));
    assert_eq!(counters(find(&index, "1")), (3, 5, 0));
    assert_eq!(counters(find(&index, "2")), (5, 3, 0));
}

#[test]
fn folding_twice_doubles_deltas() {
    let mut index = two_team_index();
    index.record_report(&"1".to_string(), &"2".to_string(), &example_stats()).unwrap();
    index.record_report(&"1".to_string(), &"2".to_string(), &example_stats()).unwrap();
    assert_eq!(counters(find(&index, "1")), (6, 10, 0));
    assert_eq!(counters(find(&index, "2")), (10, 6, 0));
}

#[test]
fn favor_and_against_mirror_between_opponents() {
    let mut index = two_team_index();
    let stats = vec![stat("Errors in Favor", 7, 2), stat("Incorrect Non-Calls", 9, 9)];
    index.record_report(&"2".to_string(), &"1".to_string(), &stats).unwrap();
    let home = find(&index, "2");
    let away = find(&index, "1");
    assert_eq!(home.calls_in_favor, away.calls_against);
    assert_eq!(away.calls_in_favor, home.calls_against);
    assert_eq!(home.calls_in_favor, 7);
    assert_eq!(away.calls_in_favor, 2);
}

#[test]
fn empty_report_contributes_nothing() {
    let mut index = two_team_index();
    index.record_report(&"1".to_string(), &"2".to_string(), &Vec::new()).unwrap();
    assert_eq!(counters(find(&index, "1")), (0, 0, 0));
    assert_eq!(counters(find(&index, "2")), (0, 0, 0));
}

#[test]
fn missed_game_counting() {
    let teams = vec![
        team("1", "AAA", true),
        team("2", "BBB", true),
        team("3", "CCC", true),
        team("4", "DDD", true),
        team("5", "EEE", true),
        team("6", "FFF", true),
    ];
    let mut index = IdentityIndex::from_teams(teams);
    let games = vec![game("g1", 2, 0, "1", "2"), game("g2", 2, 0, "3", "4"), game("g3", 2, 0, "5", "6")];
    for g in &games {
        let report = if g.game_id == "g2" {
            Err(FetchError::HttpError { status: 404, body: "not found".to_string() })
        } else {
            Ok(LastTwoMinutesReport { stats: example_stats(), ..Default::default() })
        };
        index.record_game(g, &report).unwrap();
    }
    for a in index.aggregates() {
        let expected = if a.team.team_id == "3" || a.team.team_id == "4" { 1 } else { 0 };
        assert_eq!(a.games_missed, expected);
    }
    assert_eq!(counters(find(&index, "5")), (3, 5, 0));
}

#[test]
fn missing_identity_is_refused_and_leaves_index_unchanged() {
    let mut index = two_team_index();
    let r = index.record_report(&"1".to_string(), &"9".to_string(), &example_stats());
    assert_eq!(r, Err(AggregateError::MissingIdentity));
    assert_eq!(index.record_missed(&"9".to_string(), &"2".to_string()), Err(AggregateError::MissingIdentity));
    assert_eq!(counters(find(&index, "1")), (0, 0, 0));
    assert_eq!(counters(find(&index, "2")), (0, 0, 0));
    assert_eq!(index.game_label(&game("g", 2, 0, "1", "9")), Err(AggregateError::MissingIdentity));
}

#[test]
fn franchise_filter() {
    let mut index = IdentityIndex::from_teams(vec![
        team("1", "HOM", true),
        team("2", "AWY", true),
        team("3", "EST", false),
    ]);
    index.record_report(&"1".to_string(), &"3".to_string(), &example_stats()).unwrap();
    let rows = index.franchise_rows();
    assert_eq!(rows.len(), 2);
    assert!(rows.iter().all(|r| r.tricode != "EST"));
    let hom = rows.iter().find(|r| r.tricode == "HOM").unwrap();
    assert_eq!((hom.calls_in_favor, hom.calls_against, hom.games_missed), (3, 5, 0));
}

#[test]
fn duplicate_team_ids_last_write_wins() {
    let index = IdentityIndex::from_teams(vec![
        team("1", "OLD", true),
        team("2", "AWY", true),
        team("1", "NEW", true),
    ]);
    assert_eq!(index.aggregates().len(), 2);
    assert_eq!(find(&index, "1").team.tricode, "NEW");
}

#[test]
fn same_team_on_both_sides() {
    let mut index = two_team_index();
    index.record_report(&"1".to_string(), &"1".to_string(), &example_stats()).unwrap();
    index.record_missed(&"1".to_string(), &"1".to_string()).unwrap();
    assert_eq!(counters(find(&index, "1")), (8, 8, 2));
}

#[test]
fn game_label_uses_tricodes() {
    let index = two_team_index();
    assert_eq!(index.game_label(&game("g", 2, 0, "1", "2")), Ok("HOM v AWY".to_string()));
}

#[test]
fn selects_regular_season_games_already_started() {
    let games = vec![
        game("a", 2, 100, "1", "2"),
        game("b", 1, 100, "1", "2"),
        game("c", 2, 500, "1", "2"),
        game("d", 2, 499, "1", "2"),
        game("e", 4, 0, "1", "2"),
    ];
    let kept = select_eligible_games(games, UtcTimestamp { unix_nanos: 500 });
    let ids: Vec<&str> = kept.iter().map(|g| g.game_id.as_str()).collect();
    assert_eq!(ids, vec!["a", "d"]);
}

#[test]
fn response_status_check() {
    assert_eq!(check_response(200, "{}".to_string()).unwrap(), "{}");
    assert_eq!(check_response(299, "x".to_string()).unwrap(), "x");
    match check_response(404, "missing".to_string()) {
        Err(FetchError::HttpError { status, body }) => {
            assert_eq!(status, 404);
            assert_eq!(body, "missing");
        }
        other => panic!("unexpected {:?}", other),
    }
    assert!(check_response(300, String::new()).is_err());
    assert!(check_response(199, String::new()).is_err());
}

#[test]
fn feed_addresses() {
    assert_eq!(last_two_minutes_url("0022200001"), "https://official.nba.com/l2m/json/0022200001.json");
    assert_eq!(data_nba_net_url("2022/teams.json"), "http://data.nba.net/prod/v2/2022/teams.json");
    assert_eq!(schedule_endpoint(2022), "2022/schedule.json");
    assert_eq!(teams_endpoint(7), "7/teams.json");
}

#[test]
fn decode_and_transport_failures_count_as_missed() {
    let mut index = two_team_index();
    let g = game("g", 2, 0, "1", "2");
    let decode: Result<LastTwoMinutesReport, FetchError> =
        Err(FetchError::DecodeError { body: "<html>".to_string(), cause: "expected value".to_string() });
    let transport: Result<LastTwoMinutesReport, FetchError> =
        Err(FetchError::TransportError { cause: "connection refused".to_string() });
    index.record_game(&g, &decode).unwrap();
    index.record_game(&g, &transport).unwrap();
    assert_eq!(counters(find(&index, "1")), (0, 0, 2));
    assert_eq!(counters(find(&index, "2")), (0, 0, 2));
}

#[test]
fn empty_index_refuses_every_game() {
    let mut index = IdentityIndex::new();
    let g = game("g", 2, 0, "1", "2");
    let report: Result<LastTwoMinutesReport, FetchError> = Ok(LastTwoMinutesReport::default());
    assert_eq!(index.record_game(&g, &report), Err(AggregateError::MissingIdentity));
    assert!(index.franchise_rows().is_empty());
}

#[test]
fn absent_buckets_default_to_empty() {
    let leagues = DataNbaLeagues::from_buckets(Some(vec![team("1", "HOM", true)]), None, Some(Vec::new()), None, None);
    assert_eq!(leagues.standard.len(), 1);
    assert_eq!(leagues.standard[0].tricode, "HOM");
    assert!(leagues.africa.is_empty());
    assert!(leagues.sacramento.is_empty());
    assert!(leagues.vegas.is_empty());
    assert!(leagues.utah.is_empty());
}
