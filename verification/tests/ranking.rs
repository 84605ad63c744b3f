use the_league::aggregate::{aggregate, Aggregation};
use the_league::model::{
    GameOutcome, GameResultSpec, StandingResolution, Team, TheLeagueSpec, Timestamp,
};
use the_league::ranking::{
    fallback_first, points_against, points_table, rank, rank_in, ranked_names,
};

fn league(names: &[&str]) -> TheLeagueSpec {
    TheLeagueSpec {
        max_teams: 8,
        matchups: 2,
        teams: names
            .iter()
            .map(|n| Team {
                name: n.to_string(),
                description: None,
                location: None,
                players: Vec::new(),
            })
            .collect(),
    }
}

fn beat(seconds: i64, winner: &str, loser: &str, goals: u32, conceded: u32) -> GameResultSpec {
    GameResultSpec {
        league_name: "cup".to_string(),
        round_number: 1,
        teams: [winner.to_string(), loser.to_string()],
        time: Timestamp { seconds, nanos: 0 },
        result: GameOutcome::WinnerHome { score_home: goals, score_away: conceded },
    }
}

fn beat_away(seconds: i64, winner: &str, loser: &str, goals: u32, conceded: u32) -> GameResultSpec {
    GameResultSpec {
        league_name: "cup".to_string(),
        round_number: 1,
        teams: [loser.to_string(), winner.to_string()],
        time: Timestamp { seconds, nanos: 0 },
        result: GameOutcome::WinnerAway { score_home: conceded, score_away: goals },
    }
}

fn drew(seconds: i64, home: &str, away: &str, score: u32) -> GameResultSpec {
    GameResultSpec {
        league_name: "cup".to_string(),
        round_number: 1,
        teams: [home.to_string(), away.to_string()],
        time: Timestamp { seconds, nanos: 0 },
        result: GameOutcome::Draw { score },
    }
}

fn table(names: &[&str], games: &Vec<GameResultSpec>) -> Aggregation {
    aggregate("cup", &league(names), games)
}

fn order(agg: &Aggregation, strategy: StandingResolution) -> Vec<String> {
    ranked_names(agg, strategy)
}

#[test]
fn more_points_rank_first() {
    let games = vec![beat(1, "B", "A", 1, 0), drew(2, "C", "A", 0), beat(3, "B", "C", 2, 1)];
    let agg = table(&["A", "B", "C"], &games);
    assert_eq!(order(&agg, StandingResolution::GoalDifference), vec!["B", "C", "A"]);
    assert_eq!(order(&agg, StandingResolution::Head2Head), vec!["B", "C", "A"]);
    assert_eq!(rank(&agg, StandingResolution::Head2Head), vec![1, 2, 0]);
}

#[test]
fn an_empty_league_has_an_empty_ranking() {
    let agg = table(&[], &Vec::new());
    assert!(rank(&agg, StandingResolution::Head2Head).is_empty());
    assert!(rank(&agg, StandingResolution::GoalDifference).is_empty());
    assert!(ranked_names(&agg, StandingResolution::Head2Head).is_empty());
}

#[test]
fn teams_level_on_everything_rank_by_name() {
    let agg = table(&["Wolves", "Ravens", "Otters", "Herons"], &Vec::new());
    let expected = vec!["Herons", "Otters", "Ravens", "Wolves"];
    assert_eq!(order(&agg, StandingResolution::GoalDifference), expected);
    assert_eq!(order(&agg, StandingResolution::Head2Head), expected);
}

#[test]
fn goal_difference_tells_three_level_teams_apart() {
    let games = vec![beat(1, "A", "B", 1, 0), beat(2, "B", "C", 3, 0), beat(3, "C", "A", 2, 0)];
    let agg = table(&["A", "B", "C"], &games);
    for name in ["A", "B", "C"] {
        let s = agg.stats_of(name).unwrap();
        assert_eq!((s.points, s.wins, s.losses), (3, 1, 1));
    }
    assert_eq!(order(&agg, StandingResolution::GoalDifference), vec!["B", "C", "A"]);
}

#[test]
fn head_to_head_decides_before_goal_difference() {
    let games = vec![
        beat(1, "A", "B", 1, 0),
        beat(2, "D", "A", 5, 0),
        beat(3, "B", "E", 5, 0),
        beat(4, "C", "E", 2, 0),
        beat_away(5, "D", "C", 1, 0),
    ];
    let agg = table(&["A", "B", "C", "D", "E"], &games);
    for name in ["A", "B", "C"] {
        let s = agg.stats_of(name).unwrap();
        assert_eq!((s.points, s.wins, s.losses), (3, 1, 1));
    }
    assert_eq!(order(&agg, StandingResolution::GoalDifference), vec!["D", "B", "C", "A", "E"]);
    assert_eq!(order(&agg, StandingResolution::Head2Head), vec!["D", "A", "B", "C", "E"]);
}

#[test]
fn a_level_head_to_head_falls_back_on_goal_difference() {
    let games = vec![beat(1, "A", "B", 1, 0), beat(2, "B", "C", 3, 0), beat(3, "C", "A", 2, 0)];
    let agg = table(&["A", "B", "C"], &games);
    assert_eq!(order(&agg, StandingResolution::Head2Head), vec!["B", "C", "A"]);
}

#[test]
fn a_three_way_tie_that_becomes_a_two_way_tie_is_resolved_again() {
    let games = vec![
        beat(1, "X", "Y", 1, 0),
        beat(2, "X", "Y", 1, 0),
        beat(3, "Z", "X", 1, 0),
        beat(4, "Y", "Z", 1, 0),
        beat(5, "Y", "W", 1, 0),
        beat(6, "Z", "W", 9, 0),
    ];
    let agg = table(&["W", "X", "Y", "Z"], &games);
    for name in ["X", "Y", "Z"] {
        assert_eq!(agg.stats_of(name).unwrap().points, 6);
    }
    assert_eq!(order(&agg, StandingResolution::GoalDifference), vec!["Z", "X", "Y", "W"]);
    assert_eq!(order(&agg, StandingResolution::Head2Head), vec!["X", "Y", "Z", "W"]);
}

#[test]
fn teams_that_never_met_fall_back_on_goal_difference_then_goals_then_name() {
    let games = vec![beat(1, "A", "C", 2, 1), beat(2, "B", "D", 4, 0)];
    let agg = table(&["A", "B", "C", "D"], &games);
    assert_eq!(order(&agg, StandingResolution::Head2Head), vec!["B", "A", "C", "D"]);
    let games = vec![beat(1, "A", "C", 2, 1), beat(2, "B", "D", 3, 2)];
    let agg = table(&["A", "B", "C", "D"], &games);
    assert_eq!(order(&agg, StandingResolution::Head2Head), vec!["B", "A", "D", "C"]);
    let games = vec![beat(1, "B", "C", 2, 1), beat(2, "A", "D", 2, 1)];
    let agg = table(&["B", "A", "D", "C"], &games);
    assert_eq!(order(&agg, StandingResolution::Head2Head), vec!["A", "B", "C", "D"]);
    assert_eq!(order(&agg, StandingResolution::GoalDifference), vec!["A", "B", "C", "D"]);
}

#[test]
fn ranking_is_the_same_every_time() {
    let games = vec![
        beat(1, "A", "B", 1, 0),
        beat(2, "B", "C", 3, 0),
        beat(3, "C", "A", 2, 0),
        drew(4, "D", "A", 1),
    ];
    let mut reordered = games.clone();
    reordered.reverse();
    for strategy in [StandingResolution::Head2Head, StandingResolution::GoalDifference] {
        let agg = table(&["A", "B", "C", "D"], &games);
        let first = rank(&agg, strategy);
        let second = rank(&agg, strategy);
        let third = rank(&table(&["A", "B", "C", "D"], &reordered), strategy);
        assert_eq!(first, second);
        assert_eq!(first, third);
        let mut seen = first.clone();
        seen.sort();
        assert_eq!(seen, vec![0, 1, 2, 3]);
    }
}

#[test]
fn points_between_two_teams() {
    let games = vec![
        beat(1, "A", "B", 1, 0),
        beat_away(2, "A", "B", 2, 1),
        drew(3, "B", "A", 0),
        beat(4, "B", "A", 1, 0),
        beat(5, "A", "C", 1, 0),
    ];
    let agg = table(&["A", "B", "C"], &games);
    assert_eq!(points_against(&agg, 0, 1), 7);
    assert_eq!(points_against(&agg, 1, 0), 4);
    assert_eq!(points_against(&agg, 0, 2), 3);
    assert_eq!(points_against(&agg, 2, 0), 0);
    assert_eq!(points_against(&agg, 1, 2), 0);
    assert_eq!(points_against(&agg, 1, 1), 0);
    assert_eq!(points_table(&agg), vec![vec![0, 7, 3], vec![4, 0, 0], vec![0, 0, 0]]);
}

#[test]
fn rank_counts_from_one() {
    let games = vec![beat(1, "B", "A", 1, 0), drew(2, "C", "A", 0), beat(3, "B", "C", 2, 1)];
    let agg = table(&["A", "B", "C"], &games);
    let strategy = StandingResolution::GoalDifference;
    let ranking = rank(&agg, strategy);
    assert_eq!(rank_in(&agg, strategy, &ranking, 1), 1);
    assert_eq!(rank_in(&agg, strategy, &ranking, 2), 2);
    assert_eq!(rank_in(&agg, strategy, &ranking, 0), 3);
}

#[test]
fn order_of_last_resort() {
    let games = vec![beat(1, "A", "C", 2, 1), beat(2, "B", "D", 3, 2)];
    let agg = table(&["A", "B", "C", "D"], &games);
    assert!(fallback_first(&agg, 1, 0));
    assert!(!fallback_first(&agg, 0, 1));
    assert!(fallback_first(&agg, 0, 3));
    assert!(fallback_first(&agg, 3, 2));
    assert!(!fallback_first(&agg, 2, 2));
}
