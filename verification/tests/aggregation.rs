use the_league::aggregate::{
    aggregate, classify, resolve_game, resolve_games, tally_team, Fixture, GameVerdict, TeamStats,
};
use the_league::model::{
    GameError, GameOutcome, GameResultSpec, Player, Team, TheLeagueSpec, Timestamp,
};

fn team(name: &str) -> Team {
    Team {
        name: name.to_string(),
        description: None,
        location: Some("Home ground".to_string()),
        players: vec![Player { first_name: "Ada".to_string(), last_name: "Lane".to_string() }],
    }
}

fn league(names: &[&str]) -> TheLeagueSpec {
    TheLeagueSpec { max_teams: 8, matchups: 2, teams: names.iter().map(|n| team(n)).collect() }
}

fn game(round: u32, seconds: i64, home: &str, away: &str, result: GameOutcome) -> GameResultSpec {
    GameResultSpec {
        league_name: "premier".to_string(),
        round_number: round,
        teams: [home.to_string(), away.to_string()],
        time: Timestamp { seconds, nanos: 0 },
        result,
    }
}

fn home_win(h: u32, a: u32) -> GameOutcome {
    GameOutcome::WinnerHome { score_home: h, score_away: a }
}

fn away_win(h: u32, a: u32) -> GameOutcome {
    GameOutcome::WinnerAway { score_home: h, score_away: a }
}

fn stats(points: u128, wins: u64, losses: u64, draws: u64, gf: u128, ga: u128) -> TeamStats {
    TeamStats { points, wins, losses, draws, goals_for: gf, goals_against: ga }
}

fn season() -> Vec<GameResultSpec> {
    vec![
        game(1, 100, "Ravens", "Wolves", home_win(3, 1)),
        game(1, 100, "Otters", "Herons", GameOutcome::Draw { score: 2 }),
        game(2, 200, "Wolves", "Otters", away_win(0, 4)),
        game(2, 210, "Herons", "Ravens", home_win(2, 0)),
        game(3, 300, "Wolves", "Ravens", GameOutcome::Draw { score: 1 }),
        game(3, 300, "Ravens", "Wolves", away_win(1, 2)),
    ]
}

#[test]
fn a_home_win_gives_the_home_team_three_points() {
    let l = league(&["Ravens", "Wolves"]);
    let games = vec![game(1, 10, "Ravens", "Wolves", home_win(3, 1))];
    let agg = aggregate("premier", &l, &games);
    assert_eq!(agg.stats_of("Ravens"), Some(stats(3, 1, 0, 0, 3, 1)));
    assert_eq!(agg.stats_of("Wolves"), Some(stats(0, 0, 1, 0, 1, 3)));
}

#[test]
fn a_draw_gives_each_team_one_point() {
    let l = league(&["Ravens", "Wolves"]);
    let games = vec![game(1, 10, "Ravens", "Wolves", GameOutcome::Draw { score: 2 })];
    let agg = aggregate("premier", &l, &games);
    assert_eq!(agg.stats_of("Ravens"), Some(stats(1, 0, 0, 1, 2, 2)));
    assert_eq!(agg.stats_of("Wolves"), Some(stats(1, 0, 0, 1, 2, 2)));
}

#[test]
fn away_win_gives_the_away_team_three_points() {
    let l = league(&["Ravens", "Wolves"]);
    let games = vec![game(1, 10, "Ravens", "Wolves", away_win(0, 2))];
    let agg = aggregate("premier", &l, &games);
    assert_eq!(agg.stats_of("Ravens"), Some(stats(0, 0, 1, 0, 0, 2)));
    assert_eq!(agg.stats_of("Wolves"), Some(stats(3, 1, 0, 0, 2, 0)));
}

#[test]
fn no_games_all_zero() {
    let l = league(&["Ravens", "Wolves", "Otters"]);
    let agg = aggregate("premier", &l, &Vec::new());
    assert_eq!(agg.len(), 3);
    for name in ["Ravens", "Wolves", "Otters"] {
        assert_eq!(agg.stats_of(name), Some(stats(0, 0, 0, 0, 0, 0)));
    }
    assert!(agg.games_between(0, 1).is_empty());
    assert_eq!(agg.stats_of("Herons"), None);
}

#[test]
fn season_totals() {
    let l = league(&["Ravens", "Wolves", "Otters", "Herons"]);
    let agg = aggregate("premier", &l, &season());
    assert_eq!(agg.stats_of("Ravens"), Some(stats(4, 1, 2, 1, 5, 6)));
    assert_eq!(agg.stats_of("Wolves"), Some(stats(4, 1, 2, 1, 4, 9)));
    assert_eq!(agg.stats_of("Otters"), Some(stats(4, 1, 0, 1, 6, 2)));
    assert_eq!(agg.stats_of("Herons"), Some(stats(4, 1, 0, 1, 4, 2)));
}

#[test]
fn aggregation_is_idempotent() {
    let l = league(&["Ravens", "Wolves", "Otters", "Herons"]);
    let games = season();
    let first = aggregate("premier", &l, &games);
    let second = aggregate("premier", &l, &games);
    for i in 0..4 {
        assert_eq!(first.team(i).name, second.team(i).name);
        assert_eq!(first.team(i).stats, second.team(i).stats);
        assert_eq!(first.team(i).versus, second.team(i).versus);
    }
}

#[test]
fn aggregation_ignores_order() {
    let l = league(&["Ravens", "Wolves", "Otters", "Herons"]);
    let games = season();
    let mut shuffled = season();
    shuffled.reverse();
    shuffled.swap(0, 3);
    shuffled.swap(1, 4);
    let first = aggregate("premier", &l, &games);
    let second = aggregate("premier", &l, &shuffled);
    for i in 0..4 {
        assert_eq!(first.team(i).name, second.team(i).name);
        assert_eq!(first.team(i).stats, second.team(i).stats);
        assert_eq!(first.team(i).versus, second.team(i).versus);
        for j in 0..4 {
            assert_eq!(first.games_between(i, j), second.games_between(i, j));
        }
    }
}

#[test]
fn games_add_up_and_points_follow() {
    let l = league(&["Ravens", "Wolves", "Otters", "Herons"]);
    let games = season();
    let agg = aggregate("premier", &l, &games);
    for (i, name) in ["Ravens", "Wolves", "Otters", "Herons"].iter().enumerate() {
        let played = games.iter().filter(|g| g.teams[0] == *name || g.teams[1] == *name).count();
        let s = agg.team(i).stats;
        assert_eq!((s.wins + s.losses + s.draws) as usize, played);
        assert_eq!(s.points, 3 * s.wins as u128 + s.draws as u128);
    }
}

#[test]
fn game_of_a_removed_team_is_passed_over() {
    let l = league(&["Ravens", "Wolves"]);
    let games = vec![
        game(1, 10, "Ravens", "Otters", home_win(5, 0)),
        game(1, 20, "Otters", "Wolves", away_win(0, 1)),
        game(2, 30, "Ravens", "Wolves", home_win(1, 0)),
    ];
    let agg = aggregate("premier", &l, &games);
    assert_eq!(agg.stats_of("Ravens"), Some(stats(3, 1, 0, 0, 1, 0)));
    assert_eq!(agg.stats_of("Wolves"), Some(stats(0, 0, 1, 0, 0, 1)));
    assert_eq!(classify("premier", &l, &games[0]), GameVerdict::UnlistedTeam);
    assert_eq!(classify("premier", &l, &games[2]), GameVerdict::Counted);
    assert_eq!(resolve_game("premier", &l, &games[0]), None);
}

#[test]
fn game_of_another_league_is_passed_over() {
    let l = league(&["Ravens", "Wolves"]);
    let mut other = game(1, 10, "Ravens", "Wolves", home_win(5, 0));
    other.league_name = "second".to_string();
    let games = vec![other];
    let agg = aggregate("premier", &l, &games);
    assert_eq!(agg.stats_of("Ravens"), Some(stats(0, 0, 0, 0, 0, 0)));
    assert_eq!(classify("premier", &l, &games[0]), GameVerdict::OtherLeague);
    assert_eq!(classify("second", &l, &games[0]), GameVerdict::Counted);
}

#[test]
fn contradictory_scores_are_rejected() {
    let l = league(&["Ravens", "Wolves"]);
    let games = vec![
        game(1, 10, "Ravens", "Wolves", home_win(1, 5)),
        game(2, 20, "Ravens", "Wolves", away_win(2, 2)),
        game(3, 30, "Ravens", "Ravens", GameOutcome::Draw { score: 1 }),
    ];
    let agg = aggregate("premier", &l, &games);
    assert_eq!(agg.stats_of("Ravens"), Some(stats(0, 0, 0, 0, 0, 0)));
    assert_eq!(agg.stats_of("Wolves"), Some(stats(0, 0, 0, 0, 0, 0)));
    assert_eq!(
        classify("premier", &l, &games[0]),
        GameVerdict::Rejected(GameError::ScoreContradictsWinner)
    );
    assert_eq!(
        classify("premier", &l, &games[1]),
        GameVerdict::Rejected(GameError::ScoreContradictsWinner)
    );
    assert_eq!(classify("premier", &l, &games[2]), GameVerdict::Rejected(GameError::SameTeam));
    assert_eq!(games[0].validate(), Err(GameError::ScoreContradictsWinner));
    assert_eq!(games[2].validate(), Err(GameError::SameTeam));
    assert_eq!(game(1, 1, "Ravens", "Wolves", home_win(2, 1)).validate(), Ok(()));
}

#[test]
fn fixtures_name_teams_by_position() {
    let l = league(&["Ravens", "Wolves", "Otters"]);
    let games = vec![
        game(4, 40, "Otters", "Ravens", away_win(1, 2)),
        game(5, 50, "Nobody", "Ravens", away_win(1, 2)),
    ];
    let fx = resolve_games("premier", &l, &games);
    assert_eq!(
        fx,
        vec![Fixture {
            home: 2,
            away: 0,
            round_number: 4,
            time: Timestamp { seconds: 40, nanos: 0 },
            result: away_win(1, 2),
        }]
    );
    assert_eq!(tally_team(&fx, 0), stats(3, 1, 0, 0, 2, 1));
    assert_eq!(tally_team(&fx, 2), stats(0, 0, 1, 0, 1, 2));
    assert_eq!(tally_team(&fx, 1), stats(0, 0, 0, 0, 0, 0));
}

#[test]
fn games_between_two_teams_are_listed_by_time() {
    let l = league(&["Ravens", "Wolves", "Otters"]);
    let games = vec![
        game(3, 300, "Wolves", "Ravens", GameOutcome::Draw { score: 1 }),
        game(1, 100, "Ravens", "Wolves", home_win(3, 1)),
        game(2, 200, "Otters", "Ravens", home_win(1, 0)),
        game(2, 100, "Ravens", "Wolves", home_win(2, 1)),
        game(1, 100, "Ravens", "Wolves", home_win(3, 0)),
    ];
    let agg = aggregate("premier", &l, &games);
    let list = agg.games_between(0, 1);
    assert_eq!(list, agg.games_between(1, 0));
    let seen: Vec<(i64, u32, usize, u32)> = list
        .iter()
        .map(|f| (f.time.seconds, f.round_number, f.home, f.result.goals_away()))
        .collect();
    assert_eq!(seen, vec![(100, 1, 0, 0), (100, 1, 0, 1), (100, 2, 0, 1), (300, 3, 1, 1)]);
    assert_eq!(agg.games_between(0, 2).len(), 1);
    assert!(agg.games_between(1, 2).is_empty());
    assert!(agg.games_between(1, 1).is_empty());
    assert_eq!(agg.position("Otters"), Some(2));
    assert_eq!(agg.position("Herons"), None);
}
