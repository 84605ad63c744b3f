use the_league::model::{GameOutcome, LeagueError, Team, TheLeagueSpec};
use the_league::names::name_less;

fn team(name: &str) -> Team {
    Team { name: name.to_string(), description: None, location: None, players: Vec::new() }
}

fn league(max_teams: u8, names: &[&str]) -> TheLeagueSpec {
    TheLeagueSpec { max_teams, matchups: 1, teams: names.iter().map(|n| team(n)).collect() }
}

#[test]
fn league_within_its_rules_is_accepted() {
    assert_eq!(league(2, &["Ravens", "Wolves"]).validate(), Ok(()));
    assert_eq!(league(8, &[]).validate(), Ok(()));
    assert_eq!(league(8, &["A", "B", "C", "D", "E", "F", "G", "H"]).validate(), Ok(()));
}

#[test]
fn capacity_outside_two_to_eight_is_refused() {
    assert_eq!(league(1, &["Ravens"]).validate(), Err(LeagueError::CapacityOutOfRange));
    assert_eq!(league(0, &[]).validate(), Err(LeagueError::CapacityOutOfRange));
    assert_eq!(league(9, &["Ravens"]).validate(), Err(LeagueError::CapacityOutOfRange));
}

#[test]
fn more_teams_than_capacity_is_refused() {
    assert_eq!(league(2, &["A", "B", "C"]).validate(), Err(LeagueError::TooManyTeams));
    assert_eq!(league(2, &["A", "A", "A"]).validate(), Err(LeagueError::TooManyTeams));
}

#[test]
fn a_name_used_twice_is_refused() {
    assert_eq!(league(4, &["A", "B", "A"]).validate(), Err(LeagueError::DuplicateTeam));
    assert_eq!(league(4, &["A", "B", "a"]).validate(), Ok(()));
}

#[test]
fn find_team_gives_the_position() {
    let l = league(4, &["Ravens", "Wolves", "Otters"]);
    assert_eq!(l.find_team("Ravens"), Some(0));
    assert_eq!(l.find_team("Otters"), Some(2));
    assert_eq!(l.find_team("otters"), None);
    assert_eq!(l.find_team(""), None);
}

#[test]
fn outcome_goals_and_consistency() {
    let w = GameOutcome::WinnerHome { score_home: 3, score_away: 1 };
    assert_eq!((w.goals_home(), w.goals_away(), w.is_consistent()), (3, 1, true));
    let l = GameOutcome::WinnerAway { score_home: 3, score_away: 1 };
    assert_eq!((l.goals_home(), l.goals_away(), l.is_consistent()), (3, 1, false));
    let d = GameOutcome::Draw { score: 4 };
    assert_eq!((d.goals_home(), d.goals_away(), d.is_consistent()), (4, 4, true));
    assert!(!GameOutcome::WinnerHome { score_home: 2, score_away: 2 }.is_consistent());
}

#[test]
fn names_are_ordered_like_strings() {
    let names = ["", "A", "Ab", "B", "a", "ab", "b", "Zebra", "zebra", "Égalité", "Ravens 2"];
    for x in names {
        for y in names {
            assert_eq!(name_less(x, y), x < y, "{:?} against {:?}", x, y);
        }
    }
}
