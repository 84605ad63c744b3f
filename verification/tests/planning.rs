use the_league::aggregate::TeamStats;
use the_league::condition::{find_held_since, Condition, ConditionKind, Tristate};
use the_league::model::{
    GameOutcome, GameResultSpec, LeagueError, StandingResolution, StandingSpec, Team,
    TheLeagueSpec, Timestamp,
};
use the_league::plan::{
    find_tracking, plan, plan_standing, ObservedStanding, Plan, PlanError, Write,
};
use the_league::reconcile::{judge_reply, Action, Event, Failure, Phase, Reconciler, StoreReply};
use the_league::status::{StandingStatus, TheLeagueStatus};

fn at(seconds: i64) -> Timestamp {
    Timestamp { seconds, nanos: 0 }
}

fn league(names: &[&str]) -> TheLeagueSpec {
    TheLeagueSpec {
        max_teams: 8,
        matchups: 1,
        teams: names
            .iter()
            .map(|n| Team {
                name: n.to_string(),
                description: None,
                location: None,
                players: Vec::new(),
            })
            .collect(),
    }
}

fn game(seconds: i64, home: &str, away: &str, result: GameOutcome) -> GameResultSpec {
    GameResultSpec {
        league_name: "premier".to_string(),
        round_number: 1,
        teams: [home.to_string(), away.to_string()],
        time: at(seconds),
        result,
    }
}

fn games() -> Vec<GameResultSpec> {
    vec![
        game(1, "Ravens", "Wolves", GameOutcome::WinnerHome { score_home: 3, score_away: 1 }),
        game(2, "Wolves", "Otters", GameOutcome::Draw { score: 2 }),
    ]
}

fn standing(
    league_name: &str,
    team: &str,
    resolution: StandingResolution,
    numbers: (u32, u32, u32, u32),
    conditions: Option<Vec<Condition>>,
    version: u64,
) -> ObservedStanding {
    ObservedStanding {
        spec: StandingSpec {
            league_name: league_name.to_string(),
            team_name: team.to_string(),
            resolution,
        },
        status: StandingStatus {
            points: numbers.0,
            wins: numbers.1,
            losses: numbers.2,
            draws: numbers.3,
            conditions,
        },
        version,
    }
}

fn ready(since: i64) -> Option<Vec<Condition>> {
    Some(vec![Condition::new(
        ConditionKind::Ready,
        Tristate::True,
        "Reconciled",
        "Standing matches the recorded games",
        at(since),
        None,
    )])
}

fn numbers(status: &StandingStatus) -> (u32, u32, u32, u32) {
    (status.points, status.wins, status.losses, status.draws)
}

fn since(status: &StandingStatus) -> Option<Timestamp> {
    status.ready_from()
}

#[test]
fn a_league_without_standings_gets_one_per_team() {
    let l = league(&["Ravens", "Wolves", "Otters"]);
    let p = plan("premier", &l, &games(), &Vec::new(), at(50)).unwrap();
    assert!(p.removals.is_empty());
    let seen: Vec<(&str, (u32, u32, u32, u32), usize, Write)> = p
        .standings
        .iter()
        .map(|t| (t.team_name.as_str(), numbers(&t.status), t.rank, t.write))
        .collect();
    assert_eq!(
        seen,
        vec![
            ("Ravens", (3, 1, 0, 0), 1, Write::Create),
            ("Wolves", (1, 0, 1, 1), 3, Write::Create),
            ("Otters", (1, 0, 0, 1), 2, Write::Create),
        ]
    );
    for t in &p.standings {
        assert_eq!(t.resolution, StandingResolution::Head2Head);
        assert_eq!(since(&t.status), Some(at(50)));
        let conditions = t.status.conditions.as_ref().unwrap();
        assert_eq!(conditions.len(), 1);
        assert_eq!(conditions[0].type_, "Ready");
        assert_eq!(conditions[0].status, "True");
        assert_eq!(conditions[0].reason, "Reconciled");
        assert_eq!(conditions[0].message, "Standing matches the recorded games");
        assert_eq!(conditions[0].observed_generation, None);
    }
}

#[test]
fn only_standings_that_differ_are_written() {
    let l = league(&["Ravens", "Wolves", "Otters"]);
    let observed = vec![
        standing("premier", "Ravens", StandingResolution::GoalDifference, (3, 1, 0, 0), ready(10), 4),
        standing("premier", "Wolves", StandingResolution::Head2Head, (0, 0, 1, 0), ready(11), 5),
        standing("premier", "Otters", StandingResolution::Head2Head, (1, 0, 0, 1), None, 6),
    ];
    let p = plan("premier", &l, &games(), &observed, at(50)).unwrap();
    assert!(p.removals.is_empty());
    assert_eq!(p.standings[0].write, Write::Unchanged);
    assert_eq!(p.standings[0].resolution, StandingResolution::GoalDifference);
    assert_eq!(since(&p.standings[0].status), Some(at(10)));
    assert_eq!(p.standings[1].write, Write::Update { expected_version: 5 });
    assert_eq!(numbers(&p.standings[1].status), (1, 0, 1, 1));
    assert_eq!(since(&p.standings[1].status), Some(at(11)));
    assert_eq!(p.standings[2].write, Write::Update { expected_version: 6 });
    assert_eq!(since(&p.standings[2].status), Some(at(50)));
}

#[test]
fn each_standing_is_ranked_under_its_own_strategy() {
    let l = league(&["A", "B", "C", "D", "E"]);
    let win = |s: i64, w: &str, o: &str, g: u32| {
        game(s, w, o, GameOutcome::WinnerHome { score_home: g, score_away: 0 })
    };
    let played = vec![
        win(1, "A", "B", 1),
        win(2, "D", "A", 5),
        win(3, "B", "E", 5),
        win(4, "C", "E", 2),
        win(5, "D", "C", 1),
    ];
    let observed = vec![
        standing("premier", "A", StandingResolution::GoalDifference, (0, 0, 0, 0), None, 1),
        standing("premier", "B", StandingResolution::Head2Head, (0, 0, 0, 0), None, 1),
        standing("premier", "C", StandingResolution::GoalDifference, (0, 0, 0, 0), None, 1),
    ];
    let p = plan("premier", &l, &played, &observed, at(9)).unwrap();
    let ranks: Vec<(&str, usize)> =
        p.standings.iter().map(|t| (t.team_name.as_str(), t.rank)).collect();
    assert_eq!(ranks, vec![("A", 4), ("B", 3), ("C", 3), ("D", 1), ("E", 5)]);
}

#[test]
fn standings_of_teams_that_left_are_removed() {
    let l = league(&["Ravens", "Wolves"]);
    let observed = vec![
        standing("premier", "Otters", StandingResolution::Head2Head, (1, 0, 0, 1), ready(1), 8),
        standing("second", "Herons", StandingResolution::Head2Head, (0, 0, 0, 0), None, 9),
        standing("premier", "Ravens", StandingResolution::Head2Head, (3, 1, 0, 0), ready(1), 10),
        standing("premier", "Ravens", StandingResolution::Head2Head, (3, 1, 0, 0), ready(1), 11),
        standing("second", "Ravens", StandingResolution::Head2Head, (3, 1, 0, 0), ready(1), 12),
    ];
    let p = plan("premier", &l, &games(), &observed, at(50)).unwrap();
    let removed: Vec<(&str, u64)> =
        p.removals.iter().map(|r| (r.team_name.as_str(), r.expected_version)).collect();
    assert_eq!(removed, vec![("Otters", 8), ("Ravens", 11)]);
    assert_eq!(p.standings[0].write, Write::Unchanged);
    assert_eq!(p.standings[1].write, Write::Create);
    assert_eq!(numbers(&p.standings[1].status), (0, 0, 1, 0));
    assert_eq!(find_tracking(&observed, "premier", "Ravens"), Some(2));
    assert_eq!(find_tracking(&observed, "second", "Ravens"), Some(4));
    assert_eq!(find_tracking(&observed, "premier", "Herons"), None);
}

#[test]
fn errors_have_a_word_for_conditions() {
    assert_eq!(LeagueError::CapacityOutOfRange.reason(), "CapacityOutOfRange");
    assert_eq!(LeagueError::TooManyTeams.reason(), "TooManyTeams");
    assert_eq!(LeagueError::DuplicateTeam.reason(), "DuplicateTeam");
    assert_eq!(PlanError::League(LeagueError::TooManyTeams).reason(), "TooManyTeams");
    assert_eq!(PlanError::Overflow.reason(), "StatusOverflow");
    assert_eq!(the_league::model::GameError::SameTeam.reason(), "SameTeam");
    assert_eq!(
        the_league::model::GameError::ScoreContradictsWinner.reason(),
        "ScoreContradictsWinner"
    );
}

#[test]
fn an_invalid_league_has_no_plan() {
    let mut l = league(&["Ravens", "Wolves"]);
    l.max_teams = 1;
    assert_eq!(
        plan("premier", &l, &games(), &Vec::new(), at(1)).err(),
        Some(PlanError::League(LeagueError::CapacityOutOfRange))
    );
    let mut l = league(&["Ravens", "Wolves", "Otters"]);
    l.max_teams = 2;
    assert_eq!(
        plan("premier", &l, &games(), &Vec::new(), at(1)).err(),
        Some(PlanError::League(LeagueError::TooManyTeams))
    );
    let l = league(&["Ravens", "Ravens"]);
    assert_eq!(
        plan("premier", &l, &games(), &Vec::new(), at(1)).err(),
        Some(PlanError::League(LeagueError::DuplicateTeam))
    );
    assert_eq!(
        plan_standing("premier", &l, &games(), &Vec::new(), at(1), "Ravens").err(),
        Some(PlanError::League(LeagueError::DuplicateTeam))
    );
}

#[test]
fn the_plan_of_one_standing_is_its_entry_in_the_plan_of_the_league() {
    let l = league(&["Ravens", "Wolves", "Otters"]);
    let observed =
        vec![standing("premier", "Wolves", StandingResolution::GoalDifference, (0, 0, 0, 0), None, 3)];
    let whole = plan("premier", &l, &games(), &observed, at(50)).unwrap();
    let one = plan_standing("premier", &l, &games(), &observed, at(50), "Wolves").unwrap().unwrap();
    assert_eq!(one.team_name, "Wolves");
    assert_eq!(one.write, Write::Update { expected_version: 3 });
    assert_eq!(one.write, whole.standings[1].write);
    assert_eq!(one.rank, whole.standings[1].rank);
    assert_eq!(one.resolution, StandingResolution::GoalDifference);
    assert_eq!(numbers(&one.status), numbers(&whole.standings[1].status));
    assert!(plan_standing("premier", &l, &games(), &observed, at(50), "Herons").unwrap().is_none());
}

#[test]
fn numbers_too_large_for_a_status_are_refused() {
    let fits = TeamStats {
        points: u32::MAX as u128,
        wins: 7,
        losses: u32::MAX as u64,
        draws: 0,
        goals_for: u128::MAX,
        goals_against: 0,
    };
    let status = StandingStatus::from_stats(&fits, &None, at(3)).unwrap();
    assert_eq!(numbers(&status), (u32::MAX, 7, u32::MAX, 0));
    let mut too_many = fits;
    too_many.points = u32::MAX as u128 + 1;
    assert!(StandingStatus::from_stats(&too_many, &None, at(3)).is_none());
    let mut too_many = fits;
    too_many.wins = u32::MAX as u64 + 1;
    assert!(StandingStatus::from_stats(&too_many, &None, at(3)).is_none());
    let mut too_many = fits;
    too_many.losses = u64::MAX;
    assert!(StandingStatus::from_stats(&too_many, &None, at(3)).is_none());
    let mut too_many = fits;
    too_many.draws = 1 << 32;
    assert!(StandingStatus::from_stats(&too_many, &None, at(3)).is_none());
}

#[test]
fn a_status_agrees_only_if_numbers_match_and_it_is_ready() {
    let stats =
        TeamStats { points: 4, wins: 1, losses: 2, draws: 1, goals_for: 9, goals_against: 9 };
    let s = |n: (u32, u32, u32, u32), c| standing("x", "y", StandingResolution::Head2Head, n, c, 0);
    assert!(s((4, 1, 2, 1), ready(5)).status.agrees_with(&stats));
    assert!(!s((4, 1, 2, 1), None).status.agrees_with(&stats));
    assert!(!s((4, 1, 2, 1), Some(Vec::new())).status.agrees_with(&stats));
    assert!(!s((5, 1, 2, 1), ready(5)).status.agrees_with(&stats));
    assert!(!s((4, 2, 2, 1), ready(5)).status.agrees_with(&stats));
    assert!(!s((4, 1, 1, 1), ready(5)).status.agrees_with(&stats));
    assert!(!s((4, 1, 2, 0), ready(5)).status.agrees_with(&stats));
    let default = StandingStatus::default();
    assert_eq!(numbers(&default), (0, 0, 0, 0));
    assert!(default.conditions.is_none());
}

#[test]
fn the_first_holding_condition_gives_the_time() {
    let list = vec![
        Condition::new(ConditionKind::Processing, Tristate::True, "r", "m", at(1), Some(2)),
        Condition::new(ConditionKind::Ready, Tristate::False, "r", "m", at(2), None),
        Condition::new(ConditionKind::Ready, Tristate::Unknown, "r", "m", at(3), None),
        Condition::new(ConditionKind::Ready, Tristate::True, "r", "m", at(4), None),
        Condition::new(ConditionKind::Ready, Tristate::True, "r", "m", at(5), None),
    ];
    assert_eq!(find_held_since(&list, ConditionKind::Ready), Some(at(4)));
    assert_eq!(find_held_since(&list, ConditionKind::Processing), Some(at(1)));
    assert_eq!(find_held_since(&list, ConditionKind::Degraded), None);
    assert_eq!(find_held_since(&Vec::new(), ConditionKind::Ready), None);
    assert!(list[3].holds(ConditionKind::Ready));
    assert!(!list[3].holds(ConditionKind::Degraded));
    assert!(!list[1].holds(ConditionKind::Ready));
    assert_eq!(list[0].type_, "Processing");
    assert_eq!(list[0].observed_generation, Some(2));
    assert_eq!(list[1].status, "False");
    assert_eq!(list[2].status, "Unknown");
    let d = Condition::new(ConditionKind::Degraded, Tristate::True, "Gone", "msg", at(9), None);
    assert_eq!((d.type_.as_str(), d.reason.as_str(), d.message.as_str()), ("Degraded", "Gone", "msg"));
    assert_eq!(d.last_transition_time, at(9));
}

#[test]
fn league_statuses() {
    let s = TheLeagueStatus::default();
    assert!(!s.live && s.conditions.is_empty());
    let s = TheLeagueStatus::starting(at(7), Some(3));
    assert!(!s.live);
    assert_eq!(s.conditions.len(), 1);
    let c = &s.conditions[0];
    assert_eq!(
        (c.type_.as_str(), c.status.as_str(), c.reason.as_str(), c.message.as_str()),
        ("Processing", "Unknown", "Reconciling", "Starting reconciliation")
    );
    assert_eq!((c.last_transition_time, c.observed_generation), (at(7), Some(3)));
    assert!(TheLeagueStatus::opening(&Some(s), at(1), None).is_none());
    let opened = TheLeagueStatus::opening(&None, at(2), Some(4)).unwrap();
    assert_eq!(opened.conditions[0].type_, "Processing");
    assert_eq!(opened.conditions[0].last_transition_time, at(2));
    assert!(TheLeagueStatus::opening(&Some(TheLeagueStatus::default()), at(1), None).is_some());
    let s = TheLeagueStatus::settled(at(8), None);
    assert!(s.live);
    let c = &s.conditions[0];
    assert_eq!(
        (c.type_.as_str(), c.status.as_str(), c.reason.as_str(), c.message.as_str()),
        ("Ready", "True", "Reconciled", "Standings match the recorded games")
    );
    let s = TheLeagueStatus::degraded("RetriesExhausted", "gave up", at(9), Some(1));
    assert!(!s.live);
    let c = &s.conditions[0];
    assert_eq!(
        (c.type_.as_str(), c.status.as_str(), c.reason.as_str(), c.message.as_str()),
        ("Degraded", "True", "RetriesExhausted", "gave up")
    );
}

/// A store of standings that answers conditional writes.
struct Store {
    standings: Vec<ObservedStanding>,
    next_version: u64,
}

impl Store {
    fn write(&mut self, team: &str, resolution: StandingResolution, status: &StandingStatus, w: Write) -> StoreReply {
        let found = self.standings.iter().position(|o| o.spec.team_name == team);
        match (w, found) {
            (Write::Unchanged, _) => StoreReply::Written { version: 0 },
            (Write::Create, None) => {
                self.next_version += 1;
                self.standings.push(ObservedStanding {
                    spec: StandingSpec {
                        league_name: "premier".to_string(),
                        team_name: team.to_string(),
                        resolution,
                    },
                    status: status.clone(),
                    version: self.next_version,
                });
                StoreReply::Written { version: self.next_version }
            }
            (Write::Create, Some(_)) => StoreReply::VersionConflict,
            (Write::Update { .. }, None) => StoreReply::NotFound,
            (Write::Update { expected_version }, Some(i)) => {
                if self.standings[i].version != expected_version {
                    return StoreReply::VersionConflict;
                }
                self.next_version += 1;
                self.standings[i].status = status.clone();
                self.standings[i].version = self.next_version;
                StoreReply::Written { version: self.next_version }
            }
        }
    }

    fn touch(&mut self, team: &str) {
        let i = self.standings.iter().position(|o| o.spec.team_name == team).unwrap();
        self.next_version += 1;
        self.standings[i].spec.resolution = StandingResolution::GoalDifference;
        self.standings[i].version = self.next_version;
    }

    fn numbers(&self) -> Vec<(String, (u32, u32, u32, u32))> {
        let mut all: Vec<(String, (u32, u32, u32, u32))> = self
            .standings
            .iter()
            .map(|o| (o.spec.team_name.clone(), numbers(&o.status)))
            .collect();
        all.sort();
        all
    }
}

fn seeded_store() -> Store {
    Store {
        standings: vec![
            standing("premier", "Ravens", StandingResolution::Head2Head, (0, 0, 0, 0), None, 1),
            standing("premier", "Wolves", StandingResolution::Head2Head, (0, 0, 0, 0), None, 2),
        ],
        next_version: 2,
    }
}

/// Applies a plan; `disturb` names a team whose standing another writer
/// changes just before it is written.
fn apply(store: &mut Store, p: &Plan, disturb: Option<&str>) -> Option<Failure> {
    for t in &p.standings {
        if disturb == Some(t.team_name.as_str()) {
            store.touch(&t.team_name);
        }
        let reply = store.write(&t.team_name, t.resolution, &t.status, t.write);
        if let Some(f) = judge_reply(reply, &t.team_name) {
            return Some(f);
        }
    }
    None
}

#[test]
fn a_conflict_converges_on_the_same_standings() {
    let l = league(&["Ravens", "Wolves", "Otters"]);
    let played = games();

    let mut calm = seeded_store();
    let mut machine = Reconciler::new();
    assert_eq!(machine.reconcile(Event::Changed { version: 1 }), Action::Start);
    let p = plan("premier", &l, &played, &calm.standings.clone(), at(50)).unwrap();
    assert!(apply(&mut calm, &p, None).is_none());
    assert!(matches!(machine.reconcile(Event::Completed), Action::Settle { .. }));

    let mut contended = seeded_store();
    let mut machine = Reconciler::new();
    assert_eq!(machine.reconcile(Event::Changed { version: 1 }), Action::Start);
    let p = plan("premier", &l, &played, &contended.standings.clone(), at(50)).unwrap();
    let failure = apply(&mut contended, &p, Some("Wolves")).unwrap();
    assert!(matches!(&failure, Failure::Conflict { team } if team == "Wolves"));
    assert_ne!(contended.numbers(), calm.numbers());
    assert_eq!(machine.error_policy(&failure, 1234), Action::RetryAfter { millis: 0 });
    assert_eq!(machine.phase(), Phase::Retrying);
    assert_eq!(machine.reconcile(Event::RetryDue), Action::Start);
    let team = machine.scope().unwrap();
    assert_eq!(team, "Wolves");
    let one = plan_standing("premier", &l, &played, &contended.standings.clone(), at(60), &team)
        .unwrap()
        .unwrap();
    let reply = contended.write(&one.team_name, one.resolution, &one.status, one.write);
    assert!(judge_reply(reply, &team).is_none());
    assert_eq!(machine.reconcile(Event::Completed), Action::Settle { resync_after: 3_600_000 });
    assert_eq!(machine.reconcile(Event::ResyncDue), Action::Start);
    let p = plan("premier", &l, &played, &contended.standings.clone(), at(70)).unwrap();
    assert!(apply(&mut contended, &p, None).is_none());
    assert!(matches!(machine.reconcile(Event::Completed), Action::Settle { .. }));

    assert_eq!(contended.numbers(), calm.numbers());
    assert_eq!(
        calm.numbers(),
        vec![
            ("Otters".to_string(), (1, 0, 0, 1)),
            ("Ravens".to_string(), (3, 1, 0, 0)),
            ("Wolves".to_string(), (1, 0, 1, 1)),
        ]
    );
    let again = plan("premier", &l, &played, &contended.standings.clone(), at(80)).unwrap();
    assert!(again.standings.iter().all(|t| t.write == Write::Unchanged));
    assert!(again.removals.is_empty());
}
