//! What a run has to write: for each team of the league the status its
//! standing should have and whether that standing is to be created,
//! updated or left alone, and the standings that are to be deleted.

use crate::aggregate::{aggregate, aggregation, AggregationModel};
use crate::model::{
    game_models, league_verdict, GameModel, GameResultSpec, LeagueError, LeagueModel,
    StandingResolution, StandingSpec, StandingSpecModel, TheLeagueSpec, Timestamp,
};
use crate::ranking::{is_ranking, rank, rank_in, rank_of};
use crate::search::{first_where, lemma_first_found, lemma_first_missing};
use crate::status::{
    desired_status, fits_status, up_to_date, StandingStatus, StandingStatusModel,
};
use vstd::prelude::*;
use vstd::string::*;

verus! {

/// A standing as the store last showed it, with the version that a
/// conditional write has to name.
#[derive(Clone, Debug)]
pub struct ObservedStanding {
    pub spec: StandingSpec,
    pub status: StandingStatus,
    pub version: u64,
}

/// What an `ObservedStanding` holds.
pub struct ObservedModel {
    pub spec: StandingSpecModel,
    pub status: StandingStatusModel,
    pub version: u64,
}

impl View for ObservedStanding {
    type V = ObservedModel;

    open spec fn view(&self) -> ObservedModel {
        ObservedModel { spec: self.spec@, status: self.status@, version: self.version }
    }
}

/// The values of a list of observed standings.
pub open spec fn observed_models(list: Seq<ObservedStanding>) -> Seq<ObservedModel> {
    list.map_values(|o: ObservedStanding| o@)
}

/// What is to be done about the standing of a team of the league.
#[derive(Clone, Copy, Debug, PartialEq, Eq, Structural)]
pub enum Write {
    /// The team has no standing yet: create it.
    Create,
    /// The standing says something else: write, if it still has this
    /// version.
    Update { expected_version: u64 },
    /// The standing says it already: write nothing.
    Unchanged,
}

/// The plan for the standing of one team.
#[derive(Clone, Debug)]
pub struct TeamPlan {
    pub team_name: String,
    /// The strategy that the rank was computed under: that of the team's
    /// standing, or the engine's own where the team has none yet.
    pub resolution: StandingResolution,
    /// The team's rank under that strategy, counted from one.
    pub rank: usize,
    /// The status that the standing should have.
    pub status: StandingStatus,
    pub write: Write,
}

/// What a `TeamPlan` holds.
pub struct TeamPlanModel {
    pub team_name: Seq<char>,
    pub resolution: StandingResolution,
    pub rank: int,
    pub status: StandingStatusModel,
    pub write: Write,
}

impl View for TeamPlan {
    type V = TeamPlanModel;

    open spec fn view(&self) -> TeamPlanModel {
        TeamPlanModel {
            team_name: self.team_name@,
            resolution: self.resolution,
            rank: self.rank as int,
            status: self.status@,
            write: self.write,
        }
    }
}

/// A standing that is to be deleted, if it still has this version.
#[derive(Clone, Debug)]
pub struct Removal {
    pub team_name: String,
    pub expected_version: u64,
}

/// What a `Removal` holds.
pub struct RemovalModel {
    pub team_name: Seq<char>,
    pub expected_version: u64,
}

impl View for Removal {
    type V = RemovalModel;

    open spec fn view(&self) -> RemovalModel {
        RemovalModel { team_name: self.team_name@, expected_version: self.expected_version }
    }
}

/// The plan of a run.
#[derive(Clone, Debug)]
pub struct Plan {
    /// One entry per team, in the order of the league's team list.
    pub standings: Vec<TeamPlan>,
    /// The standings to delete, in the order in which they were observed.
    pub removals: Vec<Removal>,
}

/// What a `Plan` holds.
pub struct PlanModel {
    pub standings: Seq<TeamPlanModel>,
    pub removals: Seq<RemovalModel>,
}

impl View for Plan {
    type V = PlanModel;

    open spec fn view(&self) -> PlanModel {
        PlanModel {
            standings: self.standings@.map_values(|t: TeamPlan| t@),
            removals: self.removals@.map_values(|r: Removal| r@),
        }
    }
}

/// Why no plan can be made. Nothing is written then.
#[derive(Clone, Copy, Debug, PartialEq, Eq, Structural)]
pub enum PlanError {
    /// The league breaks one of its rules.
    League(LeagueError),
    /// A team has more points, wins, losses or draws than a status holds.
    Overflow,
}

impl PlanError {
    /// The word that names the error in a condition.
    pub open spec fn reason_text(self) -> Seq<char> {
        match self {
            PlanError::League(e) => e.reason_text(),
            PlanError::Overflow => "StatusOverflow"@,
        }
    }

    /// The word that names the error in a condition.
    pub fn reason(&self) -> (text: String)
        ensures
            text@ == self.reason_text(),
    {
        match self {
            PlanError::League(e) => e.reason(),
            PlanError::Overflow => String::from_str("StatusOverflow"),
        }
    }
}

/// The strategy under which a team without a standing is ranked, and with
/// which its standing is created.
pub open spec fn default_resolution() -> StandingResolution {
    StandingResolution::Head2Head
}

/// Whether an observed standing is that of `team` in the league called
/// `league_name`.
pub open spec fn tracking(league_name: Seq<char>, team: Seq<char>) -> spec_fn(ObservedModel) -> bool {
    |o: ObservedModel| o.spec.league_name == league_name && o.spec.team_name == team
}

/// The plan for the team at `i`. Its standing is the first observed one
/// that tracks it. The status it should have follows from the team's tally
/// alone; the observed standing decides only whether and how it is written.
pub open spec fn team_plan(
    league_name: Seq<char>,
    agg: AggregationModel,
    observed: Seq<ObservedModel>,
    now: Timestamp,
    i: int,
) -> TeamPlanModel {
    let team = agg.teams[i];
    match first_where(observed, tracking(league_name, team.name)) {
        Some(k) => TeamPlanModel {
            team_name: team.name,
            resolution: observed[k].spec.resolution,
            rank: rank_of(agg, observed[k].spec.resolution, i),
            status: desired_status(team.tally, observed[k].status.conditions, now),
            write: if up_to_date(observed[k].status, team.tally) {
                Write::Unchanged
            } else {
                Write::Update { expected_version: observed[k].version }
            },
        },
        None => TeamPlanModel {
            team_name: team.name,
            resolution: default_resolution(),
            rank: rank_of(agg, default_resolution(), i),
            status: desired_status(team.tally, None, now),
            write: Write::Create,
        },
    }
}

/// Whether the observed standing at `k` is to be deleted: it belongs to the
/// league and its team is no longer listed, or an earlier standing tracks
/// the same team already.
pub open spec fn obsolete(
    observed: Seq<ObservedModel>,
    league_name: Seq<char>,
    names: Seq<Seq<char>>,
    k: int,
) -> bool {
    let o = observed[k];
    &&& o.spec.league_name == league_name
    &&& (!names.contains(o.spec.team_name) || first_where(
        observed,
        tracking(league_name, o.spec.team_name),
    ) != Some(k))
}

/// The removals among the first `upto` observed standings.
pub open spec fn removals_upto(
    observed: Seq<ObservedModel>,
    league_name: Seq<char>,
    names: Seq<Seq<char>>,
    upto: int,
) -> Seq<RemovalModel>
    decreases upto,
{
    if upto <= 0 {
        Seq::empty()
    } else {
        let rest = removals_upto(observed, league_name, names, upto - 1);
        if obsolete(observed, league_name, names, upto - 1) {
            rest.push(
                RemovalModel {
                    team_name: observed[upto - 1].spec.team_name,
                    expected_version: observed[upto - 1].version,
                },
            )
        } else {
            rest
        }
    }
}

/// The plan of a run for the league called `league_name`.
pub open spec fn plan_model(
    league_name: Seq<char>,
    league: LeagueModel,
    games: Seq<GameModel>,
    observed: Seq<ObservedModel>,
    now: Timestamp,
) -> PlanModel {
    let agg = aggregation(league_name, league, games);
    PlanModel {
        standings: Seq::new(
            league.teams.len(),
            |i: int| team_plan(league_name, agg, observed, now, i),
        ),
        removals: removals_upto(observed, league_name, league.names(), observed.len() as int),
    }
}

/// Whether a plan can be made, and why not.
pub open spec fn plan_verdict(league_name: Seq<char>, league: LeagueModel, games: Seq<GameModel>) -> Result<
    (),
    PlanError,
> {
    match league_verdict(league) {
        Err(e) => Err(PlanError::League(e)),
        Ok(_) => {
            let agg = aggregation(league_name, league, games);
            if forall|i: int| 0 <= i < agg.teams.len() ==> fits_status((#[trigger] agg.teams[i]).tally) {
                Ok(())
            } else {
                Err(PlanError::Overflow)
            }
        },
    }
}

/// Position of the first observed standing that tracks `team` in the
/// league called `league_name`.
pub fn find_tracking(observed: &Vec<ObservedStanding>, league_name: &str, team: &str) -> (found:
    Option<usize>)
    ensures
        match found {
            Some(k) => first_where(observed_models(observed@), tracking(league_name@, team@))
                == Some(k as int) && k < observed.len(),
            None => first_where(
                observed_models(observed@),
                tracking(league_name@, team@),
            ).is_none(),
        },
{
    let ghost models = observed_models(observed@);
    let ghost p = tracking(league_name@, team@);
    let wanted_league = league_name.to_owned();
    let wanted_team = team.to_owned();
    let mut k: usize = 0;
    while k < observed.len()
        invariant
            k <= observed.len(),
            models == observed_models(observed@),
            p == tracking(league_name@, team@),
            wanted_league@ == league_name@,
            wanted_team@ == team@,
            forall|j: int| 0 <= j < k ==> !p(#[trigger] models[j]),
        decreases observed.len() - k,
    {
        if observed[k].spec.league_name == wanted_league && observed[k].spec.team_name
            == wanted_team {
            proof {
                lemma_first_found(models, p, k as int);
            }
            return Some(k);
        }
        k += 1;
    }
    proof {
        lemma_first_missing(models, p);
    }
    None
}

/// Plans a run: validates the league, aggregates its games, ranks its
/// teams, and compares what follows with the standings that were observed.
/// The statuses of the plan depend on the league and the games alone, so a
/// run that is repeated after a version conflict plans the same statuses.
pub fn plan(
    league_name: &str,
    league: &TheLeagueSpec,
    games: &Vec<GameResultSpec>,
    observed: &Vec<ObservedStanding>,
    now: Timestamp,
) -> (planned: Result<Plan, PlanError>)
    ensures
        match planned {
            Ok(p) => p@ == plan_model(
                league_name@,
                league@,
                game_models(games@),
                observed_models(observed@),
                now,
            ),
            Err(e) => plan_verdict(league_name@, league@, game_models(games@)) == Err::<
                (),
                PlanError,
            >(e),
        },
        planned is Ok <==> plan_verdict(league_name@, league@, game_models(games@)) is Ok,
{
    match league.validate() {
        Err(e) => {
            return Err(PlanError::League(e));
        },
        Ok(_) => {},
    }
    let agg = aggregate(league_name, league, games);
    let by_games = rank(&agg, StandingResolution::Head2Head);
    let by_goals = rank(&agg, StandingResolution::GoalDifference);
    let ghost seen = observed_models(observed@);
    let ghost goal = plan_model(league_name@, league@, game_models(games@), seen, now);
    let n = agg.len();
    let mut standings: Vec<TeamPlan> = Vec::new();
    let mut i: usize = 0;
    while i < n
        invariant
            i <= n,
            n == agg@.teams.len(),
            n == league.teams.len(),
            league@.wf(),
            agg@ == aggregation(league_name@, league@, game_models(games@)),
            is_ranking(agg@, StandingResolution::Head2Head, by_games@),
            is_ranking(agg@, StandingResolution::GoalDifference, by_goals@),
            seen == observed_models(observed@),
            goal == plan_model(league_name@, league@, game_models(games@), seen, now),
            standings.len() == i,
            forall|t: int| 0 <= t < i ==> (#[trigger] standings[t])@ == goal.standings[t],
            forall|t: int| 0 <= t < i ==> fits_status((#[trigger] agg@.teams[t]).tally),
        decreases n - i,
    {
        let record = agg.team(i);
        let found = find_tracking(observed, league_name, record.name.as_str());
        let (resolution, status, write) = match found {
            Some(k) => {
                let seen_standing = &observed[k];
                let status = match StandingStatus::from_stats(
                    &record.stats,
                    &seen_standing.status.conditions,
                    now,
                ) {
                    Some(s) => s,
                    None => {
                        return Err(PlanError::Overflow);
                    },
                };
                let write = if seen_standing.status.agrees_with(&record.stats) {
                    Write::Unchanged
                } else {
                    Write::Update { expected_version: seen_standing.version }
                };
                (seen_standing.spec.resolution, status, write)
            },
            None => {
                let status = match StandingStatus::from_stats(&record.stats, &None, now) {
                    Some(s) => s,
                    None => {
                        return Err(PlanError::Overflow);
                    },
                };
                (StandingResolution::Head2Head, status, Write::Create)
            },
        };
        let position = match resolution {
            StandingResolution::Head2Head => rank_in(&agg, resolution, &by_games, i),
            StandingResolution::GoalDifference => rank_in(&agg, resolution, &by_goals, i),
        };
        let entry = TeamPlan {
            team_name: record.name.clone(),
            resolution,
            rank: position,
            status,
            write,
        };
        assert(entry@ == goal.standings[i as int]);
        standings.push(entry);
        i += 1;
    }
    let mut removals: Vec<Removal> = Vec::new();
    let mut k: usize = 0;
    while k < observed.len()
        invariant
            k <= observed.len(),
            seen == observed_models(observed@),
            removals@.map_values(|r: Removal| r@) == removals_upto(
                seen,
                league_name@,
                league@.names(),
                k as int,
            ),
        decreases observed.len() - k,
    {
        let o = &observed[k];
        let same_league = o.spec.league_name == league_name.to_owned();
        let mut drop = false;
        if same_league {
            let listed = league.find_team(o.spec.team_name.as_str());
            let first = find_tracking(observed, league_name, o.spec.team_name.as_str());
            drop = listed.is_none() || first != Some(k);
        }
        assert(drop == obsolete(seen, league_name@, league@.names(), k as int));
        if drop {
            let removal = Removal {
                team_name: o.spec.team_name.clone(),
                expected_version: o.version,
            };
            proof {
                let before = removals@.map_values(|r: Removal| r@);
                assert(removals@.push(removal).map_values(|r: Removal| r@) == before.push(
                    removal@,
                ));
            }
            removals.push(removal);
        }
        k += 1;
    }
    let planned = Plan { standings, removals };
    assert(planned@.standings == goal.standings);
    Ok(planned)
}

/// Plans the standing of the one team called `team`, for the retry that
/// follows a version conflict on it: the entry that the plan of the whole
/// league holds for that team, or `None` where the league does not list it.
pub fn plan_standing(
    league_name: &str,
    league: &TheLeagueSpec,
    games: &Vec<GameResultSpec>,
    observed: &Vec<ObservedStanding>,
    now: Timestamp,
    team: &str,
) -> (planned: Result<Option<TeamPlan>, PlanError>)
    ensures
        match planned {
            Ok(Some(entry)) => exists|i: int|
                0 <= i < league@.teams.len() && league@.names()[i] == team@ && entry@ == plan_model(
                    league_name@,
                    league@,
                    game_models(games@),
                    observed_models(observed@),
                    now,
                ).standings[i],
            Ok(None) => !league@.names().contains(team@),
            Err(e) => plan_verdict(league_name@, league@, game_models(games@)) == Err::<
                (),
                PlanError,
            >(e),
        },
        planned is Ok <==> plan_verdict(league_name@, league@, game_models(games@)) is Ok,
{
    let mut whole = match plan(league_name, league, games, observed, now) {
        Ok(p) => p,
        Err(e) => {
            return Err(e);
        },
    };
    match league.find_team(team) {
        Some(i) => {
            assert(whole@.standings.len() == league@.teams.len());
            assert(whole.standings@.map_values(|t: TeamPlan| t@).len() == whole.standings.len());
            assert(whole@.standings[i as int] == whole.standings[i as int]@);
            let entry = whole.standings.remove(i);
            Ok(Some(entry))
        },
        None => Ok(None),
    }
}

/// Convergence: the numbers that a plan asks for follow from the league
/// and its games alone. Whatever was observed of the standings, and
/// whenever, the plan asks for the same points, wins, losses and draws; so
/// a run that is repeated after a version conflict arrives where a run
/// without one would have.
pub proof fn law_plan_converges(
    league_name: Seq<char>,
    league: LeagueModel,
    games: Seq<GameModel>,
    first: Seq<ObservedModel>,
    first_time: Timestamp,
    second: Seq<ObservedModel>,
    second_time: Timestamp,
    team: int,
)
    requires
        0 <= team < league.teams.len(),
    ensures
        ({
            let a = plan_model(league_name, league, games, first, first_time).standings[team];
            let b = plan_model(league_name, league, games, second, second_time).standings[team];
            &&& a.team_name == b.team_name
            &&& a.status.points == b.status.points
            &&& a.status.wins == b.status.wins
            &&& a.status.losses == b.status.losses
            &&& a.status.draws == b.status.draws
        }),
{
}

/// A standing that holds the status that a plan asked for is up to date:
/// the next plan leaves it alone, as long as the games stay the same.
pub proof fn law_written_standing_is_left_alone(
    league_name: Seq<char>,
    league: LeagueModel,
    games: Seq<GameModel>,
    earlier: Seq<ObservedModel>,
    earlier_time: Timestamp,
    observed: Seq<ObservedModel>,
    now: Timestamp,
    team: int,
)
    requires
        0 <= team < league.teams.len(),
        plan_verdict(league_name, league, games) is Ok,
        first_where(observed, tracking(league_name, league.teams[team].name)) matches Some(k)
            && observed[k].status == plan_model(
            league_name,
            league,
            games,
            earlier,
            earlier_time,
        ).standings[team].status,
    ensures
        plan_model(league_name, league, games, observed, now).standings[team].write
            == Write::Unchanged,
{
    let agg = aggregation(league_name, league, games);
    let tally = agg.teams[team].tally;
    assert(fits_status(tally));
    let written = plan_model(league_name, league, games, earlier, earlier_time).standings[team].status;
    let conditions = written.conditions->0;
    assert(conditions.len() == 1);
    assert(crate::condition::holding(crate::condition::ConditionKind::Ready)(conditions[0]));
    lemma_first_found(
        conditions,
        crate::condition::holding(crate::condition::ConditionKind::Ready),
        0,
    );
}

} // verus!
