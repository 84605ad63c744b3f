//! The statuses that the engine writes: the numbers of a standing and the
//! liveness of a league, each with its conditions.

use crate::aggregate::{Tally, TeamStats};
use crate::condition::{
    condition_model, condition_models, find_held_since, held_since, Condition, ConditionKind,
    ConditionModel, Tristate,
};
use crate::model::Timestamp;
use vstd::prelude::*;

verus! {

/// The computed state of a standing. Only the engine writes it.
#[derive(Clone, Debug)]
pub struct StandingStatus {
    pub points: u32,
    pub wins: u32,
    pub losses: u32,
    pub draws: u32,
    pub conditions: Option<Vec<Condition>>,
}

/// What a `StandingStatus` holds.
pub struct StandingStatusModel {
    pub points: u32,
    pub wins: u32,
    pub losses: u32,
    pub draws: u32,
    pub conditions: Option<Seq<ConditionModel>>,
}

impl View for StandingStatus {
    type V = StandingStatusModel;

    open spec fn view(&self) -> StandingStatusModel {
        StandingStatusModel {
            points: self.points,
            wins: self.wins,
            losses: self.losses,
            draws: self.draws,
            conditions: match self.conditions {
                Some(list) => Some(condition_models(list@)),
                None => None,
            },
        }
    }
}

impl Default for StandingStatus {
    /// The status of a standing that nothing was computed for yet.
    fn default() -> (status: StandingStatus)
        ensures
            status@ == (StandingStatusModel {
                points: 0,
                wins: 0,
                losses: 0,
                draws: 0,
                conditions: None,
            }),
    {
        StandingStatus { points: 0, wins: 0, losses: 0, draws: 0, conditions: None }
    }
}

/// The reason and the message of the condition of a standing that agrees
/// with the recorded games.
pub open spec fn reconciled_reason() -> Seq<char> {
    "Reconciled"@
}

pub open spec fn reconciled_message() -> Seq<char> {
    "Standing matches the recorded games"@
}

/// Whether the four numbers of a tally fit a status.
pub open spec fn fits_status(t: Tally) -> bool {
    &&& t.points <= u32::MAX
    &&& t.wins <= u32::MAX
    &&& t.losses <= u32::MAX
    &&& t.draws <= u32::MAX
}

/// Since when a status has been ready, if it is.
pub open spec fn ready_since(conditions: Option<Seq<ConditionModel>>) -> Option<Timestamp> {
    match conditions {
        Some(list) => held_since(list, ConditionKind::Ready),
        None => None,
    }
}

/// Whether an observed status already says what the tally `t` asks for:
/// the same four numbers, and ready.
pub open spec fn up_to_date(observed: StandingStatusModel, t: Tally) -> bool {
    &&& observed.points == t.points
    &&& observed.wins == t.wins
    &&& observed.losses == t.losses
    &&& observed.draws == t.draws
    &&& ready_since(observed.conditions) is Some
}

/// The status that the tally `t` asks for: its four numbers and the one
/// condition `Ready`. The condition keeps its time where the status that
/// was observed before was ready already, and is dated `now` where not.
pub open spec fn desired_status(
    t: Tally,
    observed: Option<Seq<ConditionModel>>,
    now: Timestamp,
) -> StandingStatusModel {
    let since = match ready_since(observed) {
        Some(earlier) => earlier,
        None => now,
    };
    StandingStatusModel {
        points: t.points as u32,
        wins: t.wins as u32,
        losses: t.losses as u32,
        draws: t.draws as u32,
        conditions: Some(
            seq![
                condition_model(
                    ConditionKind::Ready,
                    Tristate::True,
                    reconciled_reason(),
                    reconciled_message(),
                    since,
                    None,
                ),
            ],
        ),
    }
}

impl StandingStatus {
    /// Since when the status has been ready, if it is.
    pub fn ready_from(&self) -> (since: Option<Timestamp>)
        ensures
            since == ready_since(self@.conditions),
    {
        match &self.conditions {
            Some(list) => find_held_since(list, ConditionKind::Ready),
            None => None,
        }
    }

    /// Whether this status already says what `stats` asks for.
    pub fn agrees_with(&self, stats: &TeamStats) -> (same: bool)
        ensures
            same == up_to_date(self@, stats@),
    {
        self.points as u128 == stats.points && self.wins as u64 == stats.wins && self.losses as u64
            == stats.losses && self.draws as u64 == stats.draws && self.ready_from().is_some()
    }

    /// The status that `stats` asks for, or `None` where one of its four
    /// numbers is too large for a status. `observed` holds the conditions
    /// that were last seen on the standing.
    pub fn from_stats(stats: &TeamStats, observed: &Option<Vec<Condition>>, now: Timestamp) -> (status:
        Option<StandingStatus>)
        ensures
            fits_status(stats@) <==> status is Some,
            status matches Some(s) ==> s@ == desired_status(
                stats@,
                match *observed {
                    Some(list) => Some(condition_models(list@)),
                    None => None,
                },
                now,
            ),
    {
        if stats.points > u32::MAX as u128 || stats.wins > u32::MAX as u64 || stats.losses
            > u32::MAX as u64 || stats.draws > u32::MAX as u64 {
            return None;
        }
        let earlier = match observed {
            Some(list) => find_held_since(list, ConditionKind::Ready),
            None => None,
        };
        let since = match earlier {
            Some(t) => t,
            None => now,
        };
        let ready = Condition::new(
            ConditionKind::Ready,
            Tristate::True,
            "Reconciled",
            "Standing matches the recorded games",
            since,
            None,
        );
        let mut conditions: Vec<Condition> = Vec::new();
        conditions.push(ready);
        let status = StandingStatus {
            points: stats.points as u32,
            wins: stats.wins as u32,
            losses: stats.losses as u32,
            draws: stats.draws as u32,
            conditions: Some(conditions),
        };
        proof {
            assert(status@.conditions->0 =~= seq![ready@]);
        }
        Some(status)
    }
}

/// The observed state of a league.
#[derive(Clone, Debug)]
pub struct TheLeagueStatus {
    /// Whether the league is configured and its standings are kept.
    pub live: bool,
    pub conditions: Vec<Condition>,
}

/// What a `TheLeagueStatus` holds.
pub struct LeagueStatusModel {
    pub live: bool,
    pub conditions: Seq<ConditionModel>,
}

impl View for TheLeagueStatus {
    type V = LeagueStatusModel;

    open spec fn view(&self) -> LeagueStatusModel {
        LeagueStatusModel { live: self.live, conditions: condition_models(self.conditions@) }
    }
}

impl Default for TheLeagueStatus {
    /// The status of a league that was never reconciled.
    fn default() -> (status: TheLeagueStatus)
        ensures
            status@ == (LeagueStatusModel { live: false, conditions: Seq::empty() }),
    {
        let status = TheLeagueStatus { live: false, conditions: Vec::new() };
        assert(status@.conditions =~= Seq::empty());
        status
    }
}

impl TheLeagueStatus {
    /// A status with the one condition of kind `kind`.
    pub fn with_condition(
        live: bool,
        kind: ConditionKind,
        value: Tristate,
        reason: &str,
        message: &str,
        now: Timestamp,
        generation: Option<i64>,
    ) -> (status: TheLeagueStatus)
        ensures
            status@ == (LeagueStatusModel {
                live,
                conditions: seq![condition_model(kind, value, reason@, message@, now, generation)],
            }),
    {
        let c = Condition::new(kind, value, reason, message, now, generation);
        let mut conditions: Vec<Condition> = Vec::new();
        conditions.push(c);
        let status = TheLeagueStatus { live, conditions };
        assert(status@.conditions =~= seq![c@]);
        status
    }

    /// The status at the start of a reconciliation: not live, and whether
    /// it will be is not known yet.
    pub fn starting(now: Timestamp, generation: Option<i64>) -> (status: TheLeagueStatus)
        ensures
            status@ == (LeagueStatusModel {
                live: false,
                conditions: seq![
                    condition_model(
                        ConditionKind::Processing,
                        Tristate::Unknown,
                        "Reconciling"@,
                        "Starting reconciliation"@,
                        now,
                        generation,
                    ),
                ],
            }),
    {
        TheLeagueStatus::with_condition(
            false,
            ConditionKind::Processing,
            Tristate::Unknown,
            "Reconciling",
            "Starting reconciliation",
            now,
            generation,
        )
    }

    /// The status to write when a run begins: the starting status for a
    /// league whose status shows no condition yet, and nothing for a
    /// league that has been through a run before.
    pub fn opening(current: &Option<TheLeagueStatus>, now: Timestamp, generation: Option<i64>) -> (status:
        Option<TheLeagueStatus>)
        ensures
            status is Some <==> (match *current {
                Some(seen) => seen@.conditions.len() == 0,
                None => true,
            }),
            status matches Some(s) ==> s@ == (LeagueStatusModel {
                live: false,
                conditions: seq![
                    condition_model(
                        ConditionKind::Processing,
                        Tristate::Unknown,
                        "Reconciling"@,
                        "Starting reconciliation"@,
                        now,
                        generation,
                    ),
                ],
            }),
    {
        let marked = match current {
            Some(seen) => seen.conditions.len() > 0,
            None => false,
        };
        if marked {
            None
        } else {
            Some(TheLeagueStatus::starting(now, generation))
        }
    }

    /// The status after a reconciliation that wrote all it had to write.
    pub fn settled(now: Timestamp, generation: Option<i64>) -> (status: TheLeagueStatus)
        ensures
            status@ == (LeagueStatusModel {
                live: true,
                conditions: seq![
                    condition_model(
                        ConditionKind::Ready,
                        Tristate::True,
                        "Reconciled"@,
                        "Standings match the recorded games"@,
                        now,
                        generation,
                    ),
                ],
            }),
    {
        TheLeagueStatus::with_condition(
            true,
            ConditionKind::Ready,
            Tristate::True,
            "Reconciled",
            "Standings match the recorded games",
            now,
            generation,
        )
    }

    /// The status of a league whose reconciliation gave up after its last
    /// retry, or whose content cannot be reconciled; `reason` and
    /// `message` say which.
    pub fn degraded(reason: &str, message: &str, now: Timestamp, generation: Option<i64>) -> (status:
        TheLeagueStatus)
        ensures
            status@ == (LeagueStatusModel {
                live: false,
                conditions: seq![
                    condition_model(
                        ConditionKind::Degraded,
                        Tristate::True,
                        reason@,
                        message@,
                        now,
                        generation,
                    ),
                ],
            }),
    {
        TheLeagueStatus::with_condition(
            false,
            ConditionKind::Degraded,
            Tristate::True,
            reason,
            message,
            now,
            generation,
        )
    }
}

} // verus!
