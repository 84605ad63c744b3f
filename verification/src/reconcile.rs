//! The reconciliation loop of one league as a state machine: it takes what
//! happened and says what is to be done next. Whoever drives it performs
//! the action and reports back. Runs of one league never overlap: while a
//! run is in flight, further triggers are remembered, not started.

use crate::backoff::{backoff, backoff_delay, lemma_backoff_bounds, MAX_DELAY_MILLIS};
use crate::manifest::ResourceKind;
use crate::model::StandingResolution;
use vstd::prelude::*;
use vstd::string::*;

verus! {

/// The wait after a run that settled, until the next run that nothing else
/// asked for: one hour, in milliseconds.
pub const RESYNC_INTERVAL_MILLIS: u64 = 3_600_000;

/// The wait after the loop has given up on retries: a quarter of an hour.
pub const DEGRADED_INTERVAL_MILLIS: u64 = 900_000;

/// The wait after content was found invalid, until it is looked at again.
pub const INVALID_INTERVAL_MILLIS: u64 = 3_600_000;

/// How often a failed run is tried again before the league is marked as
/// degraded.
pub const MAX_RETRIES: u32 = 5;

/// How many of the retries after a version conflict follow at once; the
/// later ones wait.
pub const IMMEDIATE_RETRIES: u32 = 3;

/// Where the loop of a league stands.
#[derive(Clone, Copy, Debug, PartialEq, Eq, Structural)]
pub enum Phase {
    /// No run is in flight and none is waited for.
    Idle,
    /// A run is in flight.
    Reconciling,
    /// A run failed; the loop waits to try again.
    Retrying,
}

/// What the loop is told.
#[derive(Clone, Copy, Debug, PartialEq, Eq, Structural)]
pub enum Event {
    /// The league, one of its game results or the resolution of one of its
    /// standings was created, changed or deleted, as of `version`.
    Changed { version: u64 },
    /// The wait after a settled, degraded or invalid run is over.
    ResyncDue,
    /// The wait before a retry is over.
    RetryDue,
    /// The run in flight wrote all it had to write.
    Completed,
    /// The run in flight found that the league is gone.
    LeagueMissing,
}

/// What happened to an object.
#[derive(Clone, Copy, Debug, PartialEq, Eq, Structural)]
pub enum Operation {
    Create,
    Update,
    Delete,
}

/// A notification of the event source: an object of kind `kind` was
/// created, updated or deleted, as of `resource_version`. Notifications
/// may come twice and out of order.
#[derive(Clone, Copy, Debug)]
pub struct Notification {
    pub kind: ResourceKind,
    pub op: Operation,
    pub resource_version: u64,
    /// For a standing, the resolution it asked for before the operation;
    /// `None` where it did not exist.
    pub resolution_before: Option<StandingResolution>,
    /// For a standing, the resolution it asks for after the operation;
    /// `None` where it exists no more.
    pub resolution_after: Option<StandingResolution>,
}

/// Whether a notification calls for a run: any change of the league or of
/// one of its game results does, and of a standing only a change of the
/// resolution it asks for. What the engine itself writes to a standing's
/// status calls for none.
pub open spec fn calls_for_run(n: Notification) -> bool {
    match n.kind {
        ResourceKind::TheLeague => true,
        ResourceKind::GameResult => true,
        ResourceKind::Standing => n.resolution_before != n.resolution_after,
    }
}

/// The event that a notification amounts to, if it calls for a run.
pub open spec fn event_of(n: Notification) -> Option<Event> {
    if calls_for_run(n) {
        Some(Event::Changed { version: n.resource_version })
    } else {
        None
    }
}

/// Says what event, if any, a notification amounts to.
pub fn judge_notification(n: &Notification) -> (event: Option<Event>)
    ensures
        event == event_of(*n),
{
    let wanted = match n.kind {
        ResourceKind::TheLeague => true,
        ResourceKind::GameResult => true,
        ResourceKind::Standing => match (n.resolution_before, n.resolution_after) {
            (Some(before), Some(after)) => before != after,
            (None, None) => false,
            _ => true,
        },
    };
    if wanted {
        Some(Event::Changed { version: n.resource_version })
    } else {
        None
    }
}

/// Why a run failed.
#[derive(Clone, Debug)]
pub enum Failure {
    /// A conditional write of the standing of `team` met another version.
    Conflict { team: String },
    /// A read or a write failed or ran out of time.
    Transient,
    /// The league or a game result holds what cannot be reconciled.
    Invalid,
}

/// What a `Failure` holds.
pub enum FailureModel {
    Conflict { team: Seq<char> },
    Transient,
    Invalid,
}

impl View for Failure {
    type V = FailureModel;

    open spec fn view(&self) -> FailureModel {
        match self {
            Failure::Conflict { team } => FailureModel::Conflict { team: team@ },
            Failure::Transient => FailureModel::Transient,
            Failure::Invalid => FailureModel::Invalid,
        }
    }
}

/// What the store answered to a conditional write or delete.
#[derive(Clone, Copy, Debug, PartialEq, Eq, Structural)]
pub enum StoreReply {
    /// The write went through; the object has this version now.
    Written { version: u64 },
    /// The delete went through.
    Deleted,
    /// The object has another version than the one named.
    VersionConflict,
    /// The object to write is gone.
    NotFound,
    /// The store did not answer in time.
    TimedOut,
    /// The store could not be reached or failed.
    Unavailable,
}

/// The failure that a reply of the store amounts to, if any, where the
/// write was about the standing of `team`. An object that changed or went
/// away under the write is a conflict; a store that is late or fails is a
/// transient failure.
pub open spec fn failure_of(reply: StoreReply, team: Seq<char>) -> Option<FailureModel> {
    match reply {
        StoreReply::Written { .. } => None,
        StoreReply::Deleted => None,
        StoreReply::VersionConflict => Some(FailureModel::Conflict { team }),
        StoreReply::NotFound => Some(FailureModel::Conflict { team }),
        StoreReply::TimedOut => Some(FailureModel::Transient),
        StoreReply::Unavailable => Some(FailureModel::Transient),
    }
}

/// Says what failure, if any, a reply of the store amounts to.
pub fn judge_reply(reply: StoreReply, team: &str) -> (failure: Option<Failure>)
    ensures
        match failure {
            Some(f) => failure_of(reply, team@) == Some(f@),
            None => failure_of(reply, team@).is_none(),
        },
{
    match reply {
        StoreReply::Written { .. } => None,
        StoreReply::Deleted => None,
        StoreReply::VersionConflict => Some(Failure::Conflict { team: String::from_str(team) }),
        StoreReply::NotFound => Some(Failure::Conflict { team: String::from_str(team) }),
        StoreReply::TimedOut => Some(Failure::Transient),
        StoreReply::Unavailable => Some(Failure::Transient),
    }
}

/// What the driver of the loop is to do.
#[derive(Clone, Copy, Debug, PartialEq, Eq, Structural)]
pub enum Action {
    /// Nothing: the event was out of date, out of place, or is remembered
    /// for later.
    Nothing,
    /// Fetch the current state, plan and write: a run begins. What it
    /// covers is the loop's scope.
    Start,
    /// Wait that many milliseconds, then report `RetryDue`.
    RetryAfter { millis: u64 },
    /// The run settled. Report `ResyncDue` after that many milliseconds.
    Settle { resync_after: u64 },
    /// The league is gone: wait for the next change.
    AwaitChange,
    /// Retries are used up: mark the league as degraded and report
    /// `ResyncDue` after that many milliseconds.
    Degrade { requeue_after: u64 },
    /// Put the finding on the object concerned and report `ResyncDue`
    /// after that many milliseconds. No retry follows at short notice.
    ReportInvalid { requeue_after: u64 },
}

/// The state of the loop as a value.
pub struct LoopModel {
    pub phase: Phase,
    /// Retries used since the last run that settled.
    pub retries: nat,
    /// Whether a trigger arrived that no run has taken up yet.
    pub pending: bool,
    /// The newest version that a change came with.
    pub watermark: Option<u64>,
    /// The team whose standing alone the next run covers, or `None` for
    /// the whole league.
    pub scope: Option<Seq<char>>,
}

/// The state of a loop that has seen nothing yet.
pub open spec fn initial() -> LoopModel {
    LoopModel { phase: Phase::Idle, retries: 0, pending: false, watermark: None, scope: None }
}

/// Whether a change as of `version` is older than what was seen already.
pub open spec fn stale(watermark: Option<u64>, version: u64) -> bool {
    match watermark {
        Some(seen) => version < seen,
        None => false,
    }
}

/// A trigger: starts a run where none is in flight, and is remembered
/// where one is or where the loop waits for a retry.
pub open spec fn on_trigger(s: LoopModel) -> (LoopModel, Action) {
    match s.phase {
        Phase::Idle => (
            LoopModel { phase: Phase::Reconciling, pending: false, scope: None, ..s },
            Action::Start,
        ),
        Phase::Reconciling => (LoopModel { pending: true, ..s }, Action::Nothing),
        Phase::Retrying => (LoopModel { pending: true, scope: None, ..s }, Action::Nothing),
    }
}

/// The next state and the action for an event.
pub open spec fn on_event(s: LoopModel, e: Event) -> (LoopModel, Action) {
    match e {
        Event::Changed { version } => {
            if stale(s.watermark, version) {
                (s, Action::Nothing)
            } else {
                on_trigger(LoopModel { watermark: Some(version), ..s })
            }
        },
        Event::ResyncDue => on_trigger(s),
        Event::RetryDue => {
            if s.phase == Phase::Retrying {
                (LoopModel { phase: Phase::Reconciling, pending: false, ..s }, Action::Start)
            } else {
                (s, Action::Nothing)
            }
        },
        Event::Completed => {
            if s.phase != Phase::Reconciling {
                (s, Action::Nothing)
            } else if s.pending {
                (
                    LoopModel {
                        phase: Phase::Reconciling,
                        retries: 0,
                        pending: false,
                        scope: None,
                        ..s
                    },
                    Action::Start,
                )
            } else {
                (
                    LoopModel { phase: Phase::Idle, retries: 0, scope: None, ..s },
                    Action::Settle { resync_after: RESYNC_INTERVAL_MILLIS },
                )
            }
        },
        Event::LeagueMissing => {
            if s.phase != Phase::Reconciling {
                (s, Action::Nothing)
            } else {
                (
                    LoopModel { phase: Phase::Idle, retries: 0, pending: false, scope: None, ..s },
                    Action::AwaitChange,
                )
            }
        },
    }
}

/// The event that a wake-up amounts to. A driver that is woken for a
/// league without being told why, by a change as of `version` or by a
/// timer, reports the end of a wait where the loop waits for a retry, a
/// change where the version is newer than any seen, and the end of the
/// long wait otherwise.
pub open spec fn wake_event(s: LoopModel, version: Option<u64>) -> Event {
    if s.phase == Phase::Retrying {
        Event::RetryDue
    } else {
        match version {
            Some(v) => if s.watermark is Some && v <= s.watermark->0 {
                Event::ResyncDue
            } else {
                Event::Changed { version: v }
            },
            None => Event::ResyncDue,
        }
    }
}

/// The wait before retry number `attempt` after the failure `f`: none for
/// the first retries after a version conflict, the backoff for all others.
pub open spec fn retry_wait(f: FailureModel, attempt: nat, entropy: u64) -> nat {
    if f is Conflict && attempt <= IMMEDIATE_RETRIES {
        0
    } else if f is Conflict {
        backoff((attempt - IMMEDIATE_RETRIES) as nat, entropy as nat)
    } else {
        backoff(attempt, entropy as nat)
    }
}

/// What the retry after the failure `f` covers: after a version conflict
/// the standing of the team concerned, unless a trigger is pending; else
/// what the failed run covered, unless a trigger is pending.
pub open spec fn retry_scope(s: LoopModel, f: FailureModel) -> Option<Seq<char>> {
    if s.pending {
        None
    } else {
        match f {
            FailureModel::Conflict { team } => Some(team),
            _ => s.scope,
        }
    }
}

/// The next state and the action for the failure of the run in flight.
pub open spec fn on_failure(s: LoopModel, f: FailureModel, entropy: u64) -> (LoopModel, Action) {
    if s.phase != Phase::Reconciling {
        (s, Action::Nothing)
    } else if f is Invalid {
        (
            LoopModel { phase: Phase::Idle, retries: 0, pending: false, scope: None, ..s },
            Action::ReportInvalid { requeue_after: INVALID_INTERVAL_MILLIS },
        )
    } else if s.retries >= MAX_RETRIES {
        (
            LoopModel { phase: Phase::Idle, retries: 0, pending: false, scope: None, ..s },
            Action::Degrade { requeue_after: DEGRADED_INTERVAL_MILLIS },
        )
    } else {
        (
            LoopModel {
                phase: Phase::Retrying,
                retries: s.retries + 1,
                scope: retry_scope(s, f),
                ..s
            },
            Action::RetryAfter { millis: retry_wait(f, s.retries + 1, entropy) as u64 },
        )
    }
}

/// The loop of one league.
pub struct Reconciler {
    phase: Phase,
    retries: u32,
    pending: bool,
    watermark: Option<u64>,
    scope: Option<String>,
}

impl View for Reconciler {
    type V = LoopModel;

    closed spec fn view(&self) -> LoopModel {
        LoopModel {
            phase: self.phase,
            retries: self.retries as nat,
            pending: self.pending,
            watermark: self.watermark,
            scope: match self.scope {
                Some(team) => Some(team@),
                None => None,
            },
        }
    }
}

impl Reconciler {
    #[verifier::type_invariant]
    spec fn bounded(self) -> bool {
        self.retries <= MAX_RETRIES
    }

    /// A loop that has seen nothing yet.
    pub fn new() -> (machine: Reconciler)
        ensures
            machine@ == initial(),
    {
        Reconciler { phase: Phase::Idle, retries: 0, pending: false, watermark: None, scope: None }
    }

    /// Where the loop stands.
    pub fn phase(&self) -> (phase: Phase)
        ensures
            phase == self@.phase,
    {
        self.phase
    }

    /// Retries used since the last run that settled.
    pub fn retries(&self) -> (retries: u32)
        ensures
            retries == self@.retries,
            retries <= MAX_RETRIES,
    {
        proof {
            use_type_invariant(self);
        }
        self.retries
    }

    /// Whether a trigger waits for the run in flight to end.
    pub fn pending(&self) -> (pending: bool)
        ensures
            pending == self@.pending,
    {
        self.pending
    }

    /// The newest version that a change came with.
    pub fn watermark(&self) -> (watermark: Option<u64>)
        ensures
            watermark == self@.watermark,
    {
        self.watermark
    }

    /// The team whose standing alone the next run covers, or `None` for
    /// the whole league.
    pub fn scope(&self) -> (scope: Option<String>)
        ensures
            match scope {
                Some(team) => self@.scope == Some(team@),
                None => self@.scope.is_none(),
            },
    {
        match &self.scope {
            Some(team) => Some(team.clone()),
            None => None,
        }
    }

    /// Takes an event and says what is to be done.
    pub fn reconcile(&mut self, event: Event) -> (action: Action)
        ensures
            (final(self)@, action) == on_event(old(self)@, event),
    {
        proof {
            use_type_invariant(&*self);
        }
        let trigger = match event {
            Event::Changed { version } => {
                let old_news = match self.watermark {
                    Some(seen) => version < seen,
                    None => false,
                };
                if old_news {
                    return Action::Nothing;
                }
                self.watermark = Some(version);
                true
            },
            Event::ResyncDue => true,
            _ => false,
        };
        if trigger {
            match self.phase {
                Phase::Idle => {
                    self.phase = Phase::Reconciling;
                    self.pending = false;
                    self.scope = None;
                    Action::Start
                },
                Phase::Reconciling => {
                    self.pending = true;
                    Action::Nothing
                },
                Phase::Retrying => {
                    self.pending = true;
                    self.scope = None;
                    Action::Nothing
                },
            }
        } else {
            match event {
                Event::RetryDue => {
                    if self.phase == Phase::Retrying {
                        self.phase = Phase::Reconciling;
                        self.pending = false;
                        Action::Start
                    } else {
                        Action::Nothing
                    }
                },
                Event::Completed => {
                    if self.phase != Phase::Reconciling {
                        Action::Nothing
                    } else if self.pending {
                        self.retries = 0;
                        self.pending = false;
                        self.scope = None;
                        Action::Start
                    } else {
                        self.phase = Phase::Idle;
                        self.retries = 0;
                        self.scope = None;
                        Action::Settle { resync_after: RESYNC_INTERVAL_MILLIS }
                    }
                },
                _ => {
                    if self.phase != Phase::Reconciling {
                        Action::Nothing
                    } else {
                        self.phase = Phase::Idle;
                        self.retries = 0;
                        self.pending = false;
                        self.scope = None;
                        Action::AwaitChange
                    }
                },
            }
        }
    }

    /// Takes a wake-up of which the driver knows only the version of the
    /// league it was woken for, if any, and says what is to be done.
    pub fn wake(&mut self, version: Option<u64>) -> (action: Action)
        ensures
            (final(self)@, action) == on_event(old(self)@, wake_event(old(self)@, version)),
    {
        let event = if self.phase == Phase::Retrying {
            Event::RetryDue
        } else {
            match (version, self.watermark) {
                (Some(v), Some(seen)) => {
                    if v <= seen {
                        Event::ResyncDue
                    } else {
                        Event::Changed { version: v }
                    }
                },
                (Some(v), None) => Event::Changed { version: v },
                (None, _) => Event::ResyncDue,
            }
        };
        self.reconcile(event)
    }

    /// Takes the failure of the run in flight and says what is to be
    /// done. `entropy` is a number that the caller drew at random.
    pub fn error_policy(&mut self, failure: &Failure, entropy: u64) -> (action: Action)
        ensures
            (final(self)@, action) == on_failure(old(self)@, failure@, entropy),
    {
        proof {
            use_type_invariant(&*self);
        }
        if self.phase != Phase::Reconciling {
            return Action::Nothing;
        }
        match failure {
            Failure::Invalid => {
                self.phase = Phase::Idle;
                self.retries = 0;
                self.pending = false;
                self.scope = None;
                Action::ReportInvalid { requeue_after: INVALID_INTERVAL_MILLIS }
            },
            _ => {
                if self.retries >= MAX_RETRIES {
                    self.phase = Phase::Idle;
                    self.retries = 0;
                    self.pending = false;
                    self.scope = None;
                    return Action::Degrade { requeue_after: DEGRADED_INTERVAL_MILLIS };
                }
                let attempt = self.retries + 1;
                let millis = match failure {
                    Failure::Conflict { .. } => {
                        if attempt <= IMMEDIATE_RETRIES {
                            0
                        } else {
                            backoff_delay(attempt - IMMEDIATE_RETRIES, entropy)
                        }
                    },
                    _ => backoff_delay(attempt, entropy),
                };
                if self.pending {
                    self.scope = None;
                } else {
                    match failure {
                        Failure::Conflict { team } => {
                            self.scope = Some(team.clone());
                        },
                        _ => {},
                    }
                }
                self.phase = Phase::Retrying;
                self.retries = attempt;
                Action::RetryAfter { millis }
            },
        }
    }
}

/// One run at a time: a run starts only where none is in flight, or where
/// the run in flight has just ended; and after the event that starts it
/// the loop is in the phase of a run.
pub proof fn law_runs_never_overlap(s: LoopModel, e: Event)
    ensures
        on_event(s, e).1 == Action::Start ==> (s.phase != Phase::Reconciling || e == Event::Completed)
            && on_event(s, e).0.phase == Phase::Reconciling,
{
}

/// A failure never starts a run, and a trigger that arrives while a run is
/// in flight is remembered: the run that follows the end of that run takes
/// it up.
pub proof fn law_triggers_coalesce(s: LoopModel, version: u64, f: FailureModel, entropy: u64)
    requires
        s.phase == Phase::Reconciling,
        !stale(s.watermark, version),
    ensures
        on_failure(s, f, entropy).1 != Action::Start,
        on_event(s, Event::Changed { version }).1 == Action::Nothing,
        on_event(s, Event::Changed { version }).0.pending,
        on_event(s, Event::Changed { version }).0.phase == Phase::Reconciling,
        on_event(on_event(s, Event::Changed { version }).0, Event::Completed).1 == Action::Start,
{
}

/// A change that is older than one already seen changes nothing.
pub proof fn law_stale_changes_are_dropped(s: LoopModel, version: u64)
    requires
        stale(s.watermark, version),
    ensures
        on_event(s, Event::Changed { version }) == (s, Action::Nothing),
{
}

/// Retries are bounded: after as many failures in a row as there are
/// retries, the next failure ends the run with `Degrade`, and no wait for
/// a retry is longer than the longest backoff.
pub proof fn law_retries_are_bounded(s: LoopModel, f: FailureModel, entropy: u64)
    requires
        s.phase == Phase::Reconciling,
        !(f is Invalid),
    ensures
        s.retries >= MAX_RETRIES ==> on_failure(s, f, entropy).1 == (Action::Degrade {
            requeue_after: DEGRADED_INTERVAL_MILLIS,
        }),
        s.retries < MAX_RETRIES ==> on_failure(s, f, entropy).0.retries == s.retries + 1
            && on_failure(s, f, entropy).0.phase == Phase::Retrying,
        retry_wait(f, s.retries + 1, entropy) <= MAX_DELAY_MILLIS,
{
    lemma_backoff_bounds(s.retries + 1, entropy as nat);
    if s.retries + 1 > IMMEDIATE_RETRIES {
        lemma_backoff_bounds((s.retries + 1 - IMMEDIATE_RETRIES) as nat, entropy as nat);
    }
}

} // verus!
