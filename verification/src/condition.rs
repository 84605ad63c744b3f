//! Conditions: what a resource's status says of the health of its
//! reconciliation, and the statuses that carry them.

use crate::model::Timestamp;
use crate::search::{first_where, lemma_first_found, lemma_first_missing};
use vstd::prelude::*;
use vstd::string::*;

verus! {

/// One observation of a resource's state, in the shape of the cluster's
/// own condition records.
#[derive(Clone, Debug)]
pub struct Condition {
    /// What is observed: `Processing`, `Ready` or `Degraded`.
    pub type_: String,
    /// `True`, `False` or `Unknown`.
    pub status: String,
    /// A word for why the condition has its status.
    pub reason: String,
    /// The same for a human reader.
    pub message: String,
    /// When the status last changed.
    pub last_transition_time: Timestamp,
    /// The generation of the resource that was observed.
    pub observed_generation: Option<i64>,
}

/// What a `Condition` holds.
pub struct ConditionModel {
    pub type_: Seq<char>,
    pub status: Seq<char>,
    pub reason: Seq<char>,
    pub message: Seq<char>,
    pub last_transition_time: Timestamp,
    pub observed_generation: Option<i64>,
}

impl View for Condition {
    type V = ConditionModel;

    open spec fn view(&self) -> ConditionModel {
        ConditionModel {
            type_: self.type_@,
            status: self.status@,
            reason: self.reason@,
            message: self.message@,
            last_transition_time: self.last_transition_time,
            observed_generation: self.observed_generation,
        }
    }
}

/// The values of a list of conditions.
pub open spec fn condition_models(list: Seq<Condition>) -> Seq<ConditionModel> {
    list.map_values(|c: Condition| c@)
}

/// The kinds of condition that the engine sets.
#[derive(Clone, Copy, Debug, PartialEq, Eq, Structural)]
pub enum ConditionKind {
    /// A reconciliation has begun and has not ended.
    Processing,
    /// The status agrees with the recorded games.
    Ready,
    /// Reconciliation failed and waits for a later attempt or a fix.
    Degraded,
}

/// The three values of a condition's status.
#[derive(Clone, Copy, Debug, PartialEq, Eq, Structural)]
pub enum Tristate {
    True,
    False,
    Unknown,
}

/// The word for a kind of condition.
pub open spec fn kind_text(kind: ConditionKind) -> Seq<char> {
    match kind {
        ConditionKind::Processing => "Processing"@,
        ConditionKind::Ready => "Ready"@,
        ConditionKind::Degraded => "Degraded"@,
    }
}

/// The word for a status.
pub open spec fn tristate_text(value: Tristate) -> Seq<char> {
    match value {
        Tristate::True => "True"@,
        Tristate::False => "False"@,
        Tristate::Unknown => "Unknown"@,
    }
}

/// The condition of kind `kind` with the given status, reason and message,
/// observed at `now`.
pub open spec fn condition_model(
    kind: ConditionKind,
    value: Tristate,
    reason: Seq<char>,
    message: Seq<char>,
    now: Timestamp,
    generation: Option<i64>,
) -> ConditionModel {
    ConditionModel {
        type_: kind_text(kind),
        status: tristate_text(value),
        reason,
        message,
        last_transition_time: now,
        observed_generation: generation,
    }
}

impl Condition {
    /// Builds a condition.
    pub fn new(
        kind: ConditionKind,
        value: Tristate,
        reason: &str,
        message: &str,
        now: Timestamp,
        generation: Option<i64>,
    ) -> (c: Condition)
        ensures
            c@ == condition_model(kind, value, reason@, message@, now, generation),
    {
        let type_ = match kind {
            ConditionKind::Processing => String::from_str("Processing"),
            ConditionKind::Ready => String::from_str("Ready"),
            ConditionKind::Degraded => String::from_str("Degraded"),
        };
        let status = match value {
            Tristate::True => String::from_str("True"),
            Tristate::False => String::from_str("False"),
            Tristate::Unknown => String::from_str("Unknown"),
        };
        Condition {
            type_,
            status,
            reason: String::from_str(reason),
            message: String::from_str(message),
            last_transition_time: now,
            observed_generation: generation,
        }
    }

    /// Whether this is the condition of kind `kind` and holds.
    pub fn holds(&self, kind: ConditionKind) -> (yes: bool)
        ensures
            yes == (self@.type_ == kind_text(kind) && self@.status == tristate_text(Tristate::True)),
    {
        let wanted = match kind {
            ConditionKind::Processing => String::from_str("Processing"),
            ConditionKind::Ready => String::from_str("Ready"),
            ConditionKind::Degraded => String::from_str("Degraded"),
        };
        let truth = String::from_str("True");
        self.type_ == wanted && self.status == truth
    }
}

/// Whether a condition is of kind `kind` and holds.
pub open spec fn holding(kind: ConditionKind) -> spec_fn(ConditionModel) -> bool {
    |c: ConditionModel| c.type_ == kind_text(kind) && c.status == tristate_text(Tristate::True)
}

/// Since when the condition of kind `kind` has held, going by the first
/// entry of `list` that says so; `None` where none does.
pub open spec fn held_since(list: Seq<ConditionModel>, kind: ConditionKind) -> Option<Timestamp> {
    match first_where(list, holding(kind)) {
        Some(i) => Some(list[i].last_transition_time),
        None => None,
    }
}

/// Since when the condition of kind `kind` has held, if it holds.
pub fn find_held_since(list: &Vec<Condition>, kind: ConditionKind) -> (since: Option<Timestamp>)
    ensures
        since == held_since(condition_models(list@), kind),
{
    let ghost models = condition_models(list@);
    let mut i: usize = 0;
    while i < list.len()
        invariant
            i <= list.len(),
            models == condition_models(list@),
            forall|j: int| 0 <= j < i ==> !holding(kind)(#[trigger] models[j]),
        decreases list.len() - i,
    {
        if list[i].holds(kind) {
            proof {
                lemma_first_found(models, holding(kind), i as int);
            }
            return Some(list[i].last_transition_time);
        }
        i += 1;
    }
    proof {
        lemma_first_missing(models, holding(kind));
    }
    None
}

} // verus!
