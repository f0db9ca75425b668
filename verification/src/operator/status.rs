use vstd::prelude::*;
use crate::clock::clock_timestamp;
use crate::operator::meta::Timestamp;
use crate::text::str_equal;

verus! {

/// Status of a condition.
#[derive(Debug, Clone, Copy, PartialEq, Eq, Structural)]
pub enum ConditionStatus {
    /// Condition is true
    True,
    /// Condition is false
    False,
    /// Condition status is unknown
    Unknown,
}

impl ConditionStatus {
    /// The name of the status as it is displayed.
    pub open spec fn text(self) -> Seq<char> {
        match self {
            ConditionStatus::True => "True"@,
            ConditionStatus::False => "False"@,
            ConditionStatus::Unknown => "Unknown"@,
        }
    }

    /// The status as text: `True`, `False` or `Unknown`.
    pub fn to_string(&self) -> (r: String)
        ensures
            r@ == self.text(),
    {
        match self {
            ConditionStatus::True => String::from_str("True"),
            ConditionStatus::False => String::from_str("False"),
            ConditionStatus::Unknown => String::from_str("Unknown"),
        }
    }
}

/// A condition represents one aspect of the resource's state, following the
/// Kubernetes API conventions.
#[derive(Debug, Clone)]
pub struct Condition {
    /// Type of condition (e.g., "Ready", "Progressing", "Degraded")
    pub condition_type: String,
    /// Status of the condition
    pub status: ConditionStatus,
    /// One-word CamelCase reason for the condition's last transition
    pub reason: Option<String>,
    /// Human-readable message with details about the condition
    pub message: Option<String>,
    /// Last time the condition transitioned from one status to another
    pub last_transition_time: Option<Timestamp>,
    /// The generation that was last observed
    pub observed_generation: Option<i64>,
}

pub open spec fn opt_view(o: Option<String>) -> Option<Seq<char>> {
    match o {
        Some(s) => Some(s@),
        None => None,
    }
}

impl Condition {
    /// A field-for-field copy.
    pub fn duplicate(&self) -> (r: Self)
        ensures
            r == *self,
    {
        Condition {
            condition_type: self.condition_type.clone(),
            status: self.status,
            reason: match &self.reason {
                Some(s) => Some(s.clone()),
                None => None,
            },
            message: match &self.message {
                Some(s) => Some(s.clone()),
                None => None,
            },
            last_transition_time: self.last_transition_time,
            observed_generation: self.observed_generation,
        }
    }

    /// A new condition of the given type and status, stamped with `time`.
    pub fn new_at(condition_type: &str, status: ConditionStatus, time: Timestamp) -> (r: Self)
        ensures
            r.condition_type@ == condition_type@,
            r.status == status,
            r.reason is None,
            r.message is None,
            r.last_transition_time == Some(time),
            r.observed_generation is None,
    {
        Condition {
            condition_type: String::from_str(condition_type),
            status,
            reason: None,
            message: None,
            last_transition_time: Some(time),
            observed_generation: None,
        }
    }

    /// A new condition of the given type and status, stamped through `new_at`
    /// with the current time by the system clock. Where the clock cannot be
    /// read as a time since the Unix epoch the condition is left unstamped;
    /// whenever it is stamped, the stamp is a valid time at or after the epoch.
    pub fn new(condition_type: &str, status: ConditionStatus) -> (r: Self)
        ensures
            r.condition_type@ == condition_type@,
            r.status == status,
            r.reason is None,
            r.message is None,
            r.observed_generation is None,
            r.last_transition_time matches Some(t) ==> t.seconds >= 0 && t.nanos < 1_000_000_000,
    {
        match clock_timestamp() {
            Some(time) => Self::new_at(condition_type, status, time),
            None => Condition {
                condition_type: String::from_str(condition_type),
                status,
                reason: None,
                message: None,
                last_transition_time: None,
                observed_generation: None,
            },
        }
    }

    /// Set the reason for this condition.
    pub fn with_reason(self, reason: &str) -> (r: Self)
        ensures
            opt_view(r.reason) == Some(reason@),
            r.condition_type == self.condition_type,
            r.status == self.status,
            r.message == self.message,
            r.last_transition_time == self.last_transition_time,
            r.observed_generation == self.observed_generation,
    {
        let mut c = self;
        c.reason = Some(String::from_str(reason));
        c
    }

    /// Set the message for this condition.
    pub fn with_message(self, message: &str) -> (r: Self)
        ensures
            opt_view(r.message) == Some(message@),
            r.condition_type == self.condition_type,
            r.status == self.status,
            r.reason == self.reason,
            r.last_transition_time == self.last_transition_time,
            r.observed_generation == self.observed_generation,
    {
        let mut c = self;
        c.message = Some(String::from_str(message));
        c
    }

    /// Set the observed generation for this condition.
    pub fn with_observed_generation(self, generation: i64) -> (r: Self)
        ensures
            r.observed_generation == Some(generation),
            r.condition_type == self.condition_type,
            r.status == self.status,
            r.reason == self.reason,
            r.message == self.message,
            r.last_transition_time == self.last_transition_time,
    {
        let mut c = self;
        c.observed_generation = Some(generation);
        c
    }

    /// The shape of a condition built by `new`, then given a reason and a
    /// message: its transition time, where the clock gave one, is a valid time
    /// at or after the Unix epoch.
    pub open spec fn has_shape(
        self,
        condition_type: Seq<char>,
        status: ConditionStatus,
        reason: Seq<char>,
        message: Seq<char>,
    ) -> bool {
        &&& self.condition_type@ == condition_type
        &&& self.status == status
        &&& opt_view(self.reason) == Some(reason)
        &&& opt_view(self.message) == Some(message)
        &&& self.observed_generation is None
        &&& self.last_transition_time matches Some(t) ==> t.seconds >= 0 && t.nanos
            < 1_000_000_000
    }

    /// A "Ready" condition that is true.
    pub fn ready() -> (r: Self)
        ensures
            r.has_shape("Ready"@, ConditionStatus::True, "ReconcileSucceeded"@, "Resource is ready"@),
    {
        Self::new("Ready", ConditionStatus::True).with_reason("ReconcileSucceeded").with_message(
            "Resource is ready",
        )
    }

    /// A "Ready" condition that is false.
    pub fn not_ready(reason: &str, message: &str) -> (r: Self)
        ensures
            r.has_shape("Ready"@, ConditionStatus::False, reason@, message@),
    {
        Self::new("Ready", ConditionStatus::False).with_reason(reason).with_message(message)
    }

    /// A "Progressing" condition.
    pub fn progressing(message: &str) -> (r: Self)
        ensures
            r.has_shape("Progressing"@, ConditionStatus::True, "Reconciling"@, message@),
    {
        Self::new("Progressing", ConditionStatus::True).with_reason("Reconciling").with_message(
            message,
        )
    }

    /// A "Degraded" condition.
    pub fn degraded(reason: &str, message: &str) -> (r: Self)
        ensures
            r.has_shape("Degraded"@, ConditionStatus::True, reason@, message@),
    {
        Self::new("Degraded", ConditionStatus::True).with_reason(reason).with_message(message)
    }
}

/// The index of the first condition of type `t`, if any.
pub open spec fn find_condition(cs: Seq<Condition>, t: Seq<char>) -> Option<int>
    decreases cs.len(),
{
    if cs.len() == 0 {
        None
    } else if cs[0].condition_type@ == t {
        Some(0)
    } else {
        match find_condition(cs.drop_first(), t) {
            Some(i) => Some(i + 1),
            None => None,
        }
    }
}

/// The first condition of type `t`, if any.
pub open spec fn condition_of(cs: Seq<Condition>, t: Seq<char>) -> Option<Condition> {
    match find_condition(cs, t) {
        Some(i) => Some(cs[i]),
        None => None,
    }
}

/// Whether the first condition of type `t` exists and is `True`.
pub open spec fn condition_true(cs: Seq<Condition>, t: Seq<char>) -> bool {
    match condition_of(cs, t) {
        Some(c) => c.status == ConditionStatus::True,
        None => false,
    }
}

/// `c` as it replaces `existing`: it keeps the transition time of `existing`
/// when the status did not change.
pub open spec fn replacement(existing: Condition, c: Condition) -> Condition {
    if existing.status == c.status {
        Condition { last_transition_time: existing.last_transition_time, ..c }
    } else {
        c
    }
}

/// The conditions after `set_condition(c)`: the first condition of the same
/// type is replaced, or `c` is appended when there is none.
pub open spec fn set_condition_spec(cs: Seq<Condition>, c: Condition) -> Seq<Condition> {
    match find_condition(cs, c.condition_type@) {
        Some(i) => cs.update(i, replacement(cs[i], c)),
        None => cs.push(c),
    }
}

/// The conditions after `remove_condition(t)`: every condition of type `t` is gone.
pub open spec fn remove_condition_spec(cs: Seq<Condition>, t: Seq<char>) -> Seq<Condition> {
    cs.filter(type_is_not(t))
}

/// The predicate "the condition is not of type `t`".
pub open spec fn type_is_not(t: Seq<char>) -> spec_fn(Condition) -> bool {
    |c: Condition| c.condition_type@ != t
}

pub proof fn lemma_find_condition(cs: Seq<Condition>, t: Seq<char>)
    ensures
        match find_condition(cs, t) {
            Some(i) => 0 <= i < cs.len() && cs[i].condition_type@ == t && forall|k: int|
                0 <= k < i ==> #[trigger] cs[k].condition_type@ != t,
            None => forall|k: int| 0 <= k < cs.len() ==> #[trigger] cs[k].condition_type@ != t,
        },
    decreases cs.len(),
{
    if cs.len() > 0 && cs[0].condition_type@ != t {
        let rest = cs.drop_first();
        lemma_find_condition(rest, t);
        match find_condition(rest, t) {
            Some(i) => {
                assert forall|k: int| 0 <= k < i + 1 implies #[trigger] cs[k].condition_type@ != t by {
                    if k > 0 {
                        assert(cs[k] == rest[k - 1]);
                    }
                }
                assert(cs[i + 1] == rest[i]);
            },
            None => {
                assert forall|k: int| 0 <= k < cs.len() implies #[trigger] cs[k].condition_type@ != t by {
                    if k > 0 {
                        assert(cs[k] == rest[k - 1]);
                    }
                }
            },
        }
    }
}

/// `find_condition` is the unique index characterised by its first match.
pub proof fn lemma_find_condition_unique(cs: Seq<Condition>, t: Seq<char>, i: Option<int>)
    requires
        match i {
            Some(i) => 0 <= i < cs.len() && cs[i].condition_type@ == t && forall|k: int|
                0 <= k < i ==> #[trigger] cs[k].condition_type@ != t,
            None => forall|k: int| 0 <= k < cs.len() ==> #[trigger] cs[k].condition_type@ != t,
        },
    ensures
        find_condition(cs, t) == i,
{
    lemma_find_condition(cs, t);
    match (find_condition(cs, t), i) {
        (Some(a), Some(b)) => {
            if a < b {
                assert(cs[a].condition_type@ != t);
            } else if b < a {
                assert(cs[b].condition_type@ != t);
            }
        },
        (Some(a), None) => {
            assert(cs[a].condition_type@ != t);
        },
        (None, Some(b)) => {
            assert(cs[b].condition_type@ != t);
        },
        _ => {},
    }
}

/// Helper trait for managing conditions on a status object.
pub trait ConditionManager {
    /// The conditions held.
    spec fn conditions_spec(&self) -> Seq<Condition>;

    /// Get a reference to the conditions list.
    fn conditions(&self) -> (r: &[Condition])
        ensures
            r@ == self.conditions_spec(),
    ;

    /// Get a mutable reference to the conditions list.
    fn conditions_mut(&mut self) -> (r: &mut Vec<Condition>)
        ensures
            r@ == old(self).conditions_spec(),
            final(r)@ == final(self).conditions_spec(),
    ;

    /// Find a condition by type.
    fn get_condition(&self, condition_type: &str) -> (r: Option<&Condition>)
        ensures
            match find_condition(self.conditions_spec(), condition_type@) {
                Some(i) => r == Some(&self.conditions_spec()[i]),
                None => r is None,
            },
    {
        let cs = self.conditions();
        let mut i: usize = 0;
        while i < cs.len()
            invariant
                cs@ == self.conditions_spec(),
                i <= cs@.len(),
                forall|k: int| 0 <= k < i ==> #[trigger] cs@[k].condition_type@ != condition_type@,
            decreases cs@.len() - i,
        {
            if str_equal(cs[i].condition_type.as_str(), condition_type) {
                proof {
                    lemma_find_condition_unique(cs@, condition_type@, Some(i as int));
                }
                return Some(&cs[i]);
            }
            i = i + 1;
        }
        proof {
            lemma_find_condition_unique(cs@, condition_type@, None);
        }
        None
    }

    /// Check if a condition is true.
    fn is_condition_true(&self, condition_type: &str) -> (r: bool)
        ensures
            r == condition_true(self.conditions_spec(), condition_type@),
    {
        match self.get_condition(condition_type) {
            Some(c) => c.status == ConditionStatus::True,
            None => false,
        }
    }

    /// Set or update a condition.
    ///
    /// If a condition with the same type exists, it is replaced; its
    /// `lastTransitionTime` is kept when the status did not change.
    #[verifier::loop_isolation(false)]
    fn set_condition(&mut self, condition: Condition)
        ensures
            final(self).conditions_spec() == set_condition_spec(
                old(self).conditions_spec(),
                condition,
            ),
    {
        let ghost c0 = condition;
        let mut condition = condition;
        let conditions = self.conditions_mut();
        let ghost cs = conditions@;
        let mut i: usize = 0;
        while i < conditions.len()
            invariant
                conditions@ == cs,
                condition == c0,
                i <= cs.len(),
                forall|k: int| 0 <= k < i ==> #[trigger] cs[k].condition_type@ != condition.condition_type@,
            decreases cs.len() - i,
        {
            if conditions[i].condition_type == condition.condition_type {
                proof {
                    lemma_find_condition_unique(cs, condition.condition_type@, Some(i as int));
                }
                if conditions[i].status == condition.status {
                    condition.last_transition_time = conditions[i].last_transition_time;
                }
                conditions.set(i, condition);
                assert(conditions@ == set_condition_spec(cs, c0));
                return;
            }
            i = i + 1;
        }
        proof {
            lemma_find_condition_unique(cs, condition.condition_type@, None);
        }
        conditions.push(condition);
        assert(conditions@ == set_condition_spec(cs, c0));
    }

    /// Remove every condition of the given type.
    #[verifier::loop_isolation(false)]
    fn remove_condition(&mut self, condition_type: &str)
        ensures
            final(self).conditions_spec() == remove_condition_spec(
                old(self).conditions_spec(),
                condition_type@,
            ),
    {
        let conditions = self.conditions_mut();
        let ghost cs = conditions@;
        let mut kept: Vec<Condition> = Vec::new();
        let mut i: usize = 0;
        while i < conditions.len()
            invariant
                conditions@ == cs,
                i <= cs.len(),
                kept@ == remove_condition_spec(cs.subrange(0, i as int), condition_type@),
            decreases cs.len() - i,
        {
            proof {
                let pre = cs.subrange(0, i as int);
                assert(cs.subrange(0, i + 1) =~= pre.push(cs[i as int]));
                pre.lemma_filter_push(cs[i as int], type_is_not(condition_type@));
            }
            if !str_equal(conditions[i].condition_type.as_str(), condition_type) {
                kept.push(conditions[i].duplicate());
            }
            i = i + 1;
        }
        assert(cs.subrange(0, cs.len() as int) =~= cs);
        *conditions = kept;
    }

    /// Check if the resource is ready (has a `Ready` condition that is `True`).
    fn is_ready(&self) -> (r: bool)
        ensures
            r == condition_true(self.conditions_spec(), "Ready"@),
    {
        self.is_condition_true("Ready")
    }
}


/// Whether no two conditions share a type.
pub open spec fn unique_types(cs: Seq<Condition>) -> bool {
    forall|i: int, j: int|
        0 <= i < cs.len() && 0 <= j < cs.len() && i != j ==> #[trigger] cs[i].condition_type@
            != #[trigger] cs[j].condition_type@
}

/// Law: after `set_condition(c)`, looking up the type of `c` gives `c`, with
/// the transition time kept from the replaced condition when its status was
/// the same.
pub proof fn lemma_set_then_get(cs: Seq<Condition>, c: Condition)
    ensures
        condition_of(set_condition_spec(cs, c), c.condition_type@) == Some(
            match condition_of(cs, c.condition_type@) {
                Some(existing) => replacement(existing, c),
                None => c,
            },
        ),
        ({
            let got = condition_of(set_condition_spec(cs, c), c.condition_type@).unwrap();
            &&& got.status == c.status
            &&& got.reason == c.reason
            &&& got.message == c.message
            &&& got.observed_generation == c.observed_generation
        }),
{
    let t = c.condition_type@;
    lemma_find_condition(cs, t);
    let r = set_condition_spec(cs, c);
    match find_condition(cs, t) {
        Some(i) => {
            assert forall|k: int| 0 <= k < i implies #[trigger] r[k].condition_type@ != t by {
                assert(r[k] == cs[k]);
            }
            lemma_find_condition_unique(r, t, Some(i));
        },
        None => {
            assert forall|k: int| 0 <= k < cs.len() implies #[trigger] r[k].condition_type@ != t by {
                assert(r[k] == cs[k]);
            }
            lemma_find_condition_unique(r, t, Some(cs.len() as int));
        },
    }
}

/// Law: `set_condition(c)` leaves the lookup of every other type unchanged.
pub proof fn lemma_set_keeps_others(cs: Seq<Condition>, c: Condition, t: Seq<char>)
    requires
        t != c.condition_type@,
    ensures
        condition_of(set_condition_spec(cs, c), t) == condition_of(cs, t),
{
    let r = set_condition_spec(cs, c);
    lemma_find_condition(cs, t);
    lemma_find_condition(cs, c.condition_type@);
    match find_condition(cs, c.condition_type@) {
        Some(j) => {
            assert(r.len() == cs.len());
            assert forall|k: int| 0 <= k < r.len() implies (#[trigger] r[k]).condition_type@
                == cs[k].condition_type@ by {
                if k == j {
                    assert(r[k].condition_type == c.condition_type);
                }
            }
            match find_condition(cs, t) {
                Some(i) => {
                    assert(i != j);
                    assert forall|k: int| 0 <= k < i implies #[trigger] r[k].condition_type@ != t by {
                        assert(r[k].condition_type@ == cs[k].condition_type@);
                    }
                    assert(r[i].condition_type@ == cs[i].condition_type@);
                    lemma_find_condition_unique(r, t, Some(i));
                    assert(r[i] == cs[i]);
                },
                None => {
                    assert forall|k: int| 0 <= k < r.len() implies #[trigger] r[k].condition_type@ != t by {
                        assert(r[k].condition_type@ == cs[k].condition_type@);
                    }
                    lemma_find_condition_unique(r, t, None);
                },
            }
        },
        None => {
            match find_condition(cs, t) {
                Some(i) => {
                    assert forall|k: int| 0 <= k < i implies #[trigger] r[k].condition_type@ != t by {
                        assert(r[k] == cs[k]);
                    }
                    assert(r[i] == cs[i]);
                    lemma_find_condition_unique(r, t, Some(i));
                },
                None => {
                    assert forall|k: int| 0 <= k < r.len() implies #[trigger] r[k].condition_type@ != t by {
                        if k < cs.len() {
                            assert(r[k] == cs[k]);
                        }
                    }
                    lemma_find_condition_unique(r, t, None);
                },
            }
        },
    }
}

/// Law: setting the same condition twice is the same as setting it once.
pub proof fn lemma_set_idempotent(cs: Seq<Condition>, c: Condition)
    ensures
        set_condition_spec(set_condition_spec(cs, c), c) == set_condition_spec(cs, c),
{
    let t = c.condition_type@;
    let r = set_condition_spec(cs, c);
    lemma_find_condition(cs, t);
    lemma_set_then_get(cs, c);
    lemma_find_condition(r, t);
    match find_condition(cs, t) {
        Some(i) => {
            assert forall|k: int| 0 <= k < i implies #[trigger] r[k].condition_type@ != t by {
                assert(r[k] == cs[k]);
            }
            lemma_find_condition_unique(r, t, Some(i));
            assert(set_condition_spec(r, c) =~= r);
        },
        None => {
            assert forall|k: int| 0 <= k < cs.len() implies #[trigger] r[k].condition_type@ != t by {
                assert(r[k] == cs[k]);
            }
            lemma_find_condition_unique(r, t, Some(cs.len() as int));
            assert(set_condition_spec(r, c) =~= r);
        },
    }
}

/// Law: `set_condition` keeps the types of the conditions distinct.
pub proof fn lemma_set_keeps_types_unique(cs: Seq<Condition>, c: Condition)
    requires
        unique_types(cs),
    ensures
        unique_types(set_condition_spec(cs, c)),
{
    let t = c.condition_type@;
    let r = set_condition_spec(cs, c);
    lemma_find_condition(cs, t);
    match find_condition(cs, t) {
        Some(j) => {
            assert forall|k: int| 0 <= k < r.len() implies (#[trigger] r[k]).condition_type@
                == cs[k].condition_type@ by {
                if k == j {
                    assert(r[k].condition_type == c.condition_type);
                }
            }
            assert forall|a: int, b: int|
                0 <= a < r.len() && 0 <= b < r.len() && a != b implies #[trigger] r[a].condition_type@
                != #[trigger] r[b].condition_type@ by {
                assert(r[a].condition_type@ == cs[a].condition_type@);
                assert(r[b].condition_type@ == cs[b].condition_type@);
            }
        },
        None => {
            assert forall|a: int, b: int|
                0 <= a < r.len() && 0 <= b < r.len() && a != b implies #[trigger] r[a].condition_type@
                != #[trigger] r[b].condition_type@ by {
                if a < cs.len() && b < cs.len() {
                    assert(r[a] == cs[a] && r[b] == cs[b]);
                } else if a < cs.len() {
                    assert(r[a] == cs[a]);
                } else if b < cs.len() {
                    assert(r[b] == cs[b]);
                }
            }
        },
    }
}

/// Law: after `remove_condition(t)` no condition of type `t` is found, and the
/// lookup of every other type is unchanged.
pub proof fn lemma_remove_then_get(cs: Seq<Condition>, t: Seq<char>, other: Seq<char>)
    requires
        other != t,
    ensures
        condition_of(remove_condition_spec(cs, t), t) is None,
        condition_of(remove_condition_spec(cs, t), other) == condition_of(cs, other),
    decreases cs.len(),
{
    let p = type_is_not(t);
    let r = remove_condition_spec(cs, t);
    if cs.len() == 0 {
        assert(r =~= Seq::<Condition>::empty());
    } else {
        let init = cs.drop_last();
        lemma_remove_then_get(init, t, other);
        assert(cs =~= init.push(cs.last()));
        init.lemma_filter_push(cs.last(), p);
        let ri = remove_condition_spec(init, t);
        lemma_find_condition(ri, t);
        lemma_find_condition(ri, other);
        lemma_find_condition(init, other);
        lemma_find_condition(cs, other);
        if cs.last().condition_type@ != t {
            assert(r == ri.push(cs.last()));
            assert forall|k: int| 0 <= k < r.len() implies #[trigger] r[k].condition_type@ != t by {
                if k < ri.len() {
                    assert(r[k] == ri[k]);
                }
            }
            lemma_find_condition_unique(r, t, None);
            match find_condition(ri, other) {
                Some(i) => {
                    assert forall|k: int| 0 <= k < i implies #[trigger] r[k].condition_type@ != other by {
                        assert(r[k] == ri[k]);
                    }
                    assert(r[i] == ri[i]);
                    lemma_find_condition_unique(r, other, Some(i));
                    // the lookup in `init` found the same condition
                    let j = find_condition(init, other).unwrap();
                    assert forall|k: int| 0 <= k < j implies #[trigger] cs[k].condition_type@ != other by {
                        assert(cs[k] == init[k]);
                    }
                    assert(cs[j] == init[j]);
                    lemma_find_condition_unique(cs, other, Some(j));
                },
                None => {
                    assert(find_condition(init, other) is None);
                    assert forall|k: int| 0 <= k < init.len() implies #[trigger] cs[k].condition_type@ != other by {
                        assert(cs[k] == init[k]);
                    }
                    if cs.last().condition_type@ == other {
                        assert forall|k: int| 0 <= k < ri.len() implies #[trigger] r[k].condition_type@ != other by {
                            assert(r[k] == ri[k]);
                        }
                        lemma_find_condition_unique(r, other, Some(ri.len() as int));
                        lemma_find_condition_unique(cs, other, Some(init.len() as int));
                    } else {
                        assert forall|k: int| 0 <= k < r.len() implies #[trigger] r[k].condition_type@ != other by {
                            if k < ri.len() {
                                assert(r[k] == ri[k]);
                            }
                        }
                        lemma_find_condition_unique(r, other, None);
                        lemma_find_condition_unique(cs, other, None);
                    }
                },
            }
        } else {
            assert(r == ri);
            match find_condition(init, other) {
                Some(j) => {
                    assert forall|k: int| 0 <= k < j implies #[trigger] cs[k].condition_type@ != other by {
                        assert(cs[k] == init[k]);
                    }
                    assert(cs[j] == init[j]);
                    lemma_find_condition_unique(cs, other, Some(j));
                },
                None => {
                    assert forall|k: int| 0 <= k < cs.len() implies #[trigger] cs[k].condition_type@ != other by {
                        if k < init.len() {
                            assert(cs[k] == init[k]);
                        }
                    }
                    lemma_find_condition_unique(cs, other, None);
                },
            }
        }
    }
}

} // verus!
