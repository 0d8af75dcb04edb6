use vstd::prelude::*;
use crate::condition::{Condition, ConditionValue};

verus! {

/// Whether one condition holds against the set of values that are true.
pub open spec fn satisfied(active: Set<ConditionValue>, c: Condition) -> bool {
    active.contains(c.value) == !c.not
}

/// Whether every condition of a list holds against the set of values that
/// are true.
pub open spec fn all_satisfied(active: Set<ConditionValue>, conditions: Seq<Condition>) -> bool {
    forall|i: int| 0 <= i < conditions.len() ==> satisfied(active, #[trigger] conditions[i])
}

/// Whether `v` is among `active`.
pub fn contains_value(active: &[ConditionValue], v: ConditionValue) -> (r: bool)
    ensures
        r == active@.contains(v),
{
    let mut i: usize = 0;
    while i < active.len()
        invariant
            i <= active@.len(),
            forall|j: int| 0 <= j < i ==> active@[j] != v,
        decreases active.len() - i,
    {
        if active[i] == v {
            return true;
        }
        i += 1;
    }
    false
}

/// Whether an item with the given conditions is active while the values in
/// `active` are true.
pub fn is_active(active: &[ConditionValue], conditions: &[Condition]) -> (r: bool)
    ensures
        r == all_satisfied(active@.to_set(), conditions@),
{
    let mut i: usize = 0;
    while i < conditions.len()
        invariant
            i <= conditions@.len(),
            forall|j: int| 0 <= j < i ==> satisfied(active@.to_set(), #[trigger] conditions@[j]),
        decreases conditions.len() - i,
    {
        let c = conditions[i];
        let found = contains_value(active, c.value);
        if found != !c.not {
            assert(!satisfied(active@.to_set(), conditions@[i as int]));
            return false;
        }
        i += 1;
    }
    true
}

/// A list without negations holds exactly when every value it names is true.
pub proof fn lemma_plain_conditions(active: Set<ConditionValue>, conditions: Seq<Condition>)
    requires
        forall|i: int| 0 <= i < conditions.len() ==> !(#[trigger] conditions[i]).not,
    ensures
        all_satisfied(active, conditions) <==> forall|i: int|
            0 <= i < conditions.len() ==> active.contains((#[trigger] conditions[i]).value),
{
}

/// A list of negations only holds exactly when no value it names is true.
pub proof fn lemma_negated_conditions(active: Set<ConditionValue>, conditions: Seq<Condition>)
    requires
        forall|i: int| 0 <= i < conditions.len() ==> (#[trigger] conditions[i]).not,
    ensures
        all_satisfied(active, conditions) <==> forall|i: int|
            0 <= i < conditions.len() ==> !active.contains((#[trigger] conditions[i]).value),
{
}

/// An empty list of conditions holds whatever is true.
pub proof fn lemma_no_conditions(active: Set<ConditionValue>)
    ensures
        all_satisfied(active, Seq::<Condition>::empty()),
{
}

/// Lists that hold the same conditions, in any order and with any
/// repetitions, are satisfied alike.
pub proof fn lemma_order_independent(
    active: Set<ConditionValue>,
    a: Seq<Condition>,
    b: Seq<Condition>,
)
    requires
        a.to_set() == b.to_set(),
    ensures
        all_satisfied(active, a) == all_satisfied(active, b),
{
    if all_satisfied(active, a) {
        assert forall|i: int| 0 <= i < b.len() implies satisfied(active, #[trigger] b[i]) by {
            assert(b.to_set().contains(b[i]));
            assert(a.to_set().contains(b[i]));
        }
    }
    if all_satisfied(active, b) {
        assert forall|i: int| 0 <= i < a.len() implies satisfied(active, #[trigger] a[i]) by {
            assert(a.to_set().contains(a[i]));
            assert(b.to_set().contains(a[i]));
        }
    }
}

} // verus!
