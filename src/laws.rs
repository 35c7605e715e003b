//! Laws that relate the operations of the environment.

use crate::abstract_value::{
    joined, lemma_join_upper_bound, lemma_subset_reflexive, lemma_widen_upper_bound, subset_expr, AbstractValue,
    ExpressionDomain,
};
use crate::environment::{
    lemma_updated, map_subset, merged, split_of, store, update_terminates, update_within, updated, value_or_bottom, value_or_top,
    Combinator, Environment,
};
use crate::path::Path;
use vstd::prelude::*;

verus! {

/// Updating a path that is not ambiguous is a strong update: the path is
/// bound to the value afterwards, or unbound where the value is bottom, and
/// no other binding changes.
pub proof fn lemma_update_unambiguous(e: Environment, path: Path, value: AbstractValue)
    requires
        split_of(e@, path) is None,
    ensures
        update_terminates(e@, path, value),
        updated(e@, path, value) == store(e@, path, value),
        value.value is Bottom ==> !updated(e@, path, value).contains_key(path),
        !(value.value is Bottom) ==> updated(e@, path, value).contains_key(path) && updated(e@, path, value)[path]
            == value,
{
    assert(update_within(e@, path, value, 1) is Some);
    lemma_updated(e@, path, value, 1);
}

/// Updating a local variable that holds a conditional expression over two
/// different heap addresses weakly updates both addresses and then binds
/// the variable itself: the first address to the join of the value with its
/// old value, the second to the join of its old value with the value (a
/// missing old value counting as `TOP`), under the expression's condition.
pub proof fn lemma_update_splits_heap_addresses(
    e: Environment,
    path: Path,
    value: AbstractValue,
    condition: ExpressionDomain,
    addr1: usize,
    addr2: usize,
)
    requires
        e.wf(),
        path is LocalVariable,
        e@.contains_key(path),
        e@[path].value == (ExpressionDomain::ConditionalExpression {
            condition: Box::new(condition),
            consequent: Box::new(ExpressionDomain::AbstractHeapAddress(addr1)),
            alternate: Box::new(ExpressionDomain::AbstractHeapAddress(addr2)),
        }),
        addr1 != addr2,
    ensures
        ({
            let m = e@;
            let h1 = Path::AbstractHeapAddress { ordinal: addr1 };
            let h2 = Path::AbstractHeapAddress { ordinal: addr2 };
            let guard = AbstractValue { provenance: m[path].provenance, value: condition };
            let r = updated(m, path, value);
            &&& update_terminates(m, path, value)
            &&& r.contains_key(h1) && r[h1] == joined(value, value_or_top(m, h1), guard)
            &&& r.contains_key(h2) && r[h2] == joined(value_or_top(m, h2), value, guard)
            &&& value.value is Bottom ==> !r.contains_key(path)
            &&& !(value.value is Bottom) ==> r.contains_key(path) && r[path] == value
        }),
{
    let m = e@;
    let h1 = Path::AbstractHeapAddress { ordinal: addr1 };
    let h2 = Path::AbstractHeapAddress { ordinal: addr2 };
    let guard = AbstractValue { provenance: m[path].provenance, value: condition };
    let tv = joined(value, value_or_top(m, h1), guard);
    let fv = joined(value_or_top(m, h2), value, guard);
    assert(split_of(m, path) == Some((guard, h1, h2)));
    let m1 = store(m, h1, tv);
    assert(update_within(m, h1, tv, 1) == Some(m1));
    assert(update_within(m1, h2, fv, 1) == Some(store(m1, h2, fv)));
    assert(update_within(m, path, value, 2) is Some);
    lemma_updated(m, path, value, 2);
}

/// Joining an environment with itself gives back its bindings.
pub proof fn lemma_environment_join_idempotent(e: Environment, join_condition: AbstractValue)
    requires
        e.wf(),
    ensures
        merged(Combinator::Join, e@, e@, join_condition) == e@,
{
    assert(merged(Combinator::Join, e@, e@, join_condition) =~= e@);
}

/// A join of two environments is above both of them.
pub proof fn lemma_environment_join_upper_bound(a: Environment, b: Environment, join_condition: AbstractValue)
    ensures
        map_subset(a@, merged(Combinator::Join, a@, b@, join_condition)),
        map_subset(b@, merged(Combinator::Join, a@, b@, join_condition)),
{
    let m = merged(Combinator::Join, a@, b@, join_condition);
    assert forall|p: Path| #[trigger] a@.contains_key(p) implies m.contains_key(p) && subset_expr(
        a@[p].value,
        m[p].value,
    ) by {
        lemma_join_upper_bound(a@[p], value_or_bottom(b@, p), join_condition);
    }
    assert forall|p: Path| #[trigger] b@.contains_key(p) implies m.contains_key(p) && subset_expr(
        b@[p].value,
        m[p].value,
    ) by {
        lemma_join_upper_bound(value_or_bottom(a@, p), b@[p], join_condition);
    }
}

/// A widening of two environments is above both of them.
pub proof fn lemma_environment_widen_upper_bound(a: Environment, b: Environment, join_condition: AbstractValue)
    ensures
        map_subset(a@, merged(Combinator::Widen, a@, b@, join_condition)),
        map_subset(b@, merged(Combinator::Widen, a@, b@, join_condition)),
{
    let m = merged(Combinator::Widen, a@, b@, join_condition);
    assert forall|p: Path| #[trigger] a@.contains_key(p) implies m.contains_key(p) && subset_expr(
        a@[p].value,
        m[p].value,
    ) by {
        lemma_widen_upper_bound(a@[p], value_or_bottom(b@, p));
    }
    assert forall|p: Path| #[trigger] b@.contains_key(p) implies m.contains_key(p) && subset_expr(
        b@[p].value,
        m[p].value,
    ) by {
        lemma_widen_upper_bound(value_or_bottom(a@, p), b@[p]);
    }
}

/// Every environment is a subset of itself.
pub proof fn lemma_environment_subset_reflexive(e: Environment)
    ensures
        map_subset(e@, e@),
{
    assert forall|p: Path| #[trigger] e@.contains_key(p) implies e@.contains_key(p) && subset_expr(
        e@[p].value,
        e@[p].value,
    ) by {
        lemma_subset_reflexive(e@[p].value);
    }
}

/// An environment with more bindings than another is never a subset of it.
pub proof fn lemma_environment_subset_needs_room(a: Environment, b: Environment)
    requires
        a.wf(),
        b.wf(),
        b@.len() < a@.len(),
    ensures
        !map_subset(a@, b@),
{
    if map_subset(a@, b@) {
        vstd::set_lib::lemma_len_subset(a@.dom(), b@.dom());
    }
}

} // verus!
