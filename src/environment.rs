//! The abstract state at one program point.

use crate::abstract_value::{
    bottom_value, joined, subset_expr, top_value, true_value, widened, AbstractValue, ExpressionDomain,
};
use crate::path::Path;
use crate::value_map::ValueMap;
use std::collections::HashMap;
use vstd::prelude::*;

verus! {

/// Identifies a basic block of the control-flow graph by its index.
pub type BasicBlock = usize;

/// The abstract state at one program point.
#[derive(PartialEq, Eq, Debug)]
pub struct Environment {
    /// The disjunction of all the exit conditions from the predecessors of this block.
    pub entry_condition: AbstractValue,
    /// The conditions that guard exit from this block to successor blocks.
    pub exit_conditions: HashMap<BasicBlock, AbstractValue>,
    /// Holds no binding to a bottom value: an absent path is bottom.
    pub value_map: ValueMap,
}

impl View for Environment {
    type V = Map<Path, AbstractValue>;

    open spec fn view(&self) -> Map<Path, AbstractValue> {
        self.value_map@
    }
}

/// Whether a map binds no path to bottom.
pub open spec fn no_bottom(m: Map<Path, AbstractValue>) -> bool {
    forall|p: Path| m.contains_key(p) ==> !(#[trigger] m[p].value is Bottom)
}

/// The value that a map gives a path, `TOP` where it gives none.
pub open spec fn value_or_top(m: Map<Path, AbstractValue>, p: Path) -> AbstractValue {
    if m.contains_key(p) {
        m[p]
    } else {
        top_value()
    }
}

/// The value that a map gives a path, `BOTTOM` where it gives none.
pub open spec fn value_or_bottom(m: Map<Path, AbstractValue>, p: Path) -> AbstractValue {
    if m.contains_key(p) {
        m[p]
    } else {
        bottom_value()
    }
}

/// The two locations that a value may refer to, and the condition that
/// selects the first: present where the value is a conditional expression
/// over two heap addresses or over two references.
pub open spec fn split_of_value(v: AbstractValue) -> Option<(AbstractValue, Path, Path)> {
    match v.value {
        ExpressionDomain::ConditionalExpression { condition, consequent, alternate } => {
            let guard = AbstractValue { provenance: v.provenance, value: *condition };
            match (*consequent, *alternate) {
                (ExpressionDomain::AbstractHeapAddress(a1), ExpressionDomain::AbstractHeapAddress(a2)) =>
                    Some((guard, Path::AbstractHeapAddress { ordinal: a1 }, Path::AbstractHeapAddress { ordinal: a2 })),
                (ExpressionDomain::Reference(p1), ExpressionDomain::Reference(p2)) => Some((guard, p1, p2)),
                _ => None,
            }
        },
        _ => None,
    }
}

/// Where `p` is ambiguous in `m`: the condition under which it names the
/// first of the two locations returned, and the two locations.
pub open spec fn split_of(m: Map<Path, AbstractValue>, p: Path) -> Option<(AbstractValue, Path, Path)>
    decreases p,
{
    match p {
        Path::LocalVariable { .. } => if m.contains_key(p) {
            split_of_value(m[p])
        } else {
            None
        },
        Path::QualifiedPath { qualifier, selector } => match split_of(m, *qualifier) {
            Some((guard, t, f)) => Some(
                (
                    guard,
                    Path::QualifiedPath { qualifier: Box::new(t), selector },
                    Path::QualifiedPath { qualifier: Box::new(f), selector },
                ),
            ),
            None => None,
        },
        _ => None,
    }
}

/// The map after the strong update of `p` to `v`: a bottom value removes
/// the binding.
pub open spec fn store(m: Map<Path, AbstractValue>, p: Path, v: AbstractValue) -> Map<Path, AbstractValue> {
    if v.value is Bottom {
        m.remove(p)
    } else {
        m.insert(p, v)
    }
}

/// The map after updating `p` to `v`, where the splits nest fewer than
/// `depth` deep; `None` where they nest deeper.
///
/// An ambiguous `p` first weakly updates both locations it may name: the
/// first to the join of `v` with its old value, the second to the join of
/// its old value with `v`, a missing old value counting as `TOP`.
pub open spec fn update_within(m: Map<Path, AbstractValue>, p: Path, v: AbstractValue, depth: nat) -> Option<
    Map<Path, AbstractValue>,
>
    decreases depth,
{
    if depth == 0 {
        None
    } else {
        match split_of(m, p) {
            None => Some(store(m, p, v)),
            Some((guard, t, f)) => {
                let tv = joined(v, value_or_top(m, t), guard);
                let fv = joined(value_or_top(m, f), v, guard);
                match update_within(m, t, tv, (depth - 1) as nat) {
                    None => None,
                    Some(m1) => match update_within(m1, f, fv, (depth - 1) as nat) {
                        None => None,
                        Some(m2) => Some(store(m2, p, v)),
                    },
                }
            },
        }
    }
}

/// Whether updating `p` to `v` in `m` splits only finitely often.
pub open spec fn update_terminates(m: Map<Path, AbstractValue>, p: Path, v: AbstractValue) -> bool {
    exists|depth: nat| (#[trigger] update_within(m, p, v, depth)) is Some
}

/// The map after updating `p` to `v`.
pub open spec fn updated(m: Map<Path, AbstractValue>, p: Path, v: AbstractValue) -> Map<Path, AbstractValue>
    recommends
        update_terminates(m, p, v),
{
    update_within(m, p, v, choose|depth: nat| (#[trigger] update_within(m, p, v, depth)) is Some)->0
}

/// A larger depth bound gives the same map: the result of an update does
/// not depend on the bound, once the bound is large enough.
pub proof fn lemma_update_within_stable(
    m: Map<Path, AbstractValue>,
    p: Path,
    v: AbstractValue,
    depth: nat,
    larger: nat,
)
    requires
        update_within(m, p, v, depth) is Some,
        depth <= larger,
    ensures
        update_within(m, p, v, larger) == update_within(m, p, v, depth),
    decreases depth,
{
    if let Some((guard, t, f)) = split_of(m, p) {
        let tv = joined(v, value_or_top(m, t), guard);
        let fv = joined(value_or_top(m, f), v, guard);
        lemma_update_within_stable(m, t, tv, (depth - 1) as nat, (larger - 1) as nat);
        let m1 = update_within(m, t, tv, (depth - 1) as nat)->0;
        lemma_update_within_stable(m1, f, fv, (depth - 1) as nat, (larger - 1) as nat);
    }
}

/// Where an update succeeds within some depth bound, `updated` is its result.
pub proof fn lemma_updated(m: Map<Path, AbstractValue>, p: Path, v: AbstractValue, depth: nat)
    requires
        update_within(m, p, v, depth) is Some,
    ensures
        update_terminates(m, p, v),
        updated(m, p, v) == update_within(m, p, v, depth)->0,
{
    let chosen = choose|d: nat| (#[trigger] update_within(m, p, v, d)) is Some;
    if chosen <= depth {
        lemma_update_within_stable(m, p, v, chosen, depth);
    } else {
        lemma_update_within_stable(m, p, v, depth, chosen);
    }
}

/// Which combination of two values a merge of environments applies.
pub enum Combinator {
    /// The least upper bound.
    Join,
    /// The widening.
    Widen,
}

/// The combination of two values that `combinator` names.
pub open spec fn combined(combinator: Combinator, x: AbstractValue, y: AbstractValue, condition: AbstractValue) -> AbstractValue {
    match combinator {
        Combinator::Join => joined(x, y, condition),
        Combinator::Widen => widened(x, y),
    }
}

/// The merge of two maps: every path bound in either map, bound to the
/// combination of its two values, a missing value counting as `BOTTOM`.
pub open spec fn merged(
    combinator: Combinator,
    m1: Map<Path, AbstractValue>,
    m2: Map<Path, AbstractValue>,
    condition: AbstractValue,
) -> Map<Path, AbstractValue> {
    Map::new(
        |p: Path| m1.contains_key(p) || m2.contains_key(p),
        |p: Path| combined(combinator, value_or_bottom(m1, p), value_or_bottom(m2, p), condition),
    )
}

/// Whether every path bound in `m1` is bound in `m2` to a value that is
/// above its value in `m1`.
pub open spec fn map_subset(m1: Map<Path, AbstractValue>, m2: Map<Path, AbstractValue>) -> bool {
    forall|p: Path|
        #[trigger] m1.contains_key(p) ==> m2.contains_key(p) && subset_expr(m1[p].value, m2[p].value)
}

/// The bindings of an environment made for a function of `n` parameters:
/// each of the slots 1 to n bound to `TOP`.
pub open spec fn parameter_map(n: nat) -> Map<Path, AbstractValue> {
    Map::new(
        |p: Path| p matches Path::LocalVariable { ordinal } && 1 <= ordinal <= n,
        |p: Path| top_value(),
    )
}

impl Environment {
    /// The environment of a point that nothing is known about yet.
    pub fn default() -> (r: Environment)
        ensures
            r@ == Map::<Path, AbstractValue>::empty(),
            r.entry_condition == true_value(),
            r.exit_conditions@ == Map::<BasicBlock, AbstractValue>::empty(),
            r.wf(),
    {
        Environment {
            entry_condition: AbstractValue::truth(),
            exit_conditions: HashMap::new(),
            value_map: ValueMap::new(),
        }
    }

    /// The map is finite and binds no path to bottom.
    pub open spec fn wf(&self) -> bool {
        self@.dom().finite() && no_bottom(self@)
    }

    /// The value bound to `path`, if any; none means bottom.
    pub fn value_at(&self, path: &Path) -> (r: Option<&AbstractValue>)
        ensures
            match r {
                Some(v) => self@.contains_key(*path) && *v == self@[*path],
                None => !self@.contains_key(*path),
            },
    {
        self.value_map.get(path)
    }

    /// Where `path` is ambiguous: the condition under which it names the
    /// first of two locations, and the two locations.
    fn try_to_split(&self, path: &Path) -> (r: Option<(AbstractValue, Path, Path)>)
        ensures
            r == split_of(self@, *path),
        decreases path,
    {
        match path {
            Path::LocalVariable { .. } => {
                if let Some(val) = self.value_at(path) {
                    if let ExpressionDomain::ConditionalExpression { condition, consequent, alternate } = &val.value {
                        let guard = AbstractValue { provenance: val.provenance, value: (**condition).clone() };
                        match (&**consequent, &**alternate) {
                            (ExpressionDomain::AbstractHeapAddress(addr1), ExpressionDomain::AbstractHeapAddress(addr2)) => {
                                return Some(
                                    (
                                        guard,
                                        Path::AbstractHeapAddress { ordinal: *addr1 },
                                        Path::AbstractHeapAddress { ordinal: *addr2 },
                                    ),
                                );
                            },
                            (ExpressionDomain::Reference(path1), ExpressionDomain::Reference(path2)) => {
                                return Some((guard, path1.clone(), path2.clone()));
                            },
                            _ => {},
                        }
                    }
                }
                None
            },
            Path::QualifiedPath { qualifier, selector } => {
                if let Some((join_condition, true_path, false_path)) = self.try_to_split(&**qualifier) {
                    let true_path = Path::QualifiedPath { qualifier: Box::new(true_path), selector: *selector };
                    let false_path = Path::QualifiedPath { qualifier: Box::new(false_path), selector: *selector };
                    return Some((join_condition, true_path, false_path));
                }
                None
            },
            _ => None,
        }
    }

    /// Updates `path` to `value`, where the splits nest fewer than `depth` deep.
    fn update_value_within(&mut self, path: Path, value: AbstractValue, Ghost(depth): Ghost<nat>)
        requires
            update_within(old(self)@, path, value, depth) is Some,
        ensures
            final(self)@ == update_within(old(self)@, path, value, depth)->0,
            final(self).entry_condition == old(self).entry_condition,
            final(self).exit_conditions == old(self).exit_conditions,
            old(self).wf() ==> final(self).wf(),
        decreases depth,
    {
        if let Some((join_condition, true_path, false_path)) = self.try_to_split(&path) {
            // The path may name either location, so both get a weak update.
            let top = AbstractValue::top();
            let true_val = value.join(self.value_at(&true_path).unwrap_or(&top), &join_condition);
            let false_val = self.value_at(&false_path).unwrap_or(&top).join(&value, &join_condition);
            self.update_value_within(true_path, true_val, Ghost((depth - 1) as nat));
            self.update_value_within(false_path, false_val, Ghost((depth - 1) as nat));
        }
        if value.is_bottom() {
            self.value_map = self.value_map.remove(&path);
        } else {
            self.value_map = self.value_map.insert(path, value);
        }
    }

    /// Updates the path to value map so that the given path now points to
    /// the given value. Where the path is ambiguous, the locations it may
    /// name are weakly updated first.
    pub fn update_value_at(&mut self, path: Path, value: AbstractValue)
        requires
            update_terminates(old(self)@, path, value),
        ensures
            final(self)@ == updated(old(self)@, path, value),
            final(self).entry_condition == old(self).entry_condition,
            final(self).exit_conditions == old(self).exit_conditions,
            old(self).wf() ==> final(self).wf(),
    {
        let ghost depth = choose|depth: nat| (#[trigger] update_within(old(self)@, path, value, depth)) is Some;
        self.update_value_within(path, value, Ghost(depth));
    }

    /// Returns an environment that has a path for every parameter of a
    /// function with `num_args` parameters, each bound to `TOP`.
    pub fn with_parameters(num_args: usize) -> (r: Environment)
        ensures
            r@ == parameter_map(num_args as nat),
            r.entry_condition == true_value(),
            r.exit_conditions@ == Map::<BasicBlock, AbstractValue>::empty(),
            r.wf(),
    {
        let mut value_map = ValueMap::new();
        let mut i: usize = 0;
        while i < num_args
            invariant
                i <= num_args,
                value_map@ == parameter_map(i as nat),
                value_map@.dom().finite(),
            decreases num_args - i,
        {
            i = i + 1;
            let par_i = Path::LocalVariable { ordinal: i };
            value_map = value_map.insert(par_i, AbstractValue::top());
            assert(value_map@ =~= parameter_map(i as nat));
        }
        Environment {
            value_map,
            entry_condition: AbstractValue::truth(),
            exit_conditions: HashMap::new(),
        }
    }

    /// Returns an environment with a path for every entry in self and other
    /// and an associated value that is the join of the two values.
    pub fn join(&self, other: &Environment, join_condition: &AbstractValue) -> (r: Environment)
        requires
            self.wf(),
            other.wf(),
        ensures
            r@ == merged(Combinator::Join, self@, other@, *join_condition),
            r.entry_condition == true_value(),
            r.exit_conditions@ == Map::<BasicBlock, AbstractValue>::empty(),
            r.wf(),
    {
        self.join_or_widen(other, join_condition, Combinator::Join)
    }

    /// Returns an environment with a path for every entry in self and other
    /// and an associated value that is the widening of the two values.
    pub fn widen(&self, other: &Environment, join_condition: &AbstractValue) -> (r: Environment)
        requires
            self.wf(),
            other.wf(),
        ensures
            r@ == merged(Combinator::Widen, self@, other@, *join_condition),
            r.entry_condition == true_value(),
            r.exit_conditions@ == Map::<BasicBlock, AbstractValue>::empty(),
            r.wf(),
    {
        self.join_or_widen(other, join_condition, Combinator::Widen)
    }

    /// Merges the maps of `self` and `other` with `combinator`.
    fn join_or_widen(&self, other: &Environment, join_condition: &AbstractValue, combinator: Combinator) -> (r: Environment)
        requires
            self.wf(),
            other.wf(),
        ensures
            r@ == merged(combinator, self@, other@, *join_condition),
            r.entry_condition == true_value(),
            r.exit_conditions@ == Map::<BasicBlock, AbstractValue>::empty(),
            r.wf(),
    {
        let ghost target = merged(combinator, self@, other@, *join_condition);
        let value_map1 = &self.value_map;
        let value_map2 = &other.value_map;
        let bottom = AbstractValue::bottom();
        let mut value_map = ValueMap::new();
        let entries1 = value_map1.entries();
        let mut i: usize = 0;
        while i < entries1.len()
            invariant
                i <= entries1.len(),
                bottom == bottom_value(),
                target == merged(combinator, self@, other@, *join_condition),
                *value_map1 == self.value_map,
                *value_map2 == other.value_map,
                value_map@.dom().finite(),
                forall|p: Path| #[trigger] value_map@.contains_key(p) ==> target.contains_key(p) && value_map@[p] == target[p],
                forall|j: int| 0 <= j < i ==> value_map@.contains_key(#[trigger] entries1[j].0),
                forall|j: int|
                    0 <= j < entries1.len() ==> value_map1@.contains_key(#[trigger] entries1[j].0)
                        && value_map1@[entries1[j].0] == entries1[j].1,
            decreases entries1.len() - i,
        {
            let entry = &entries1[i];
            let path = &entry.0;
            let val1 = &entry.1;
            let p = path.clone();
            let v = match value_map2.get(path) {
                Some(val2) => combine(&combinator, val1, val2, join_condition),
                None => combine(&combinator, val1, &bottom, join_condition),
            };
            value_map = value_map.insert(p, v);
            i = i + 1;
        }
        let entries2 = value_map2.entries();
        let mut i: usize = 0;
        while i < entries2.len()
            invariant
                i <= entries2.len(),
                bottom == bottom_value(),
                target == merged(combinator, self@, other@, *join_condition),
                *value_map1 == self.value_map,
                *value_map2 == other.value_map,
                value_map@.dom().finite(),
                forall|p: Path| #[trigger] value_map@.contains_key(p) ==> target.contains_key(p) && value_map@[p] == target[p],
                forall|p: Path| #[trigger] value_map1@.contains_key(p) ==> value_map@.contains_key(p),
                forall|j: int| 0 <= j < i ==> value_map@.contains_key(#[trigger] entries2[j].0),
                forall|j: int|
                    0 <= j < entries2.len() ==> value_map2@.contains_key(#[trigger] entries2[j].0)
                        && value_map2@[entries2[j].0] == entries2[j].1,
            decreases entries2.len() - i,
        {
            let entry = &entries2[i];
            let path = &entry.0;
            let val2 = &entry.1;
            if !value_map1.contains_key(path) {
                let p = path.clone();
                let v = combine(&combinator, &bottom, val2, join_condition);
                value_map = value_map.insert(p, v);
            }
            i = i + 1;
        }
        assert(value_map@ =~= target) by {
            assert forall|p: Path| #[trigger] target.contains_key(p) implies value_map@.contains_key(p) by {
                if !value_map1@.contains_key(p) {
                    let j = choose|j: int| 0 <= j < entries2.len() && #[trigger] entries2[j].0 == p;
                }
            }
        }
        Environment {
            value_map,
            entry_condition: AbstractValue::truth(),
            exit_conditions: HashMap::new(),
        }
    }

    /// Returns true if every path bound in `self` is bound in `other` to a
    /// value above its value in `self`: where no bottom is stored, this is
    /// the pointwise order with a missing value counting as bottom.
    pub fn subset(&self, other: &Environment) -> (r: bool)
        requires
            self.wf(),
            other.wf(),
        ensures
            r == map_subset(self@, other@),
    {
        let value_map1 = &self.value_map;
        let value_map2 = &other.value_map;
        if value_map1.size() > value_map2.size() {
            // Some path bound in value_map1 is not bound in value_map2.
            proof {
                if map_subset(self@, other@) {
                    vstd::set_lib::lemma_len_subset(self@.dom(), other@.dom());
                }
            }
            return false;
        }
        let entries1 = value_map1.entries();
        let mut i: usize = 0;
        while i < entries1.len()
            invariant
                i <= entries1.len(),
                *value_map1 == self.value_map,
                *value_map2 == other.value_map,
                forall|j: int|
                    0 <= j < i ==> value_map2@.contains_key(#[trigger] entries1[j].0)
                        && subset_expr(entries1[j].1.value, value_map2@[entries1[j].0].value),
                forall|j: int|
                    0 <= j < entries1.len() ==> value_map1@.contains_key(#[trigger] entries1[j].0)
                        && value_map1@[entries1[j].0] == entries1[j].1,
            decreases entries1.len() - i,
        {
            let entry = &entries1[i];
            match value_map2.get(&entry.0) {
                Some(val2) => {
                    if !entry.1.subset(val2) {
                        assert(self@.contains_key(entry.0));
                        return false;
                    }
                },
                None => {
                    assert(self@.contains_key(entry.0));
                    return false;
                },
            }
            i = i + 1;
        }
        proof {
            assert forall|p: Path| #[trigger] self@.contains_key(p) implies other@.contains_key(p)
                && subset_expr(self@[p].value, other@[p].value) by {
                let j = choose|j: int| 0 <= j < entries1.len() && #[trigger] entries1[j].0 == p;
            }
        }
        true
    }
}

/// Applies `combinator` to two values.
fn combine(combinator: &Combinator, x: &AbstractValue, y: &AbstractValue, condition: &AbstractValue) -> (r: AbstractValue)
    ensures
        r == combined(*combinator, *x, *y, *condition),
{
    match combinator {
        Combinator::Join => x.join(y, condition),
        Combinator::Widen => x.widen(y, condition),
    }
}

} // verus!
