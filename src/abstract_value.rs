//! Abstract values: the lattice elements that the environment stores.
//!
//! The domain kept here is deliberately small. Its one structured shape is
//! the conditional expression that a join of two different values yields;
//! path splitting inspects that shape.

use crate::path::Path;
use vstd::prelude::*;

verus! {

/// The payload of an abstract value.
#[derive(Debug, Eq, Hash)]
pub enum ExpressionDomain {
    /// No information: every concrete value is possible.
    Top,
    /// No concrete value is possible: the location is unreachable.
    Bottom,
    /// The condition that always holds.
    True,
    /// The condition that never holds.
    False,
    /// A known integer.
    CompileTimeConstant(i64),
    /// The address of a heap location allocated during the analysis.
    AbstractHeapAddress(usize),
    /// A reference to the location named by the path.
    Reference(Path),
    /// `consequent` where `condition` holds, `alternate` where it does not.
    ConditionalExpression {
        condition: Box<ExpressionDomain>,
        consequent: Box<ExpressionDomain>,
        alternate: Box<ExpressionDomain>,
    },
}

/// An abstract value: a payload and where in the source it came from.
#[derive(Debug, Eq, Hash)]
pub struct AbstractValue {
    /// The source location that gave rise to the value, if any.
    pub provenance: Option<u64>,
    /// What is known of the value.
    pub value: ExpressionDomain,
}

/// Least upper bound of two payloads; `condition` selects `x` over `y`.
pub open spec fn join_expr(x: ExpressionDomain, y: ExpressionDomain, condition: ExpressionDomain) -> ExpressionDomain {
    if x == y {
        x
    } else if x is Bottom {
        y
    } else if y is Bottom {
        x
    } else if x is Top || y is Top {
        ExpressionDomain::Top
    } else {
        ExpressionDomain::ConditionalExpression {
            condition: Box::new(condition),
            consequent: Box::new(x),
            alternate: Box::new(y),
        }
    }
}

/// Upper bound of two payloads that gives up precision at once: two
/// different non-bottom payloads widen to `Top`.
pub open spec fn widen_expr(x: ExpressionDomain, y: ExpressionDomain) -> ExpressionDomain {
    if x == y {
        x
    } else if x is Bottom {
        y
    } else if y is Bottom {
        x
    } else {
        ExpressionDomain::Top
    }
}

/// The partial order of the domain: `x` is at most as informative as `y`
/// allows, i.e. every concrete value that `x` admits, `y` admits too.
pub open spec fn subset_expr(x: ExpressionDomain, y: ExpressionDomain) -> bool
    decreases x, y,
{
    if x == y || x is Bottom || y is Top {
        true
    } else {
        (match x {
            ExpressionDomain::ConditionalExpression { consequent, alternate, .. } =>
                subset_expr(*consequent, y) && subset_expr(*alternate, y),
            _ => false,
        }) || (match y {
            ExpressionDomain::ConditionalExpression { consequent, alternate, .. } =>
                subset_expr(x, *consequent) || subset_expr(x, *alternate),
            _ => false,
        })
    }
}

/// The value that carries no information.
pub open spec fn top_value() -> AbstractValue {
    AbstractValue { provenance: None, value: ExpressionDomain::Top }
}

/// The value of an unreachable location.
pub open spec fn bottom_value() -> AbstractValue {
    AbstractValue { provenance: None, value: ExpressionDomain::Bottom }
}

/// The condition that always holds.
pub open spec fn true_value() -> AbstractValue {
    AbstractValue { provenance: None, value: ExpressionDomain::True }
}

/// The join of two values: the first operand's provenance is kept where it
/// determines the payload.
pub open spec fn joined(x: AbstractValue, y: AbstractValue, condition: AbstractValue) -> AbstractValue {
    if x.value == y.value || y.value is Bottom {
        x
    } else if x.value is Bottom {
        y
    } else {
        AbstractValue { provenance: None, value: join_expr(x.value, y.value, condition.value) }
    }
}

/// The widening of two values.
pub open spec fn widened(x: AbstractValue, y: AbstractValue) -> AbstractValue {
    if x.value == y.value || y.value is Bottom {
        x
    } else if x.value is Bottom {
        y
    } else {
        top_value()
    }
}

/// Every payload is below itself.
pub proof fn lemma_subset_reflexive(x: ExpressionDomain)
    ensures
        subset_expr(x, x),
{
}

/// A join is above both of its operands.
pub proof fn lemma_join_upper_bound(x: AbstractValue, y: AbstractValue, condition: AbstractValue)
    ensures
        subset_expr(x.value, joined(x, y, condition).value),
        subset_expr(y.value, joined(x, y, condition).value),
{
    reveal_with_fuel(subset_expr, 2);
}

/// A widening is above both of its operands.
pub proof fn lemma_widen_upper_bound(x: AbstractValue, y: AbstractValue)
    ensures
        subset_expr(x.value, widened(x, y).value),
        subset_expr(y.value, widened(x, y).value),
{
}

/// Joining a value with itself gives it back, whatever the condition.
pub proof fn lemma_join_idempotent(x: AbstractValue, condition: AbstractValue)
    ensures
        joined(x, x, condition) == x,
{
}

impl Clone for ExpressionDomain {
    fn clone(&self) -> (r: Self)
        ensures
            r == *self,
        decreases self,
    {
        match self {
            ExpressionDomain::Top => ExpressionDomain::Top,
            ExpressionDomain::Bottom => ExpressionDomain::Bottom,
            ExpressionDomain::True => ExpressionDomain::True,
            ExpressionDomain::False => ExpressionDomain::False,
            ExpressionDomain::CompileTimeConstant(c) => ExpressionDomain::CompileTimeConstant(*c),
            ExpressionDomain::AbstractHeapAddress(a) => ExpressionDomain::AbstractHeapAddress(*a),
            ExpressionDomain::Reference(p) => ExpressionDomain::Reference(p.clone()),
            ExpressionDomain::ConditionalExpression { condition, consequent, alternate } =>
                ExpressionDomain::ConditionalExpression {
                    condition: Box::new((**condition).clone()),
                    consequent: Box::new((**consequent).clone()),
                    alternate: Box::new((**alternate).clone()),
                },
        }
    }
}

impl PartialEq for ExpressionDomain {
    fn eq(&self, other: &ExpressionDomain) -> (r: bool)
        ensures
            r == (*self == *other),
        decreases self,
    {
        match (self, other) {
            (ExpressionDomain::Top, ExpressionDomain::Top) => true,
            (ExpressionDomain::Bottom, ExpressionDomain::Bottom) => true,
            (ExpressionDomain::True, ExpressionDomain::True) => true,
            (ExpressionDomain::False, ExpressionDomain::False) => true,
            (ExpressionDomain::CompileTimeConstant(a), ExpressionDomain::CompileTimeConstant(b)) => *a == *b,
            (ExpressionDomain::AbstractHeapAddress(a), ExpressionDomain::AbstractHeapAddress(b)) => *a == *b,
            (ExpressionDomain::Reference(a), ExpressionDomain::Reference(b)) => a.eq(b),
            (
                ExpressionDomain::ConditionalExpression { condition: c1, consequent: t1, alternate: f1 },
                ExpressionDomain::ConditionalExpression { condition: c2, consequent: t2, alternate: f2 },
            ) => (**c1).eq(&**c2) && (**t1).eq(&**t2) && (**f1).eq(&**f2),
            _ => false,
        }
    }
}

impl vstd::std_specs::cmp::PartialEqSpecImpl for ExpressionDomain {
    open spec fn obeys_eq_spec() -> bool {
        true
    }

    open spec fn eq_spec(&self, other: &ExpressionDomain) -> bool {
        *self == *other
    }
}

impl ExpressionDomain {
    /// Whether every concrete value that `self` admits, `other` admits too.
    pub fn subset(&self, other: &ExpressionDomain) -> (r: bool)
        ensures
            r == subset_expr(*self, *other),
        decreases self, other,
    {
        if self.eq(other) {
            return true;
        }
        if let ExpressionDomain::Bottom = self {
            return true;
        }
        if let ExpressionDomain::Top = other {
            return true;
        }
        if let ExpressionDomain::ConditionalExpression { consequent, alternate, .. } = self {
            if (**consequent).subset(other) && (**alternate).subset(other) {
                return true;
            }
        }
        if let ExpressionDomain::ConditionalExpression { consequent, alternate, .. } = other {
            if self.subset(&**consequent) || self.subset(&**alternate) {
                return true;
            }
        }
        false
    }
}

impl Clone for AbstractValue {
    fn clone(&self) -> (r: Self)
        ensures
            r == *self,
    {
        AbstractValue { provenance: self.provenance, value: self.value.clone() }
    }
}

impl PartialEq for AbstractValue {
    fn eq(&self, other: &AbstractValue) -> (r: bool)
        ensures
            r == (*self == *other),
    {
        self.provenance == other.provenance && self.value.eq(&other.value)
    }
}

impl vstd::std_specs::cmp::PartialEqSpecImpl for AbstractValue {
    open spec fn obeys_eq_spec() -> bool {
        true
    }

    open spec fn eq_spec(&self, other: &AbstractValue) -> bool {
        *self == *other
    }
}

impl AbstractValue {
    /// The value that carries no information.
    pub fn top() -> (r: AbstractValue)
        ensures
            r == top_value(),
    {
        AbstractValue { provenance: None, value: ExpressionDomain::Top }
    }

    /// The value of an unreachable location.
    pub fn bottom() -> (r: AbstractValue)
        ensures
            r == bottom_value(),
    {
        AbstractValue { provenance: None, value: ExpressionDomain::Bottom }
    }

    /// The condition that always holds.
    pub fn truth() -> (r: AbstractValue)
        ensures
            r == true_value(),
    {
        AbstractValue { provenance: None, value: ExpressionDomain::True }
    }

    /// Whether the value is that of an unreachable location.
    pub fn is_bottom(&self) -> (r: bool)
        ensures
            r == (self.value is Bottom),
    {
        match self.value {
            ExpressionDomain::Bottom => true,
            _ => false,
        }
    }

    /// The least upper bound of `self` and `other`, where `condition` holds
    /// on the way that brings `self`.
    pub fn join(&self, other: &AbstractValue, condition: &AbstractValue) -> (r: AbstractValue)
        ensures
            r == joined(*self, *other, *condition),
    {
        if self.value.eq(&other.value) || other.is_bottom() {
            self.clone()
        } else if self.is_bottom() {
            other.clone()
        } else if let (ExpressionDomain::Top, _) | (_, ExpressionDomain::Top) = (&self.value, &other.value) {
            AbstractValue::top()
        } else {
            let value = ExpressionDomain::ConditionalExpression {
                condition: Box::new(condition.value.clone()),
                consequent: Box::new(self.value.clone()),
                alternate: Box::new(other.value.clone()),
            };
            AbstractValue { provenance: None, value }
        }
    }

    /// An upper bound of `self` and `other` that makes ascending chains finite.
    pub fn widen(&self, other: &AbstractValue, condition: &AbstractValue) -> (r: AbstractValue)
        ensures
            r == widened(*self, *other),
    {
        if self.value.eq(&other.value) || other.is_bottom() {
            self.clone()
        } else if self.is_bottom() {
            other.clone()
        } else {
            AbstractValue::top()
        }
    }

    /// Whether `self` is below `other` in the order of the domain.
    pub fn subset(&self, other: &AbstractValue) -> (r: bool)
        ensures
            r == subset_expr(self.value, other.value),
    {
        self.value.subset(&other.value)
    }
}

} // verus!
