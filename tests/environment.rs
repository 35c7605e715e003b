use mirai::abstract_value::{AbstractValue, ExpressionDomain};
use mirai::environment::Environment;
use mirai::path::{Path, PathSelector};

fn local(ordinal: usize) -> Path {
    Path::LocalVariable { ordinal }
}

fn heap(ordinal: usize) -> Path {
    Path::AbstractHeapAddress { ordinal }
}

fn constant(c: i64) -> AbstractValue {
    AbstractValue { provenance: None, value: ExpressionDomain::CompileTimeConstant(c) }
}

fn guard() -> AbstractValue {
    AbstractValue { provenance: Some(7), value: ExpressionDomain::True }
}

fn conditional(condition: ExpressionDomain, consequent: ExpressionDomain, alternate: ExpressionDomain) -> AbstractValue {
    AbstractValue {
        provenance: Some(3),
        value: ExpressionDomain::ConditionalExpression {
            condition: Box::new(condition),
            consequent: Box::new(consequent),
            alternate: Box::new(alternate),
        },
    }
}

fn condition_var() -> ExpressionDomain {
    ExpressionDomain::Reference(local(9))
}

#[test]
fn default_is_empty() {
    let e = Environment::default();
    assert_eq!(e.value_map.size(), 0);
    assert_eq!(e.entry_condition, AbstractValue::truth());
    assert!(e.exit_conditions.is_empty());
    assert!(e.value_at(&local(1)).is_none());
}

#[test]
fn with_parameters_binds_top() {
    let e = Environment::with_parameters(3);
    for i in 1..=3 {
        assert_eq!(e.value_at(&local(i)), Some(&AbstractValue::top()));
    }
    assert!(e.value_at(&local(0)).is_none());
    assert!(e.value_at(&local(4)).is_none());
    assert!(e.value_at(&heap(1)).is_none());
    assert_eq!(e.value_map.size(), 3);
    assert_eq!(e.entry_condition, AbstractValue::truth());
    assert!(e.exit_conditions.is_empty());
}

#[test]
fn with_no_parameters_is_empty() {
    let e = Environment::with_parameters(0);
    assert_eq!(e.value_map.size(), 0);
}

#[test]
fn update_then_lookup() {
    let mut e = Environment::with_parameters(2);
    e.update_value_at(local(1), constant(5));
    assert_eq!(e.value_at(&local(1)), Some(&constant(5)));
    assert_eq!(e.value_at(&local(2)), Some(&AbstractValue::top()));
    e.update_value_at(heap(4), constant(6));
    assert_eq!(e.value_at(&heap(4)), Some(&constant(6)));
    assert_eq!(e.value_map.size(), 3);
}

#[test]
fn update_to_bottom_removes() {
    let mut e = Environment::with_parameters(2);
    e.update_value_at(local(1), AbstractValue::bottom());
    assert!(e.value_at(&local(1)).is_none());
    assert_eq!(e.value_map.size(), 1);
    e.update_value_at(local(7), AbstractValue::bottom());
    assert!(e.value_at(&local(7)).is_none());
    assert_eq!(e.value_map.size(), 1);
}

#[test]
fn weak_update_of_heap_addresses() {
    let mut e = Environment::default();
    let split = conditional(
        condition_var(),
        ExpressionDomain::AbstractHeapAddress(1),
        ExpressionDomain::AbstractHeapAddress(2),
    );
    e.update_value_at(local(1), split);
    e.update_value_at(heap(1), constant(10));
    let v = constant(20);
    e.update_value_at(local(1), v.clone());

    let g = AbstractValue { provenance: Some(3), value: condition_var() };
    let expected_h1 = v.join(&constant(10), &g);
    let expected_h2 = AbstractValue::top().join(&v, &g);
    assert_eq!(e.value_at(&heap(1)), Some(&expected_h1));
    assert_eq!(e.value_at(&heap(2)), Some(&expected_h2));
    assert_eq!(e.value_at(&local(1)), Some(&v));
    // The old value of the first address is kept as the alternate.
    let kept = AbstractValue {
        provenance: None,
        value: ExpressionDomain::ConditionalExpression {
            condition: Box::new(condition_var()),
            consequent: Box::new(ExpressionDomain::CompileTimeConstant(20)),
            alternate: Box::new(ExpressionDomain::CompileTimeConstant(10)),
        },
    };
    assert_eq!(expected_h1, kept);
    assert_eq!(expected_h2, AbstractValue::top());
}

#[test]
fn weak_update_of_references() {
    let mut e = Environment::default();
    e.update_value_at(local(2), constant(1));
    e.update_value_at(local(3), constant(2));
    let split = conditional(condition_var(), ExpressionDomain::Reference(local(2)), ExpressionDomain::Reference(local(3)));
    e.update_value_at(local(1), split);
    let v = constant(5);
    e.update_value_at(local(1), v.clone());
    let g = AbstractValue { provenance: Some(3), value: condition_var() };
    assert_eq!(e.value_at(&local(2)), Some(&v.join(&constant(1), &g)));
    assert_eq!(e.value_at(&local(3)), Some(&constant(2).join(&v, &g)));
    assert_eq!(e.value_at(&local(1)), Some(&v));
}

#[test]
fn weak_update_through_a_field() {
    let mut e = Environment::default();
    let split = conditional(
        condition_var(),
        ExpressionDomain::AbstractHeapAddress(1),
        ExpressionDomain::AbstractHeapAddress(2),
    );
    e.update_value_at(local(1), split);
    let field = |q: Path| Path::QualifiedPath { qualifier: Box::new(q), selector: PathSelector::Field(0) };
    e.update_value_at(field(heap(2)), constant(3));
    e.update_value_at(field(local(1)), constant(4));
    let g = AbstractValue { provenance: Some(3), value: condition_var() };
    assert_eq!(e.value_at(&field(heap(1))), Some(&constant(4).join(&AbstractValue::top(), &g)));
    assert_eq!(e.value_at(&field(heap(2))), Some(&constant(3).join(&constant(4), &g)));
    assert_eq!(e.value_at(&field(local(1))), Some(&constant(4)));
}

#[test]
fn join_of_identical_environments() {
    let mut e = Environment::with_parameters(2);
    e.update_value_at(heap(3), constant(8));
    let j = e.join(&e, &AbstractValue::truth());
    assert_eq!(j.value_map, e.value_map);
    assert_eq!(j.value_map.size(), 3);
    assert_eq!(j.value_at(&heap(3)), Some(&constant(8)));
}

#[test]
fn join_is_an_upper_bound() {
    let mut a = Environment::with_parameters(1);
    a.update_value_at(local(2), constant(1));
    let mut b = Environment::default();
    b.update_value_at(local(2), constant(2));
    b.update_value_at(local(3), constant(3));
    let j = a.join(&b, &guard());
    assert!(a.subset(&j));
    assert!(b.subset(&j));
    let w = a.widen(&b, &guard());
    assert!(a.subset(&w));
    assert!(b.subset(&w));
}

#[test]
fn disjoint_key_join() {
    let mut a = Environment::default();
    a.update_value_at(local(1), constant(1));
    let mut b = Environment::default();
    b.update_value_at(local(2), constant(2));
    let g = guard();
    let j = a.join(&b, &g);
    assert_eq!(j.value_map.size(), 2);
    assert_eq!(j.value_at(&local(1)), Some(&constant(1).join(&AbstractValue::bottom(), &g)));
    assert_eq!(j.value_at(&local(2)), Some(&AbstractValue::bottom().join(&constant(2), &g)));
    assert_eq!(j.value_at(&local(1)), Some(&constant(1)));
    assert_eq!(j.value_at(&local(2)), Some(&constant(2)));
    assert_eq!(j.entry_condition, AbstractValue::truth());
    assert!(j.exit_conditions.is_empty());
}

#[test]
fn join_of_different_values_is_conditional() {
    let mut a = Environment::default();
    a.update_value_at(local(1), constant(1));
    let mut b = Environment::default();
    b.update_value_at(local(1), constant(2));
    let g = guard();
    let j = a.join(&b, &g);
    let expected = AbstractValue {
        provenance: None,
        value: ExpressionDomain::ConditionalExpression {
            condition: Box::new(ExpressionDomain::True),
            consequent: Box::new(ExpressionDomain::CompileTimeConstant(1)),
            alternate: Box::new(ExpressionDomain::CompileTimeConstant(2)),
        },
    };
    assert_eq!(j.value_at(&local(1)), Some(&expected));
}

#[test]
fn widen_gives_up_on_different_values() {
    let mut a = Environment::default();
    a.update_value_at(local(1), constant(1));
    a.update_value_at(local(2), constant(5));
    let mut b = Environment::default();
    b.update_value_at(local(1), constant(2));
    b.update_value_at(local(2), constant(5));
    b.update_value_at(local(3), constant(6));
    let w = a.widen(&b, &guard());
    assert_eq!(w.value_at(&local(1)), Some(&AbstractValue::top()));
    assert_eq!(w.value_at(&local(2)), Some(&constant(5)));
    assert_eq!(w.value_at(&local(3)), Some(&constant(6)));
    assert_eq!(w.value_map.size(), 3);
}

#[test]
fn subset_is_reflexive() {
    let mut e = Environment::with_parameters(2);
    e.update_value_at(heap(1), constant(3));
    assert!(e.subset(&e));
    assert!(Environment::default().subset(&Environment::default()));
}

#[test]
fn subset_rejects_larger_environment() {
    let a = Environment::with_parameters(3);
    let b = Environment::with_parameters(2);
    assert!(!a.subset(&b));
    assert!(b.subset(&a));
}

#[test]
fn subset_compares_values() {
    let mut a = Environment::default();
    a.update_value_at(local(1), constant(1));
    let mut b = Environment::default();
    b.update_value_at(local(1), constant(2));
    assert!(!a.subset(&b));
    let mut c = Environment::default();
    c.update_value_at(local(1), AbstractValue::top());
    assert!(a.subset(&c));
    assert!(!c.subset(&a));
    let mut d = Environment::default();
    d.update_value_at(local(2), constant(1));
    assert!(!a.subset(&d));
}
