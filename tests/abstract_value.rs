use mirai::abstract_value::{AbstractValue, ExpressionDomain};

fn constant(c: i64) -> AbstractValue {
    AbstractValue { provenance: Some(1), value: ExpressionDomain::CompileTimeConstant(c) }
}

#[test]
fn join_of_equal_values_is_the_value() {
    let v = constant(4);
    assert_eq!(v.join(&constant(4), &AbstractValue::truth()), v);
}

#[test]
fn join_with_bottom_and_top() {
    let v = constant(4);
    let c = AbstractValue::truth();
    assert_eq!(v.join(&AbstractValue::bottom(), &c), v);
    assert_eq!(AbstractValue::bottom().join(&v, &c), v);
    assert_eq!(v.join(&AbstractValue::top(), &c), AbstractValue::top());
    assert_eq!(AbstractValue::top().join(&v, &c), AbstractValue::top());
}

#[test]
fn subset_order() {
    let v = constant(4);
    let w = constant(5);
    let c = AbstractValue::truth();
    assert!(AbstractValue::bottom().subset(&v));
    assert!(v.subset(&AbstractValue::top()));
    assert!(!AbstractValue::top().subset(&v));
    assert!(!v.subset(&w));
    let j = v.join(&w, &c);
    assert!(v.subset(&j));
    assert!(w.subset(&j));
    assert!(!j.subset(&v));
    assert!(j.subset(&j));
}

#[test]
fn widen_of_different_values_is_top() {
    let c = AbstractValue::truth();
    assert_eq!(constant(1).widen(&constant(2), &c), AbstractValue::top());
    assert_eq!(constant(1).widen(&constant(1), &c), constant(1));
    assert_eq!(AbstractValue::bottom().widen(&constant(2), &c), constant(2));
}

#[test]
fn bottom_is_bottom() {
    assert!(AbstractValue::bottom().is_bottom());
    assert!(!AbstractValue::top().is_bottom());
    assert!(!constant(0).is_bottom());
}
