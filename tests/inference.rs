use tract_ops::dim::Dim;
use tract_ops::error::TractError;
use tract_ops::slice::{Slice, TensorSlots};
use tract_ops::solver::{solve, Rule};

// Slots: 0 input datum type, 1 input rank, 2..4 input shape,
// 4 output datum type, 5 output rank, 6..8 output shape.
fn io() -> (TensorSlots, TensorSlots) {
    (
        TensorSlots { datum_type: 0, rank: 1, shape: vec![2, 3] },
        TensorSlots { datum_type: 4, rank: 5, shape: vec![6, 7] },
    )
}

fn rows() -> Slice {
    Slice::new(vec![0], vec![Dim::from_int(1)], vec![Dim::from_int(3)])
}

#[test]
fn solver_propagates_equalities() {
    let init = vec![Some(Dim::from_int(7)), None, None, None];
    let rules = vec![Rule::Equals(1, 2), Rule::Equals(0, 1), Rule::Given(3, Dim::symbol())];
    let r = solve(&init, &rules).unwrap();
    assert_eq!(r, vec![Some(Dim::from_int(7)), Some(Dim::from_int(7)), Some(Dim::from_int(7)), Some(Dim::symbol())]);
}

#[test]
fn solver_leaves_unforced_slots_unknown() {
    let init = vec![None, None, Some(Dim::from_int(1))];
    let rules = vec![Rule::Equals(0, 1)];
    assert_eq!(solve(&init, &rules).unwrap(), vec![None, None, Some(Dim::from_int(1))]);
}

#[test]
fn solver_detects_conflict() {
    let init = vec![Some(Dim::from_int(2)), Some(Dim::from_int(3))];
    assert_eq!(solve(&init, &vec![Rule::Equals(0, 1)]), Err(TractError::ShapeOrTypeConflict));
    let init2 = vec![None, Some(Dim::from_int(3))];
    let rules = vec![Rule::Given(0, Dim::from_int(4)), Rule::Equals(1, 0)];
    assert_eq!(solve(&init2, &rules), Err(TractError::ShapeOrTypeConflict));
}

#[test]
fn solver_order_does_not_matter() {
    let init = vec![None, None, None, Some(Dim::from_int(5))];
    let a = vec![Rule::Equals(0, 1), Rule::Equals(1, 2), Rule::Equals(2, 3)];
    let b = vec![Rule::Equals(2, 3), Rule::Equals(1, 2), Rule::Equals(0, 1), Rule::Equals(1, 2)];
    assert_eq!(solve(&init, &a), solve(&init, &b));
    let c = vec![Rule::Given(0, Dim::from_int(1)), Rule::Equals(0, 3)];
    let d = vec![Rule::Equals(0, 3), Rule::Given(0, Dim::from_int(1))];
    assert_eq!(solve(&init, &c), Err(TractError::ShapeOrTypeConflict));
    assert_eq!(solve(&init, &c), solve(&init, &d));
}

#[test]
fn slice_rules_before_rank_is_known() {
    let (i, o) = io();
    let r = rows().rules(&vec![i], &vec![o], None).unwrap();
    assert_eq!(r, vec![Rule::Equals(1, 5), Rule::Equals(0, 4)]);
}

#[test]
fn slice_rules_with_rank() {
    let (i, o) = io();
    let r = rows().rules(&vec![i], &vec![o], Some(2)).unwrap();
    assert_eq!(
        r,
        vec![Rule::Equals(1, 5), Rule::Equals(0, 4), Rule::Given(6, Dim::from_int(2)), Rule::Equals(7, 3)]
    );
}

#[test]
fn slice_rules_errors() {
    let (i, o) = io();
    assert_eq!(rows().rules(&vec![], &vec![o.clone()], None), Err(TractError::Arity));
    assert_eq!(rows().rules(&vec![i], &vec![o], Some(3)), Err(TractError::DimensionOutOfRange));
}

#[test]
fn slice_inference_end_to_end() {
    let (i, o) = io();
    let s = rows();
    let mut init: Vec<Option<Dim>> = vec![None; 8];
    init[0] = Some(Dim::from_int(3));
    init[1] = Some(Dim::from_int(2));
    init[2] = Some(Dim::from_int(4));
    init[3] = Some(Dim::symbol());
    let first = solve(&init, &s.rules(&vec![i.clone()], &vec![o.clone()], None).unwrap()).unwrap();
    let rank = first[5].unwrap().to_integer().unwrap() as usize;
    assert_eq!(rank, 2);
    let out = solve(&first, &s.rules(&vec![i], &vec![o], Some(rank)).unwrap()).unwrap();
    assert_eq!(out[4], Some(Dim::from_int(3)));
    assert_eq!(out[6], Some(Dim::from_int(2)));
    assert_eq!(out[7], Some(Dim::symbol()));
}
