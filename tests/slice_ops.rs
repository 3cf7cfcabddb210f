use tract_ops::dim::Dim;
use tract_ops::error::TractError;
use tract_ops::fact::{DatumType, TypedFact};
use tract_ops::slice::Slice;
use tract_ops::tensor::Tensor;

fn grid() -> Tensor<i32> {
    Tensor { shape: vec![4, 4], data: (0..16).collect() }
}

fn rows(start: i64, end: i64) -> Slice {
    Slice::new(vec![0], vec![Dim::from_int(start)], vec![Dim::from_int(end)])
}

#[test]
fn slice_rows_one_to_three() {
    let out = rows(1, 3).eval(vec![grid()]).unwrap();
    assert_eq!(out.len(), 1);
    assert_eq!(out[0].shape, vec![2, 4]);
    assert_eq!(out[0].data, vec![4, 5, 6, 7, 8, 9, 10, 11]);
}

#[test]
fn slice_empty_range_keeps_rank() {
    let out = rows(2, 2).eval(vec![grid()]).unwrap();
    assert_eq!(out[0].shape, vec![0, 4]);
    assert!(out[0].data.is_empty());
}

#[test]
fn slice_inner_axis() {
    let s = Slice::new(vec![1], vec![Dim::from_int(1)], vec![Dim::from_int(3)]);
    let out = s.eval(vec![grid()]).unwrap();
    assert_eq!(out[0].shape, vec![4, 2]);
    assert_eq!(out[0].data, vec![1, 2, 5, 6, 9, 10, 13, 14]);
}

#[test]
fn slice_two_axes() {
    let s = Slice::new(
        vec![0, 1],
        vec![Dim::from_int(1), Dim::from_int(0)],
        vec![Dim::from_int(4), Dim::from_int(1)],
    );
    let out = s.eval(vec![grid()]).unwrap();
    assert_eq!(out[0].shape, vec![3, 1]);
    assert_eq!(out[0].data, vec![4, 8, 12]);
}

#[test]
fn slice_arity_error() {
    assert_eq!(rows(1, 3).eval(vec![grid(), grid()]).unwrap_err(), TractError::Arity);
    assert_eq!(rows(1, 3).eval(Vec::<Tensor<i32>>::new()).unwrap_err(), TractError::Arity);
}

#[test]
fn slice_out_of_range_errors() {
    assert_eq!(rows(1, 5).eval(vec![grid()]).unwrap_err(), TractError::DimensionOutOfRange);
    assert_eq!(rows(3, 1).eval(vec![grid()]).unwrap_err(), TractError::DimensionOutOfRange);
    let s = Slice::new(vec![2], vec![Dim::from_int(0)], vec![Dim::from_int(1)]);
    assert_eq!(s.eval(vec![grid()]).unwrap_err(), TractError::DimensionOutOfRange);
}

#[test]
fn slice_symbolic_bound_is_unresolved() {
    let s = Slice::new(vec![0], vec![Dim::from_int(0)], vec![Dim::symbol()]);
    assert_eq!(s.eval(vec![grid()]).unwrap_err(), TractError::DimensionUnresolved);
}

#[test]
fn slice_output_facts_shape() {
    let s = Slice::new(vec![1], vec![Dim::from_int(1)], vec![Dim::symbol()]);
    let input = TypedFact::dt_shape(DatumType::F32, &vec![Dim::symbol(), Dim::from_int(7), Dim::from_int(3)]);
    let out = s.output_facts(&vec![input]).unwrap();
    assert_eq!(out.len(), 1);
    assert_eq!(out[0].datum_type, DatumType::F32);
    assert_eq!(out[0].shape, vec![Dim::symbol(), Dim { sym: 1, konst: -1 }, Dim::from_int(3)]);
}

#[test]
fn slice_output_facts_errors() {
    let s = Slice::new(vec![3], vec![Dim::from_int(0)], vec![Dim::from_int(1)]);
    let input = TypedFact::dt_shape(DatumType::I32, &vec![Dim::from_int(2)]);
    assert_eq!(s.output_facts(&vec![input.clone()]).unwrap_err(), TractError::DimensionOutOfRange);
    assert_eq!(s.output_facts(&vec![]).unwrap_err(), TractError::Arity);
}

#[test]
fn slice_output_facts_zero_size() {
    let s = Slice::new(vec![0], vec![Dim::from_int(2)], vec![Dim::from_int(2)]);
    let input = TypedFact::dt_shape(DatumType::I64, &vec![Dim::from_int(4), Dim::from_int(4)]);
    let out = s.output_facts(&vec![input]).unwrap();
    assert_eq!(out[0].shape, vec![Dim::from_int(0), Dim::from_int(4)]);
}

#[test]
fn slice_translation_invariants() {
    let s = Slice::new(vec![1], vec![Dim::from_int(0)], vec![Dim::from_int(1)]);
    let input = TypedFact::dt_shape(DatumType::F32, &vec![Dim::from_int(2), Dim::from_int(3), Dim::from_int(4)]);
    let inv = s.translation_invariants(&input);
    let axes: Vec<(usize, usize)> = inv.iter().map(|t| (t.axis, t.period)).collect();
    assert_eq!(axes, vec![(0, 1), (2, 1)]);
    assert_eq!(s.name(), "Slice");
}

#[test]
fn dim_arithmetic() {
    let a = Dim::symbol().mul_int(3).add(&Dim::from_int(2));
    assert_eq!(a, Dim { sym: 3, konst: 2 });
    assert_eq!(a.sub(&Dim::symbol().mul_int(3)).to_integer(), Ok(2));
    assert_eq!(a.to_integer(), Err(TractError::DimensionUnresolved));
}

#[test]
fn empty_tensor_constructor() {
    let t = Tensor::<f32>::empty(vec![0, 4]).unwrap();
    assert_eq!(t.shape, vec![0, 4]);
    assert!(t.data.is_empty());
    assert!(Tensor::<f32>::empty(vec![2, 4]).is_none());
    assert!(Tensor::<i32>::empty(vec![]).is_none());
}

#[test]
fn empty_tensor_that_cannot_be_laid_out() {
    assert!(Tensor::<u8>::empty(vec![0, usize::MAX]).is_none());
    assert!(Tensor::<u8>::empty(vec![0, 3, 0, 5]).is_some());
}

#[test]
fn slice_moves_owned_elements() {
    let t = Tensor { shape: vec![3, 2], data: (0..6).map(|i| format!("e{}", i)).collect::<Vec<String>>() };
    let out = rows(1, 3).eval(vec![t]).unwrap();
    assert_eq!(out[0].shape, vec![2, 2]);
    assert_eq!(out[0].data, vec!["e2", "e3", "e4", "e5"]);
}
