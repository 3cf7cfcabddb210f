use tract_ops::dim::Dim;
use tract_ops::error::TractError;
use tract_ops::fact::{DatumType, TypedFact};
use tract_ops::padding::PaddingStrat;
use tract_ops::s2b::{resolve_paddings, BatchToSpaceUnary, SpaceToBatchUnary};

fn shapes(space: i64, batch: i64) -> (Vec<Dim>, Vec<Dim>) {
    (
        vec![Dim::from_int(1), Dim::from_int(1), Dim::from_int(space)],
        vec![Dim::from_int(2), Dim::from_int(1), Dim::from_int(batch)],
    )
}

#[test]
fn padding_flex_fixed_and_fixed_fixed_agree() {
    let (space, batch) = shapes(5, 3);
    let a = resolve_paddings(&space, &batch, &vec![2], &vec![PaddingStrat::FlexFixed(0)]).unwrap();
    let b = resolve_paddings(&space, &batch, &vec![2], &vec![PaddingStrat::FixedFixed(1, 0)]).unwrap();
    assert_eq!(a, vec![(1, 0)]);
    assert_eq!(a, b);
}

#[test]
fn padding_fixed_flex() {
    let (space, batch) = shapes(5, 4);
    let r = resolve_paddings(&space, &batch, &vec![2], &vec![PaddingStrat::FixedFlex(1)]).unwrap();
    assert_eq!(r, vec![(1, 2)]);
}

#[test]
fn padding_split_sums_to_spread() {
    for spread in 0..6usize {
        for f in 0..=spread {
            for strat in [PaddingStrat::FlexFixed(f), PaddingStrat::FixedFlex(f)] {
                let (b, a) = strat.split(spread).unwrap();
                assert_eq!(b + a, spread);
            }
        }
    }
    assert_eq!(PaddingStrat::FlexFixed(3).split(2), None);
    assert_eq!(PaddingStrat::FixedFixed(1, 1).split(3), None);
    assert_eq!(PaddingStrat::FixedFixed(1, 2).split(3), Some((1, 2)));
}

#[test]
fn padding_negative_spread() {
    let (space, batch) = shapes(7, 3);
    let r = resolve_paddings(&space, &batch, &vec![2], &vec![PaddingStrat::FlexFixed(0)]);
    assert_eq!(r, Err(TractError::DimensionNegative));
}

#[test]
fn padding_strategy_that_does_not_fit() {
    let (space, batch) = shapes(5, 3);
    let r = resolve_paddings(&space, &batch, &vec![2], &vec![PaddingStrat::FixedFixed(1, 1)]);
    assert_eq!(r, Err(TractError::DimensionNegative));
}

#[test]
fn padding_symbolic_spread() {
    let space = vec![Dim::from_int(1), Dim::from_int(1), Dim::symbol()];
    let batch = vec![Dim::from_int(2), Dim::from_int(1), Dim::from_int(3)];
    let r = resolve_paddings(&space, &batch, &vec![2], &vec![PaddingStrat::FlexFixed(0)]);
    assert_eq!(r, Err(TractError::DimensionUnresolved));
}

#[test]
fn space_to_batch_facts_and_paddings() {
    let (space, batch) = shapes(5, 3);
    let op = SpaceToBatchUnary::new(DatumType::F32, space, batch.clone(), vec![2], vec![PaddingStrat::FlexFixed(0)]);
    assert_eq!(op.name(), "SpaceToBatchUnary");
    assert_eq!(op.paddings().unwrap(), vec![(1, 0)]);
    let input = TypedFact::dt_shape(DatumType::F32, &vec![Dim::from_int(1), Dim::from_int(1), Dim::from_int(5)]);
    let out = op.output_facts(&vec![input]).unwrap();
    assert_eq!(out[0].shape, batch);
    assert_eq!(out[0].datum_type, DatumType::F32);
    assert_eq!(op.output_facts(&vec![]).unwrap_err(), TractError::Arity);
}

#[test]
fn batch_to_space_facts_and_paddings() {
    let (space, batch) = shapes(5, 3);
    let op = BatchToSpaceUnary::new(DatumType::I32, batch, space.clone(), vec![2], vec![PaddingStrat::FixedFixed(1, 0)]);
    assert_eq!(op.name(), "BatchToSpaceUnary");
    assert_eq!(op.paddings().unwrap(), vec![(1, 0)]);
    let input = TypedFact::dt_shape(DatumType::I32, &vec![Dim::from_int(2), Dim::from_int(1), Dim::from_int(3)]);
    let out = op.output_facts(&vec![input]).unwrap();
    assert_eq!(out[0].shape, space);
    assert_eq!(out[0].datum_type, DatumType::I32);
}
