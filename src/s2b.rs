use vstd::prelude::*;
use crate::dim::Dim;
use crate::error::TractError;
use crate::fact::{DatumType, TypedFact};
use crate::padding::{PaddingStrat, fits, split_spec};

verus! {

/// The padding a spatial axis needs: `batch * block - space`, as a pair
/// (coefficient of the unknown, constant term).
pub open spec fn spread_spec(batch: Dim, block: i32, space: Dim) -> (int, int) {
    (batch.sym * block - space.sym, batch.konst * block - space.konst)
}

/// The shapes carry one block size and one strategy per spatial axis,
/// the spatial axes coming after the batch and channel axes.
pub open spec fn shapes_agree(space: Seq<Dim>, batch: Seq<Dim>, block: Seq<i32>, pad: Seq<PaddingStrat>) -> bool {
    &&& block.len() == pad.len()
    &&& space.len() >= pad.len() + 2
    &&& batch.len() >= pad.len() + 2
}

/// What resolving the padding of axis `ax` yields: the pair of sides, or
/// the error that stops it.
pub open spec fn axis_padding(space: Seq<Dim>, batch: Seq<Dim>, block: Seq<i32>, pad: Seq<PaddingStrat>, ax: int)
    -> Result<(usize, usize), TractError>
{
    let s = spread_spec(batch[ax + 2], block[ax], space[ax + 2]);
    if s.0 != 0 {
        Err(TractError::DimensionUnresolved)
    } else if s.1 < 0 || s.1 > usize::MAX || !fits(pad[ax], s.1) {
        Err(TractError::DimensionNegative)
    } else {
        let (b, a) = split_spec(pad[ax], s.1);
        Ok((b as usize, a as usize))
    }
}

/// A resolved padding is two non-negative sides that add up to the spread;
/// a strategy that would need a negative side is reported as an error.
pub proof fn lemma_axis_padding_splits_spread(space: Seq<Dim>, batch: Seq<Dim>, block: Seq<i32>, pad: Seq<PaddingStrat>, ax: int)
    requires
        shapes_agree(space, batch, block, pad),
        0 <= ax < pad.len(),
    ensures
        axis_padding(space, batch, block, pad, ax) matches Ok((b, a))
            ==> b + a == spread_spec(batch[ax + 2], block[ax], space[ax + 2]).1,
        ({
            let s = spread_spec(batch[ax + 2], block[ax], space[ax + 2]);
            let (b, a) = split_spec(pad[ax], s.1);
            s.0 == 0 && (s.1 < 0 || b < 0 || a < 0) ==> axis_padding(space, batch, block, pad, ax) is Err
        }),
{
}

/// The first error met when resolving the axes from `ax` on.
pub open spec fn first_padding_fault(space: Seq<Dim>, batch: Seq<Dim>, block: Seq<i32>, pad: Seq<PaddingStrat>, ax: int)
    -> Option<TractError>
    decreases pad.len() - ax,
{
    if ax < 0 || ax >= pad.len() {
        None
    } else {
        match axis_padding(space, batch, block, pad, ax) {
            Err(e) => Some(e),
            Ok(_) => first_padding_fault(space, batch, block, pad, ax + 1),
        }
    }
}

/// Resolves, for each spatial axis, the padding before and after it from
/// the axis's strategy and its concrete spread.
pub fn resolve_paddings(space: &Vec<Dim>, batch: &Vec<Dim>, block: &Vec<i32>, pad: &Vec<PaddingStrat>)
    -> (r: Result<Vec<(usize, usize)>, TractError>)
    requires
        shapes_agree(space@, batch@, block@, pad@),
    ensures
        match first_padding_fault(space@, batch@, block@, pad@, 0) {
            Some(e) => r == Err::<Vec<(usize, usize)>, TractError>(e),
            None => {
                &&& r is Ok
                &&& r->Ok_0@.len() == pad@.len()
                &&& forall|ax: int| 0 <= ax < pad@.len() ==>
                    Ok::<(usize, usize), TractError>(#[trigger] r->Ok_0@[ax]) == axis_padding(space@, batch@, block@, pad@, ax)
            },
        },
{
    let mut r: Vec<(usize, usize)> = Vec::new();
    let mut ax: usize = 0;
    while ax < pad.len()
        invariant
            shapes_agree(space@, batch@, block@, pad@),
            ax <= pad@.len(),
            r@.len() == ax,
            first_padding_fault(space@, batch@, block@, pad@, 0) == first_padding_fault(space@, batch@, block@, pad@, ax as int),
            forall|i: int| 0 <= i < ax ==>
                Ok::<(usize, usize), TractError>(#[trigger] r@[i]) == axis_padding(space@, batch@, block@, pad@, i),
        decreases pad@.len() - ax,
    {
        let n = batch.len();
        assert(ax + 2 < n);
        let b = batch[ax + 2];
        let s = space[ax + 2];
        let k = block[ax] as i128;
        proof {
            let x = b.sym as int;
            let y = b.konst as int;
            let kk = k as int;
            assert(-0x8000_0000_0000_0000 * 0x8000_0000 <= x * kk <= 0x8000_0000_0000_0000 * 0x8000_0000) by (nonlinear_arith)
                requires -0x8000_0000_0000_0000 <= x <= 0x8000_0000_0000_0000, -0x8000_0000 <= kk <= 0x8000_0000;
            assert(-0x8000_0000_0000_0000 * 0x8000_0000 <= y * kk <= 0x8000_0000_0000_0000 * 0x8000_0000) by (nonlinear_arith)
                requires -0x8000_0000_0000_0000 <= y <= 0x8000_0000_0000_0000, -0x8000_0000 <= kk <= 0x8000_0000;
        }
        let sym: i128 = (b.sym as i128) * k - (s.sym as i128);
        let konst: i128 = (b.konst as i128) * k - (s.konst as i128);
        if sym != 0 {
            return Err(TractError::DimensionUnresolved);
        }
        if konst < 0 || konst > usize::MAX as i128 {
            return Err(TractError::DimensionNegative);
        }
        match pad[ax].split(konst as usize) {
            Some(p) => {
                r.push(p);
            },
            None => {
                return Err(TractError::DimensionNegative);
            },
        }
        ax = ax + 1;
    }
    Ok(r)
}

fn same_dims(a: &Vec<Dim>, b: &Vec<Dim>) -> (r: bool)
    ensures
        r == (a@ == b@),
{
    if a.len() != b.len() {
        return false;
    }
    let mut i: usize = 0;
    while i < a.len()
        invariant
            a@.len() == b@.len(),
            i <= a@.len(),
            forall|j: int| 0 <= j < i ==> a@[j] == b@[j],
        decreases a@.len() - i,
    {
        if a[i] != b[i] {
            return false;
        }
        i = i + 1;
    }
    assert(a@ =~= b@);
    true
}

fn same_blocks(a: &Vec<i32>, b: &Vec<i32>) -> (r: bool)
    ensures
        r == (a@ == b@),
{
    if a.len() != b.len() {
        return false;
    }
    let mut i: usize = 0;
    while i < a.len()
        invariant
            a@.len() == b@.len(),
            i <= a@.len(),
            forall|j: int| 0 <= j < i ==> a@[j] == b@[j],
        decreases a@.len() - i,
    {
        if a[i] != b[i] {
            return false;
        }
        i = i + 1;
    }
    assert(a@ =~= b@);
    true
}

/// Rearranges spatial blocks of the input into the batch axis.
#[derive(Debug, Clone)]
pub struct SpaceToBatchUnary {
    pub datum_type: DatumType,
    pub space_shape: Vec<Dim>,
    pub batch_shape: Vec<Dim>,
    pub block_shape: Vec<i32>,
    pub pad: Vec<PaddingStrat>,
}

impl SpaceToBatchUnary {
    pub fn new(datum_type: DatumType, space_shape: Vec<Dim>, batch_shape: Vec<Dim>, block_shape: Vec<i32>, pad: Vec<PaddingStrat>) -> (r: SpaceToBatchUnary)
        ensures
            r.datum_type == datum_type,
            r.space_shape@ == space_shape@,
            r.batch_shape@ == batch_shape@,
            r.block_shape@ == block_shape@,
            r.pad@ == pad@,
    {
        SpaceToBatchUnary { datum_type, space_shape, batch_shape, block_shape, pad }
    }

    pub fn name(&self) -> (r: String)
        ensures
            r@ == "SpaceToBatchUnary"@,
    {
        "SpaceToBatchUnary".to_string()
    }

    /// The padding on each spatial axis, as evaluation applies it before
    /// moving blocks into the batch axis.
    pub fn paddings(&self) -> (r: Result<Vec<(usize, usize)>, TractError>)
        requires
            shapes_agree(self.space_shape@, self.batch_shape@, self.block_shape@, self.pad@),
        ensures
            match first_padding_fault(self.space_shape@, self.batch_shape@, self.block_shape@, self.pad@, 0) {
                Some(e) => r == Err::<Vec<(usize, usize)>, TractError>(e),
                None => {
                    &&& r is Ok
                    &&& r->Ok_0@.len() == self.pad@.len()
                    &&& forall|ax: int| 0 <= ax < self.pad@.len() ==>
                        Ok::<(usize, usize), TractError>(#[trigger] r->Ok_0@[ax])
                            == axis_padding(self.space_shape@, self.batch_shape@, self.block_shape@, self.pad@, ax)
                },
            },
    {
        resolve_paddings(&self.space_shape, &self.batch_shape, &self.block_shape, &self.pad)
    }

    /// The output fact: the input's element kind with the batch shape.
    pub fn output_facts(&self, inputs: &Vec<TypedFact>) -> (r: Result<Vec<TypedFact>, TractError>)
        ensures
            inputs@.len() != 1 ==> r == Err::<Vec<TypedFact>, TractError>(TractError::Arity),
            inputs@.len() == 1 ==> {
                &&& r is Ok
                &&& r->Ok_0@.len() == 1
                &&& r->Ok_0@[0].datum_type == inputs@[0].datum_type
                &&& r->Ok_0@[0].shape@ == self.batch_shape@
            },
    {
        if inputs.len() != 1 {
            return Err(TractError::Arity);
        }
        let mut r: Vec<TypedFact> = Vec::new();
        r.push(TypedFact::dt_shape(inputs[0].datum_type, &self.batch_shape));
        Ok(r)
    }
}

/// Moves blocks out of the batch axis back into the spatial axes.
#[derive(Debug, Clone)]
pub struct BatchToSpaceUnary {
    datum_type: DatumType,
    batch_shape: Vec<Dim>,
    space_shape: Vec<Dim>,
    block_shape: Vec<i32>,
    pad: Vec<PaddingStrat>,
}

impl BatchToSpaceUnary {
    pub closed spec fn space_view(&self) -> Seq<Dim> {
        self.space_shape@
    }

    pub closed spec fn batch_view(&self) -> Seq<Dim> {
        self.batch_shape@
    }

    pub closed spec fn block_view(&self) -> Seq<i32> {
        self.block_shape@
    }

    pub closed spec fn pad_view(&self) -> Seq<PaddingStrat> {
        self.pad@
    }

    pub fn new(datum_type: DatumType, batch_shape: Vec<Dim>, space_shape: Vec<Dim>, block_shape: Vec<i32>, pad: Vec<PaddingStrat>) -> (r: BatchToSpaceUnary)
        ensures
            r.space_view() == space_shape@,
            r.batch_view() == batch_shape@,
            r.block_view() == block_shape@,
            r.pad_view() == pad@,
    {
        BatchToSpaceUnary { datum_type, batch_shape, space_shape, block_shape, pad }
    }

    pub fn name(&self) -> (r: String)
        ensures
            r@ == "BatchToSpaceUnary"@,
    {
        "BatchToSpaceUnary".to_string()
    }

    /// The padding on each spatial axis, as evaluation crops it after moving
    /// blocks out of the batch axis.
    pub fn paddings(&self) -> (r: Result<Vec<(usize, usize)>, TractError>)
        requires
            shapes_agree(self.space_view(), self.batch_view(), self.block_view(), self.pad_view()),
        ensures
            match first_padding_fault(self.space_view(), self.batch_view(), self.block_view(), self.pad_view(), 0) {
                Some(e) => r == Err::<Vec<(usize, usize)>, TractError>(e),
                None => {
                    &&& r is Ok
                    &&& r->Ok_0@.len() == self.pad_view().len()
                    &&& forall|ax: int| 0 <= ax < self.pad_view().len() ==>
                        Ok::<(usize, usize), TractError>(#[trigger] r->Ok_0@[ax])
                            == axis_padding(self.space_view(), self.batch_view(), self.block_view(), self.pad_view(), ax)
                },
            },
    {
        resolve_paddings(&self.space_shape, &self.batch_shape, &self.block_shape, &self.pad)
    }

    /// The output fact: the input's element kind with the space shape.
    pub fn output_facts(&self, inputs: &Vec<TypedFact>) -> (r: Result<Vec<TypedFact>, TractError>)
        ensures
            inputs@.len() != 1 ==> r == Err::<Vec<TypedFact>, TractError>(TractError::Arity),
            inputs@.len() == 1 ==> {
                &&& r is Ok
                &&& r->Ok_0@.len() == 1
                &&& r->Ok_0@[0].datum_type == inputs@[0].datum_type
                &&& r->Ok_0@[0].shape@ == self.space_view()
            },
    {
        if inputs.len() != 1 {
            return Err(TractError::Arity);
        }
        let mut r: Vec<TypedFact> = Vec::new();
        r.push(TypedFact::dt_shape(inputs[0].datum_type, &self.space_shape));
        Ok(r)
    }

    /// This operator undoes `s2b`: same block shape, and the batch and space
    /// shapes of one are those of the other.
    pub open spec fn undoes(&self, s2b: &SpaceToBatchUnary) -> bool {
        &&& self.block_view() == s2b.block_shape@
        &&& self.batch_view() == s2b.batch_shape@
        &&& self.space_view() == s2b.space_shape@
    }

    /// Whether this operator undoes `s2b`.
    pub fn matches(&self, s2b: &SpaceToBatchUnary) -> (r: bool)
        ensures
            r == self.undoes(s2b),
    {
        same_blocks(&self.block_shape, &s2b.block_shape) && same_dims(&self.batch_shape, &s2b.batch_shape)
            && same_dims(&self.space_shape, &s2b.space_shape)
    }
}

} // verus!
