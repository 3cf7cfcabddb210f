use vstd::prelude::*;

verus! {

/// The number of elements of a tensor of the given shape.
pub open spec fn shape_len(shape: Seq<usize>) -> int
    decreases shape.len(),
{
    if shape.len() == 0 {
        1
    } else {
        shape_len(shape.drop_last()) * shape.last()
    }
}

/// The product of the sizes of the axes that are not empty: what must fit
/// in an `isize` for the shape to be laid out in memory.
pub open spec fn nonzero_len(shape: Seq<usize>) -> int
    decreases shape.len(),
{
    if shape.len() == 0 {
        1
    } else if shape.last() == 0 {
        nonzero_len(shape.drop_last())
    } else {
        nonzero_len(shape.drop_last()) * shape.last()
    }
}

proof fn lemma_nonzero_len_prefix(shape: Seq<usize>, i: int)
    requires
        0 <= i <= shape.len(),
    ensures
        1 <= nonzero_len(shape.take(i)) <= nonzero_len(shape),
    decreases shape.len(),
{
    if shape.len() > 0 {
        let init = shape.drop_last();
        if i == shape.len() {
            assert(shape.take(i) =~= shape);
            lemma_nonzero_len_prefix(init, init.len() as int);
            assert(init.take(init.len() as int) =~= init);
        } else {
            lemma_nonzero_len_prefix(init, i);
            assert(shape.take(i) =~= init.take(i));
        }
        lemma_nonzero_len_prefix(init, 0);
        let p = nonzero_len(init);
        if shape.last() != 0 {
            assert(p <= p * shape.last()) by (nonlinear_arith)
                requires p >= 1, shape.last() >= 1;
        }
    } else {
        assert(shape.take(i) =~= shape);
    }
}

/// A shape holds no element exactly when one of its axes has size zero.
pub proof fn lemma_shape_len_zero(shape: Seq<usize>)
    ensures
        shape_len(shape) == 0 <==> exists|i: int| 0 <= i < shape.len() && shape[i] == 0,
    decreases shape.len(),
{
    if shape.len() > 0 {
        let init = shape.drop_last();
        lemma_shape_len_zero(init);
        lemma_shape_len_nonneg(init);
        assert(shape_len(init) * shape.last() == 0 <==> shape_len(init) == 0 || shape.last() == 0) by (nonlinear_arith)
            requires shape_len(init) >= 0;
        if exists|i: int| 0 <= i < init.len() && init[i] == 0 {
            let i = choose|i: int| 0 <= i < init.len() && init[i] == 0;
            assert(shape[i] == 0);
        }
        if exists|i: int| 0 <= i < shape.len() && shape[i] == 0 {
            let i = choose|i: int| 0 <= i < shape.len() && shape[i] == 0;
            if i < shape.len() - 1 {
                assert(init[i] == 0);
            }
        }
    }
}

proof fn lemma_shape_len_nonneg(shape: Seq<usize>)
    ensures
        shape_len(shape) >= 0,
    decreases shape.len(),
{
    if shape.len() > 0 {
        lemma_shape_len_nonneg(shape.drop_last());
        assert(shape_len(shape.drop_last()) * shape.last() >= 0) by (nonlinear_arith)
            requires shape_len(shape.drop_last()) >= 0;
    }
}

/// The number of elements before index `axis` (the product of the sizes
/// of the leading axes).
pub open spec fn outer_len(shape: Seq<usize>, axis: int) -> int {
    shape_len(shape.take(axis))
}

/// The number of elements after index `axis`.
pub open spec fn inner_len(shape: Seq<usize>, axis: int) -> int {
    shape_len(shape.skip(axis + 1))
}

/// Row-major position in the source of the `j`-th element of the result of
/// narrowing `axis` (of size `n`) to `[start, start + m)`.
pub open spec fn narrowed_source(inner: int, n: int, m: int, start: int, j: int) -> int {
    let o = j / (m * inner);
    let rem = j % (m * inner);
    o * (n * inner) + (rem / inner + start) * inner + rem % inner
}

/// The elements, in row-major order, that remain when `axis` of a tensor of
/// this shape and content is narrowed to `[start, end)`.
pub open spec fn narrowed_data<T>(shape: Seq<usize>, data: Seq<T>, axis: int, start: int, end: int) -> Seq<T> {
    let inner = inner_len(shape, axis);
    Seq::new(
        (outer_len(shape, axis) * (end - start) * inner) as nat,
        |j: int| data[narrowed_source(inner, shape[axis] as int, end - start, start, j)],
    )
}

/// An owned, dense, row-major tensor.
#[derive(Debug, Clone)]
pub struct Tensor<T> {
    pub shape: Vec<usize>,
    pub data: Vec<T>,
}

impl<T> Tensor<T> {
    /// The buffer holds exactly one element per position of the shape.
    pub open spec fn wf(&self) -> bool {
        &&& self.data@.len() == shape_len(self.shape@)
        &&& self.data@.len() <= isize::MAX
        &&& nonzero_len(self.shape@) <= isize::MAX
    }
}

impl<T> Tensor<T> {
    /// A tensor with no element but the given shape, or `None` when the
    /// shape has room for elements or cannot be laid out in memory.
    pub fn empty(shape: Vec<usize>) -> (r: Option<Tensor<T>>)
        ensures
            r is Some <==> shape_len(shape@) == 0 && nonzero_len(shape@) <= isize::MAX,
            r matches Some(t) ==> t.shape@ == shape@ && t.data@.len() == 0 && t.wf(),
    {
        let mut i: usize = 0;
        let mut size: usize = 1;
        let mut zero = false;
        while i < shape.len()
            invariant
                i <= shape@.len(),
                size == nonzero_len(shape@.take(i as int)),
                size <= isize::MAX,
                zero <==> exists|j: int| 0 <= j < i && shape@[j] == 0,
            decreases shape@.len() - i,
        {
            let d = shape[i];
            assert(shape@.take(i + 1).drop_last() =~= shape@.take(i as int));
            if d == 0 {
                zero = true;
            } else {
                if size > (isize::MAX as usize) / d {
                    proof {
                        assert(size * d > isize::MAX) by (nonlinear_arith)
                            requires size > (isize::MAX as int) / (d as int), d >= 1;
                        lemma_nonzero_len_prefix(shape@, i + 1);
                    }
                    return None;
                }
                proof {
                    assert(size * d <= isize::MAX) by (nonlinear_arith)
                        requires size <= (isize::MAX as int) / (d as int), d >= 1;
                }
                size = size * d;
            }
            i = i + 1;
        }
        assert(shape@.take(shape@.len() as int) =~= shape@);
        proof {
            lemma_shape_len_zero(shape@);
        }
        if zero {
            Some(Tensor { shape, data: Vec::new() })
        } else {
            None
        }
    }
}

impl<T> Tensor<T> {
    /// Narrows `axis` to `[start, end)`, moving the remaining elements out in
    /// row-major order (no element is cloned). An empty range gives an empty
    /// buffer that still records the shape, with a zero on `axis`.
    ///
    /// Relies on ndarray: `ArrayD::from_shape_vec`, `slice_axis_inplace` and
    /// the by-value `into_iter`, which reads the narrowed array's elements
    /// out in logical order.
    #[verifier::external_body]
    pub(crate) fn narrow_axis(self, axis: usize, start: usize, end: usize) -> (r: Tensor<T>)
        requires
            self.wf(),
            axis < self.shape@.len(),
            start <= end <= self.shape@[axis as int],
        ensures
            r.shape@ == self.shape@.update(axis as int, (end - start) as usize),
            r.wf(),
            r.data@ == narrowed_data(self.shape@, self.data@, axis as int, start as int, end as int),
    {
        let Tensor { shape, data } = self;
        let mut array = ndarray::ArrayD::from_shape_vec(ndarray::IxDyn(&shape), data).unwrap();
        array.slice_axis_inplace(ndarray::Axis(axis), ndarray::Slice::from(start..end));
        let shape = array.shape().to_vec();
        let data = array.into_iter().collect();
        Tensor { shape, data }
    }
}

} // verus!
