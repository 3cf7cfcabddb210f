use vstd::prelude::*;
use crate::dim::Dim;
use crate::error::TractError;
use crate::fact::TypedFact;
use crate::solver::{Rule, lemma_solved_rule, rules_wf, solved};
use crate::tensor::{Tensor, narrowed_data};

verus! {

/// A size small enough that differences of two of them fit in an `i64`.
pub open spec fn small(d: Dim) -> bool {
    -0x2000_0000_0000_0000 <= d.sym <= 0x2000_0000_0000_0000
        && -0x2000_0000_0000_0000 <= d.konst <= 0x2000_0000_0000_0000
}

/// An axis along which shifting the window by `period` leaves an operator's
/// behaviour unchanged.
#[derive(Debug, Clone, Copy, PartialEq, Eq, Structural)]
pub struct TranslationInvariant {
    pub axis: usize,
    pub period: usize,
}

/// Where the facts of one tensor sit among a solver's slots: its element
/// kind, its rank, and the size of each axis.
#[derive(Debug, Clone)]
pub struct TensorSlots {
    pub datum_type: usize,
    pub rank: usize,
    pub shape: Vec<usize>,
}

/// Narrows each of `axes` to the range `[starts[k], ends[k])`.
#[derive(Debug, Clone)]
pub struct Slice {
    axes: Vec<usize>,
    starts: Vec<Dim>,
    ends: Vec<Dim>,
}

impl Slice {
    pub closed spec fn axes_view(&self) -> Seq<usize> {
        self.axes@
    }

    pub closed spec fn starts_view(&self) -> Seq<Dim> {
        self.starts@
    }

    pub closed spec fn ends_view(&self) -> Seq<Dim> {
        self.ends@
    }

    /// One range per axis, no axis twice, sizes small enough to subtract.
    pub open spec fn wf(&self) -> bool {
        &&& self.starts_view().len() == self.axes_view().len()
        &&& self.ends_view().len() == self.axes_view().len()
        &&& forall|k: int, l: int|
            0 <= k < l < self.axes_view().len() ==> self.axes_view()[k] != self.axes_view()[l]
        &&& forall|k: int| 0 <= k < self.axes_view().len() ==> small(#[trigger] self.starts_view()[k])
        &&& forall|k: int| 0 <= k < self.axes_view().len() ==> small(#[trigger] self.ends_view()[k])
    }

    /// Whether `axis` is one of the sliced axes.
    pub open spec fn slices(&self, axis: int) -> bool {
        exists|k: int| 0 <= k < self.axes_view().len() && self.axes_view()[k] == axis
    }

    /// The size of the `k`-th sliced axis after slicing: `end - start`.
    pub open spec fn sliced_size(&self, k: int) -> (int, int) {
        (self.ends_view()[k]@.0 - self.starts_view()[k]@.0, self.ends_view()[k]@.1 - self.starts_view()[k]@.1)
    }

    /// The shape of the output for an input of the given shape.
    pub open spec fn output_shape(&self, input: Seq<(int, int)>) -> Seq<(int, int)> {
        Seq::new(input.len(), |i: int|
            if self.slices(i) {
                let k = choose|k: int| 0 <= k < self.axes_view().len() && self.axes_view()[k] == i;
                self.sliced_size(k)
            } else {
                input[i]
            })
    }

    /// Slicing keeps the rank and the size of every axis that is not sliced,
    /// and gives each sliced axis the size `end - start`, zero included.
    pub proof fn lemma_output_shape(&self, input: Seq<(int, int)>)
        requires
            self.wf(),
        ensures
            self.output_shape(input).len() == input.len(),
            forall|i: int| 0 <= i < input.len() && !self.slices(i) ==> #[trigger] self.output_shape(input)[i] == input[i],
            forall|k: int| 0 <= k < self.axes_view().len() && self.axes_view()[k] < input.len() ==>
                self.output_shape(input)[#[trigger] self.axes_view()[k] as int] == self.sliced_size(k),
    {
        assert forall|k: int| 0 <= k < self.axes_view().len() && self.axes_view()[k] < input.len() implies
            self.output_shape(input)[#[trigger] self.axes_view()[k] as int] == self.sliced_size(k) by {
            let i = self.axes_view()[k] as int;
            assert(self.slices(i));
            let q = choose|q: int| 0 <= q < self.axes_view().len() && self.axes_view()[q] == i;
            if q != k {
                if q < k {
                    assert(self.axes_view()[q] != self.axes_view()[k]);
                } else {
                    assert(self.axes_view()[k] != self.axes_view()[q]);
                }
            }
        }
    }

    /// Every sliced axis lies within a tensor of rank `rank`.
    pub open spec fn axes_within(&self, rank: int) -> bool {
        forall|k: int| 0 <= k < self.axes_view().len() ==> (#[trigger] self.axes_view()[k]) < rank
    }

    pub fn new(axes: Vec<usize>, starts: Vec<Dim>, ends: Vec<Dim>) -> (r: Slice)
        ensures
            r.axes_view() == axes@,
            r.starts_view() == starts@,
            r.ends_view() == ends@,
    {
        Slice { axes, starts, ends }
    }

    pub fn name(&self) -> (r: String)
        ensures
            r@ == "Slice"@,
    {
        "Slice".to_string()
    }

    /// Whether `axis` is sliced.
    fn is_sliced(&self, axis: usize) -> (r: bool)
        ensures
            r == self.slices(axis as int),
    {
        let mut k: usize = 0;
        while k < self.axes.len()
            invariant
                k <= self.axes@.len(),
                forall|l: int| 0 <= l < k ==> self.axes@[l] != axis,
            decreases self.axes@.len() - k,
        {
            if self.axes[k] == axis {
                assert(self.axes_view()[k as int] == axis);
                return true;
            }
            k = k + 1;
        }
        false
    }

    /// The axes along which the operator is translation invariant: every
    /// axis that is not sliced, with period 1, in increasing order.
    pub fn translation_invariants(&self, input: &TypedFact) -> (r: Vec<TranslationInvariant>)
        ensures
            forall|i: int| 0 <= i < r@.len() ==> (#[trigger] r@[i]).period == 1,
            forall|i: int| 0 <= i < r@.len() ==> (#[trigger] r@[i]).axis < input.shape@.len(),
            forall|i: int| 0 <= i < r@.len() ==> !self.slices((#[trigger] r@[i]).axis as int),
            forall|i: int, j: int| 0 <= i < j < r@.len() ==> r@[i].axis < r@[j].axis,
            forall|a: int| 0 <= a < input.shape@.len() && !self.slices(a) ==>
                exists|i: int| 0 <= i < r@.len() && (#[trigger] r@[i]).axis == a,
    {
        let mut r: Vec<TranslationInvariant> = Vec::new();
        let mut axis: usize = 0;
        while axis < input.shape.len()
            invariant
                axis <= input.shape@.len(),
                forall|i: int| 0 <= i < r@.len() ==> (#[trigger] r@[i]).period == 1,
                forall|i: int| 0 <= i < r@.len() ==> (#[trigger] r@[i]).axis < axis,
                forall|i: int| 0 <= i < r@.len() ==> !self.slices((#[trigger] r@[i]).axis as int),
                forall|i: int, j: int| 0 <= i < j < r@.len() ==> r@[i].axis < r@[j].axis,
                forall|a: int| 0 <= a < axis && !self.slices(a) ==>
                    exists|i: int| 0 <= i < r@.len() && (#[trigger] r@[i]).axis == a,
            decreases input.shape@.len() - axis,
        {
            let ghost before = r@;
            if !self.is_sliced(axis) {
                r.push(TranslationInvariant { axis, period: 1 });
            }
            proof {
                assert forall|a: int| 0 <= a < axis + 1 && !self.slices(a) implies
                    exists|i: int| 0 <= i < r@.len() && (#[trigger] r@[i]).axis == a by {
                    if a == axis {
                        assert(r@[r@.len() - 1].axis == a);
                    } else {
                        let i = choose|i: int| 0 <= i < before.len() && (#[trigger] before[i]).axis == a;
                        assert(r@[i] == before[i]);
                    }
                }
            }
            axis = axis + 1;
        }
        r
    }

    /// The range of the `k`-th sliced axis is concrete and lies within an
    /// axis of size `n`.
    pub open spec fn range_fits(&self, k: int, n: int) -> bool {
        &&& self.starts_view()[k].is_concrete()
        &&& self.ends_view()[k].is_concrete()
        &&& 0 <= self.starts_view()[k].konst <= self.ends_view()[k].konst <= n
    }

    /// The error that evaluation on an input of this shape meets first,
    /// looking at the sliced axes from the `k`-th on.
    pub open spec fn first_fault(&self, shape: Seq<usize>, k: int) -> Option<TractError>
        decreases self.axes_view().len() - k,
    {
        if k < 0 || k >= self.axes_view().len() {
            None
        } else if self.axes_view()[k] >= shape.len() {
            Some(TractError::DimensionOutOfRange)
        } else if !self.starts_view()[k].is_concrete() || !self.ends_view()[k].is_concrete() {
            Some(TractError::DimensionUnresolved)
        } else if !self.range_fits(k, shape[self.axes_view()[k] as int] as int) {
            Some(TractError::DimensionOutOfRange)
        } else {
            self.first_fault(shape, k + 1)
        }
    }

    /// Shape and content after narrowing the first `n` sliced axes.
    pub open spec fn narrowed<T>(&self, shape: Seq<usize>, data: Seq<T>, n: int) -> (Seq<usize>, Seq<T>)
        decreases n,
    {
        if n <= 0 {
            (shape, data)
        } else {
            let (s, d) = self.narrowed(shape, data, n - 1);
            let ax = self.axes_view()[n - 1] as int;
            let b = self.starts_view()[n - 1].konst as int;
            let e = self.ends_view()[n - 1].konst as int;
            (s.update(ax, (e - b) as usize), narrowed_data(s, d, ax, b, e))
        }
    }

    /// The output fact: the input fact with each sliced axis's size replaced
    /// by `end - start`.
    pub fn output_facts(&self, inputs: &Vec<TypedFact>) -> (r: Result<Vec<TypedFact>, TractError>)
        requires
            self.wf(),
        ensures
            inputs@.len() != 1 ==> r == Err::<Vec<TypedFact>, TractError>(TractError::Arity),
            inputs@.len() == 1 && !self.axes_within(inputs@[0].shape@.len() as int)
                ==> r == Err::<Vec<TypedFact>, TractError>(TractError::DimensionOutOfRange),
            inputs@.len() == 1 && self.axes_within(inputs@[0].shape@.len() as int) ==> {
                &&& r is Ok
                &&& r->Ok_0@.len() == 1
                &&& r->Ok_0@[0].datum_type == inputs@[0].datum_type
                &&& r->Ok_0@[0].shape_view() == self.output_shape(inputs@[0].shape_view())
            },
    {
        if inputs.len() != 1 {
            return Err(TractError::Arity);
        }
        let input = &inputs[0];
        let mut shape = input.shape.clone();
        let mut k: usize = 0;
        while k < self.axes.len()
            invariant
                self.wf(),
                inputs@.len() == 1,
                inputs@[0] == *input,
                k <= self.axes@.len(),
                shape@.len() == input.shape@.len(),
                forall|l: int| 0 <= l < k ==> (#[trigger] self.axes@[l]) < shape@.len(),
                forall|l: int| 0 <= l < k ==> shape@[#[trigger] self.axes@[l] as int]@ == self.sliced_size(l),
                forall|i: int| 0 <= i < shape@.len() && (forall|l: int| 0 <= l < k ==> self.axes@[l] != i)
                    ==> #[trigger] shape@[i] == input.shape@[i],
            decreases self.axes@.len() - k,
        {
            let axis = self.axes[k];
            if axis >= shape.len() {
                assert(!self.axes_within(inputs@[0].shape@.len() as int)) by {
                    assert(self.axes_view()[k as int] >= shape@.len());
                }
                return Err(TractError::DimensionOutOfRange);
            }
            assert(small(self.starts_view()[k as int]) && small(self.ends_view()[k as int]));
            let d = self.ends[k].sub(&self.starts[k]);
            let ghost prev = shape@;
            shape.set(axis, d);
            proof {
                assert forall|l: int| 0 <= l < k + 1 implies shape@[#[trigger] self.axes@[l] as int]@ == self.sliced_size(l) by {
                    if l < k {
                        assert(self.axes_view()[l] != self.axes_view()[k as int]);
                    }
                }
                assert forall|i: int| 0 <= i < shape@.len() && (forall|l: int| 0 <= l < k + 1 ==> self.axes@[l] != i)
                    implies #[trigger] shape@[i] == input.shape@[i] by {
                    assert(self.axes@[k as int] != i);
                    assert(prev[i] == input.shape@[i]);
                }
            }
            k = k + 1;
        }
        let out = TypedFact { datum_type: input.datum_type, shape };
        proof {
            let want = self.output_shape(input.shape_view());
            assert forall|i: int| 0 <= i < want.len() implies out.shape_view()[i] == want[i] by {
                if self.slices(i) {
                    let k0 = choose|k0: int| 0 <= k0 < self.axes_view().len() && self.axes_view()[k0] == i;
                    assert(shape@[self.axes@[k0] as int]@ == self.sliced_size(k0));
                } else {
                    assert forall|l: int| 0 <= l < self.axes@.len() implies self.axes@[l] != i by {
                        if self.axes@[l] == i {
                            assert(self.axes_view()[l] == i);
                        }
                    }
                }
            }
            assert(out.shape_view() =~= want);
        }
        let mut r: Vec<TypedFact> = Vec::new();
        r.push(out);
        Ok(r)
    }

    /// Narrows the single input tensor on every sliced axis. Ranges must be
    /// concrete and lie within the input; an empty range gives a tensor with
    /// no elements whose shape records the zero size.
    pub fn eval<T>(&self, inputs: Vec<Tensor<T>>) -> (r: Result<Vec<Tensor<T>>, TractError>)
        requires
            self.wf(),
            forall|i: int| 0 <= i < inputs@.len() ==> (#[trigger] inputs@[i]).wf(),
        ensures
            inputs@.len() != 1 ==> r == Err::<Vec<Tensor<T>>, TractError>(TractError::Arity),
            inputs@.len() == 1 ==> match self.first_fault(inputs@[0].shape@, 0) {
                Some(e) => r == Err::<Vec<Tensor<T>>, TractError>(e),
                None => {
                    &&& r is Ok
                    &&& r->Ok_0@.len() == 1
                    &&& r->Ok_0@[0].wf()
                    &&& (r->Ok_0@[0].shape@, r->Ok_0@[0].data@)
                        == self.narrowed(inputs@[0].shape@, inputs@[0].data@, self.axes_view().len() as int)
                    &&& r->Ok_0@[0].shape@.len() == inputs@[0].shape@.len()
                    &&& forall|k: int| 0 <= k < self.axes_view().len() ==>
                        r->Ok_0@[0].shape@[#[trigger] self.axes_view()[k] as int]
                            == self.ends_view()[k].konst - self.starts_view()[k].konst
                    &&& forall|i: int| 0 <= i < inputs@[0].shape@.len() && !self.slices(i)
                        ==> #[trigger] r->Ok_0@[0].shape@[i] == inputs@[0].shape@[i]
                },
            },
    {
        if inputs.len() != 1 {
            return Err(TractError::Arity);
        }
        let ghost orig = inputs@;
        let ghost input = inputs@[0];
        let mut rest = inputs;
        let mut t = match rest.pop() {
            Some(t) => t,
            None => {
                return Err(TractError::Arity);
            },
        };
        assert(t == input);
        let mut k: usize = 0;
        while k < self.axes.len()
            invariant
                self.wf(),
                orig == inputs@,
                orig.len() == 1,
                orig[0] == input,
                input.wf(),
                t.wf(),
                k <= self.axes@.len(),
                (t.shape@, t.data@) == self.narrowed(input.shape@, input.data@, k as int),
                self.first_fault(input.shape@, 0) == self.first_fault(input.shape@, k as int),
                t.shape@.len() == input.shape@.len(),
                forall|l: int| 0 <= l < k ==> (#[trigger] self.axes@[l]) < t.shape@.len(),
                forall|l: int| 0 <= l < k ==> t.shape@[#[trigger] self.axes@[l] as int]
                    == self.ends@[l].konst - self.starts@[l].konst,
                forall|i: int| 0 <= i < t.shape@.len() && (forall|l: int| 0 <= l < k ==> self.axes@[l] != i)
                    ==> #[trigger] t.shape@[i] == input.shape@[i],
            decreases self.axes@.len() - k,
        {
            let axis = self.axes[k];
            if axis >= t.shape.len() {
                assert(self.axes_view()[k as int] >= input.shape@.len());
                return Err(TractError::DimensionOutOfRange);
            }
            let b = match self.starts[k].to_integer() {
                Ok(b) => b,
                Err(e) => {
                    return Err(e);
                },
            };
            let e = match self.ends[k].to_integer() {
                Ok(e) => e,
                Err(e) => {
                    return Err(e);
                },
            };
            proof {
                assert forall|l: int| 0 <= l < k implies self.axes@[l] != axis by {
                    assert(self.axes_view()[l] != self.axes_view()[k as int]);
                }
            }
            assert(t.shape@[axis as int] == input.shape@[axis as int]);
            if b < 0 || e < b || e as u64 > t.shape[axis] as u64 {
                assert(!self.range_fits(k as int, input.shape@[self.axes_view()[k as int] as int] as int));
                return Err(TractError::DimensionOutOfRange);
            }
            let ghost prev = t.shape@;
            t = t.narrow_axis(axis, b as usize, e as usize);
            proof {
                assert forall|l: int| 0 <= l < k + 1 implies t.shape@[#[trigger] self.axes@[l] as int]
                    == self.ends@[l].konst - self.starts@[l].konst by {
                    if l < k {
                        assert(self.axes_view()[l] != self.axes_view()[k as int]);
                        assert(prev[self.axes@[l] as int] == self.ends@[l].konst - self.starts@[l].konst);
                    } else {
                        assert(t.shape@[axis as int] == (e - b) as usize);
                        assert(b == self.starts@[k as int].konst);
                        assert(e == self.ends@[k as int].konst);
                    }
                }
                assert forall|i: int| 0 <= i < t.shape@.len() && (forall|l: int| 0 <= l < k + 1 ==> self.axes@[l] != i)
                    implies #[trigger] t.shape@[i] == input.shape@[i] by {
                    assert(self.axes@[k as int] != i);
                    assert(prev[i] == input.shape@[i]);
                }
            }
            k = k + 1;
        }
        proof {
            assert forall|i: int| 0 <= i < input.shape@.len() && !self.slices(i)
                implies #[trigger] t.shape@[i] == input.shape@[i] by {
                assert forall|l: int| 0 <= l < self.axes@.len() implies self.axes@[l] != i by {
                    if self.axes@[l] == i {
                        assert(self.axes_view()[l] == i);
                    }
                }
            }
        }
        let mut r: Vec<Tensor<T>> = Vec::new();
        r.push(t);
        Ok(r)
    }

    /// The rule for `axis` of the output once the rank is known.
    pub open spec fn axis_rule(&self, input: TensorSlots, output: TensorSlots, axis: int) -> Rule {
        if self.slices(axis) {
            let k = choose|k: int| 0 <= k < self.axes_view().len() && self.axes_view()[k] == axis;
            Rule::Given(output.shape@[axis], Dim { sym: self.sliced_size(k).0 as i64, konst: self.sliced_size(k).1 as i64 })
        } else {
            Rule::Equals(output.shape@[axis], input.shape@[axis])
        }
    }

    /// The rules that relate the output's facts to the input's: same rank,
    /// same element kind, and, once the rank is known, `end - start` on each
    /// sliced axis and the input's size on every other axis.
    pub fn rules(&self, inputs: &Vec<TensorSlots>, outputs: &Vec<TensorSlots>, rank: Option<usize>) -> (r: Result<Vec<Rule>, TractError>)
        requires
            self.wf(),
        ensures
            (inputs@.len() != 1 || outputs@.len() != 1) ==> r == Err::<Vec<Rule>, TractError>(TractError::Arity),
            inputs@.len() == 1 && outputs@.len() == 1 && rank is Some
                && (rank->Some_0 > inputs@[0].shape@.len() || rank->Some_0 > outputs@[0].shape@.len())
                ==> r == Err::<Vec<Rule>, TractError>(TractError::DimensionOutOfRange),
            inputs@.len() == 1 && outputs@.len() == 1 && (rank is Some
                ==> rank->Some_0 <= inputs@[0].shape@.len() && rank->Some_0 <= outputs@[0].shape@.len()) ==> {
                let base = seq![
                    Rule::Equals(inputs@[0].rank, outputs@[0].rank),
                    Rule::Equals(inputs@[0].datum_type, outputs@[0].datum_type),
                ];
                &&& r is Ok
                &&& r->Ok_0@ == match rank {
                    None => base,
                    Some(n) => self.rules_spec(inputs@[0], outputs@[0], n),
                }
            },
    {
        if inputs.len() != 1 || outputs.len() != 1 {
            return Err(TractError::Arity);
        }
        let input = &inputs[0];
        let output = &outputs[0];
        let mut r: Vec<Rule> = Vec::new();
        r.push(Rule::Equals(input.rank, output.rank));
        r.push(Rule::Equals(input.datum_type, output.datum_type));
        let ghost base = r@;
        let n = match rank {
            None => {
                return Ok(r);
            },
            Some(n) => n,
        };
        if n > input.shape.len() || n > output.shape.len() {
            return Err(TractError::DimensionOutOfRange);
        }
        let mut axis: usize = 0;
        while axis < n
            invariant
                self.wf(),
                inputs@.len() == 1,
                outputs@.len() == 1,
                *input == inputs@[0],
                *output == outputs@[0],
                n <= input.shape@.len(),
                n <= output.shape@.len(),
                axis <= n,
                r@ == base + Seq::new(axis as nat, |a: int| self.axis_rule(*input, *output, a)),
            decreases n - axis,
        {
            let mut k: usize = 0;
            let mut pos: Option<usize> = None;
            while k < self.axes.len()
                invariant
                    k <= self.axes@.len(),
                    pos is None ==> forall|l: int| 0 <= l < k ==> self.axes@[l] != axis,
                    pos matches Some(p) ==> p < self.axes@.len() && self.axes@[p as int] == axis,
                decreases self.axes@.len() - k,
            {
                if pos.is_none() && self.axes[k] == axis {
                    pos = Some(k);
                }
                k = k + 1;
            }
            let rule = match pos {
                Some(p) => {
                    assert(small(self.starts_view()[p as int]) && small(self.ends_view()[p as int]));
                    proof {
                        assert(self.axes_view()[p as int] == axis);
                        let q = choose|q: int| 0 <= q < self.axes_view().len() && self.axes_view()[q] == axis;
                        if q != p {
                            if q < p {
                                assert(self.axes_view()[q] != self.axes_view()[p as int]);
                            } else {
                                assert(self.axes_view()[p as int] != self.axes_view()[q]);
                            }
                        }
                    }
                    Rule::Given(output.shape[axis], self.ends[p].sub(&self.starts[p]))
                },
                None => {
                    assert(!self.slices(axis as int));
                    Rule::Equals(output.shape[axis], input.shape[axis])
                },
            };
            r.push(rule);
            axis = axis + 1;
            assert(r@ =~= base + Seq::new(axis as nat, |a: int| self.axis_rule(*input, *output, a)));
        }
        Ok(r)
    }

    /// Once the rules of a slice, with the rank known to be `n`, are solved
    /// without contradiction, the output has the input's rank and element
    /// kind, every axis that is not sliced has the input's size, and each
    /// sliced axis has the size `end - start`.
    pub proof fn lemma_rules_solved(
        &self,
        input: TensorSlots,
        output: TensorSlots,
        n: usize,
        init: Seq<Option<Dim>>,
        s: Seq<Option<Dim>>,
    )
        requires
            self.wf(),
            n <= input.shape@.len(),
            n <= output.shape@.len(),
            rules_wf(init.len() as int, self.rules_spec(input, output, n)),
            solved(init, self.rules_spec(input, output, n), Ok(s)),
        ensures
            s[input.rank as int] == s[output.rank as int],
            s[input.datum_type as int] == s[output.datum_type as int],
            forall|ax: int| 0 <= ax < n && !self.slices(ax) ==>
                s[#[trigger] output.shape@[ax] as int] == s[input.shape@[ax] as int],
            forall|k: int| 0 <= k < self.axes_view().len() && self.axes_view()[k] < n ==>
                s[output.shape@[#[trigger] self.axes_view()[k] as int] as int]
                    == Some(Dim { sym: self.sliced_size(k).0 as i64, konst: self.sliced_size(k).1 as i64 }),
    {
        let rules = self.rules_spec(input, output, n);
        lemma_solved_rule(init, rules, s, 0);
        lemma_solved_rule(init, rules, s, 1);
        assert forall|ax: int| 0 <= ax < n && !self.slices(ax) implies
            s[#[trigger] output.shape@[ax] as int] == s[input.shape@[ax] as int] by {
            lemma_solved_rule(init, rules, s, ax + 2);
            assert(rules[ax + 2] == self.axis_rule(input, output, ax));
        }
        assert forall|k: int| 0 <= k < self.axes_view().len() && self.axes_view()[k] < n implies
            s[output.shape@[#[trigger] self.axes_view()[k] as int] as int]
                == Some(Dim { sym: self.sliced_size(k).0 as i64, konst: self.sliced_size(k).1 as i64 }) by {
            let ax = self.axes_view()[k] as int;
            assert(self.slices(ax));
            let q = choose|q: int| 0 <= q < self.axes_view().len() && self.axes_view()[q] == ax;
            if q != k {
                if q < k {
                    assert(self.axes_view()[q] != self.axes_view()[k]);
                } else {
                    assert(self.axes_view()[k] != self.axes_view()[q]);
                }
            }
            lemma_solved_rule(init, rules, s, ax + 2);
            assert(rules[ax + 2] == self.axis_rule(input, output, ax));
        }
    }

    /// The rules of a slice once the rank is known to be `n`.
    pub open spec fn rules_spec(&self, input: TensorSlots, output: TensorSlots, n: usize) -> Seq<Rule> {
        seq![Rule::Equals(input.rank, output.rank), Rule::Equals(input.datum_type, output.datum_type)]
            + Seq::new(n as nat, |axis: int| self.axis_rule(input, output, axis))
    }
}

} // verus!
