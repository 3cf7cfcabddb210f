use vstd::prelude::*;
use crate::error::TractError;
use crate::s2b::{BatchToSpaceUnary, SpaceToBatchUnary};

verus! {

/// An output socket: the `slot`-th output of node `node`.
#[derive(Debug, Clone, Copy, PartialEq, Eq, Structural)]
pub struct OutletId {
    pub node: usize,
    pub slot: usize,
}

impl OutletId {
    pub fn new(node: usize, slot: usize) -> (r: OutletId)
        ensures
            r == (OutletId { node, slot }),
    {
        OutletId { node, slot }
    }
}

#[derive(Debug, Clone, Copy, PartialEq, Eq, Structural)]
pub enum DataFormat {
    NCHW,
    NHWC,
    CHW,
    HWC,
}

#[derive(Debug, Clone, Copy, PartialEq, Eq, Structural)]
pub enum PaddingSpec {
    Valid,
    SameUpper,
    SameLower,
}

#[derive(Debug, Clone, Copy, PartialEq, Eq, Structural)]
pub enum KernelFormat {
    OIHW,
    HWIO,
}

/// The window of a convolution.
#[derive(Debug)]
pub struct PoolSpec {
    pub data_format: DataFormat,
    pub padding: PaddingSpec,
    pub strides: Option<Vec<usize>>,
    pub kernel_shape: Vec<usize>,
    pub output_channel_override: Option<usize>,
    pub dilations: Option<Vec<usize>>,
}

/// A convolution with a constant kernel.
#[derive(Debug)]
pub struct ConvUnary {
    pub pool_spec: PoolSpec,
    pub kernel_fmt: KernelFormat,
    pub kernel: Vec<i64>,
    pub group: usize,
}

/// What a node computes.
#[derive(Debug)]
pub enum Op {
    Source,
    SpaceToBatch(SpaceToBatchUnary),
    Conv(ConvUnary),
    BatchToSpace(BatchToSpaceUnary),
    Other(String),
}

/// A node of the arena; its id is its index in the model.
#[derive(Debug)]
pub struct Node {
    pub name: String,
    pub op: Op,
    pub inputs: Vec<OutletId>,
}

/// A graph held as an arena of nodes, edges being outlet ids.
#[derive(Debug)]
pub struct TypedModel {
    pub nodes: Vec<Node>,
    pub inputs: Vec<OutletId>,
    pub outputs: Vec<OutletId>,
}

/// A staged rewrite: one new convolution node fed from `tap`, taking over
/// every consumer of `shunt`.
#[derive(Debug)]
pub struct TypedModelPatch {
    pub tap: OutletId,
    pub name: String,
    pub op: ConvUnary,
    pub shunt: OutletId,
}

pub(crate) fn copy_vec<T: Copy>(v: &Vec<T>) -> (r: Vec<T>)
    ensures
        r@ == v@,
{
    let mut r: Vec<T> = Vec::new();
    let mut i: usize = 0;
    while i < v.len()
        invariant
            i <= v@.len(),
            r@ == v@.take(i as int),
        decreases v@.len() - i,
    {
        r.push(v[i]);
        i = i + 1;
        assert(r@ =~= v@.take(i as int));
    }
    assert(r@ =~= v@);
    r
}

fn copy_opt_vec(v: &Option<Vec<usize>>) -> (r: Option<Vec<usize>>)
    ensures
        r is Some <==> v is Some,
        r is Some ==> r->Some_0@ == v->Some_0@,
{
    match v {
        Some(x) => Some(copy_vec(x)),
        None => None,
    }
}

fn blocks_nonneg(block: &Vec<i32>) -> (r: bool)
    ensures
        r == forall|i: int| 0 <= i < block@.len() ==> #[trigger] block@[i] >= 0,
{
    let mut i: usize = 0;
    while i < block.len()
        invariant
            i <= block@.len(),
            forall|j: int| 0 <= j < i ==> #[trigger] block@[j] >= 0,
        decreases block@.len() - i,
    {
        if block[i] < 0 {
            return false;
        }
        i = i + 1;
    }
    true
}

/// The block sizes read as dilations.
fn block_as_dilations(block: &Vec<i32>) -> (r: Vec<usize>)
    requires
        forall|i: int| 0 <= i < block@.len() ==> #[trigger] block@[i] >= 0,
    ensures
        r@.len() == block@.len(),
        forall|i: int| 0 <= i < block@.len() ==> #[trigger] r@[i] == block@[i] as usize,
{
    let mut r: Vec<usize> = Vec::new();
    let mut i: usize = 0;
    while i < block.len()
        invariant
            i <= block@.len(),
            forall|i: int| 0 <= i < block@.len() ==> #[trigger] block@[i] >= 0,
            r@.len() == i,
            forall|j: int| 0 <= j < i ==> #[trigger] r@[j] == block@[j] as usize,
        decreases block@.len() - i,
    {
        r.push(block[i] as usize);
        i = i + 1;
    }
    r
}

impl ConvUnary {
    /// This convolution with its dilations replaced, all else kept.
    pub open spec fn with_dilations(&self, other: &ConvUnary, d: Seq<usize>) -> bool {
        &&& other.pool_spec.data_format == self.pool_spec.data_format
        &&& other.pool_spec.padding == self.pool_spec.padding
        &&& (other.pool_spec.strides is Some <==> self.pool_spec.strides is Some)
        &&& (other.pool_spec.strides is Some ==> other.pool_spec.strides->Some_0@ == self.pool_spec.strides->Some_0@)
        &&& other.pool_spec.kernel_shape@ == self.pool_spec.kernel_shape@
        &&& other.pool_spec.output_channel_override == self.pool_spec.output_channel_override
        &&& other.pool_spec.dilations is Some
        &&& other.pool_spec.dilations->Some_0@ == d
        &&& other.kernel_fmt == self.kernel_fmt
        &&& other.kernel@ == self.kernel@
        &&& other.group == self.group
    }

    fn dilated(&self, d: Vec<usize>) -> (r: ConvUnary)
        ensures
            self.with_dilations(&r, d@),
    {
        ConvUnary {
            pool_spec: PoolSpec {
                data_format: self.pool_spec.data_format,
                padding: self.pool_spec.padding,
                strides: copy_opt_vec(&self.pool_spec.strides),
                kernel_shape: copy_vec(&self.pool_spec.kernel_shape),
                output_channel_override: self.pool_spec.output_channel_override,
                dilations: Some(d),
            },
            kernel_fmt: self.kernel_fmt,
            kernel: copy_vec(&self.kernel),
            group: self.group,
        }
    }
}

impl TypedModel {
    /// Every input reference and every model input and output names an
    /// existing node.
    pub open spec fn refs_resolve(&self) -> bool {
        &&& forall|j: int, s: int| 0 <= j < self.nodes@.len() && 0 <= s < self.nodes@[j].inputs@.len()
            ==> (#[trigger] self.nodes@[j].inputs@[s]).node < self.nodes@.len()
        &&& forall|i: int| 0 <= i < self.inputs@.len() ==> (#[trigger] self.inputs@[i]).node < self.nodes@.len()
        &&& forall|i: int| 0 <= i < self.outputs@.len() ==> (#[trigger] self.outputs@[i]).node < self.nodes@.len()
    }

    /// Input `slot` of node `j` reads an output of node `id`.
    pub open spec fn consumes(&self, j: int, slot: int, id: int) -> bool {
        &&& 0 <= j < self.nodes@.len()
        &&& 0 <= slot < self.nodes@[j].inputs@.len()
        &&& self.nodes@[j].inputs@[slot].node == id
    }

    /// Node `j` is the one consumer of node `id`, through exactly one input.
    pub open spec fn is_single_succ(&self, id: int, j: int) -> bool {
        exists|slot: int| #[trigger] self.consumes(j, slot, id)
            && forall|j2: int, s2: int| #[trigger] self.consumes(j2, s2, id) ==> j2 == j && s2 == slot
    }

    /// The single consumer of node `id`, if it has exactly one.
    pub fn single_succ(&self, id: usize) -> (r: Option<usize>)
        ensures
            r matches Some(j) ==> self.is_single_succ(id as int, j as int),
            r is None ==> forall|j: int| !self.is_single_succ(id as int, j),
    {
        let mut found: Option<(usize, usize)> = None;
        let mut j: usize = 0;
        while j < self.nodes.len()
            invariant
                j <= self.nodes@.len(),
                found matches Some((fj, fs)) ==> fj < j && self.consumes(fj as int, fs as int, id as int),
                forall|j2: int, s2: int| 0 <= j2 < j && #[trigger] self.consumes(j2, s2, id as int) ==>
                    (found is Some && j2 == found->Some_0.0 && s2 == found->Some_0.1),
            decreases self.nodes@.len() - j,
        {
            let ins = &self.nodes[j].inputs;
            let mut s: usize = 0;
            while s < ins.len()
                invariant
                    j < self.nodes@.len(),
                    *ins == self.nodes@[j as int].inputs,
                    s <= ins@.len(),
                    found matches Some((fj, fs)) ==> fj <= j && self.consumes(fj as int, fs as int, id as int),
                    found is Some && found->Some_0.0 == j ==> found->Some_0.1 < s,
                    forall|j2: int, s2: int| (0 <= j2 < j || (j2 == j && 0 <= s2 < s)) && #[trigger] self.consumes(j2, s2, id as int) ==>
                        (found is Some && j2 == found->Some_0.0 && s2 == found->Some_0.1),
                decreases ins@.len() - s,
            {
                if ins[s].node == id {
                    assert(self.consumes(j as int, s as int, id as int));
                    if found.is_some() {
                        proof {
                            let (fj, fs) = found->Some_0;
                            assert forall|k: int| !self.is_single_succ(id as int, k) by {
                                if self.is_single_succ(id as int, k) {
                                    let w = choose|slot: int| #[trigger] self.consumes(k, slot, id as int)
                                        && forall|j2: int, s2: int| #[trigger] self.consumes(j2, s2, id as int) ==> j2 == k && s2 == slot;
                                    assert(self.consumes(fj as int, fs as int, id as int));
                                    assert(self.consumes(j as int, s as int, id as int));
                                }
                            }
                        }
                        return None;
                    }
                    found = Some((j, s));
                }
                s = s + 1;
            }
            j = j + 1;
        }
        match found {
            Some((fj, fs)) => {
                assert(self.consumes(fj as int, fs as int, id as int));
                Some(fj)
            },
            None => {
                proof {
                    assert forall|k: int| !self.is_single_succ(id as int, k) by {
                        if self.is_single_succ(id as int, k) {
                            let w = choose|slot: int| #[trigger] self.consumes(k, slot, id as int)
                                && forall|j2: int, s2: int| #[trigger] self.consumes(j2, s2, id as int) ==> j2 == k && s2 == slot;
                            assert(self.consumes(k, w, id as int));
                        }
                    }
                }
                None
            },
        }
    }

    /// Node `id` has at most one single consumer.
    pub proof fn lemma_single_succ_unique(&self, id: int, j: int, k: int)
        requires
            self.is_single_succ(id, j),
            self.is_single_succ(id, k),
        ensures
            j == k,
    {
        let sj = choose|slot: int| #[trigger] self.consumes(j, slot, id)
            && forall|j2: int, s2: int| #[trigger] self.consumes(j2, s2, id) ==> j2 == j && s2 == slot;
        let sk = choose|slot: int| #[trigger] self.consumes(k, slot, id)
            && forall|j2: int, s2: int| #[trigger] self.consumes(j2, s2, id) ==> j2 == k && s2 == slot;
        assert(self.consumes(j, sj, id));
    }

    /// The chain `node -> c -> b` is a space-to-batch whose one consumer is a
    /// convolution whose one consumer is a batch-to-space.
    pub open spec fn fusable(&self, node: int, c: int, b: int) -> bool {
        &&& 0 <= node < self.nodes@.len()
        &&& self.nodes@[node].inputs@.len() >= 1
        &&& self.is_single_succ(node, c)
        &&& self.nodes@[c].op is Conv
        &&& self.is_single_succ(c, b)
        &&& self.nodes@[b].op is BatchToSpace
    }

    /// Adds the patch's node, fed from its tap, and hands it every consumer
    /// of the shunted outlet, model outputs included. Fails, leaving the
    /// model as it was, when the tap or the shunt names a missing outlet.
    pub fn apply_patch(&mut self, patch: TypedModelPatch) -> (r: Result<usize, TractError>)
        ensures
            !(outlet_exists(patch.tap, old(self).nodes@.len()) && outlet_exists(patch.shunt, old(self).nodes@.len())) ==> {
                &&& r == Err::<usize, TractError>(TractError::PatchUnresolvable)
                &&& *final(self) == *old(self)
            },
            outlet_exists(patch.tap, old(self).nodes@.len()) && outlet_exists(patch.shunt, old(self).nodes@.len()) ==> {
                let n = old(self).nodes@.len() as int;
                let to = OutletId { node: n as usize, slot: 0 };
                &&& r == Ok::<usize, TractError>(n as usize)
                &&& final(self).nodes@.len() == n + 1
                &&& forall|j: int| 0 <= j < n ==> {
                    &&& (#[trigger] final(self).nodes@[j]).name == old(self).nodes@[j].name
                    &&& final(self).nodes@[j].op == old(self).nodes@[j].op
                    &&& final(self).nodes@[j].inputs@ == old(self).nodes@[j].inputs@.map_values(
                        |o: OutletId| redirected(o, patch.shunt, to))
                }
                &&& final(self).nodes@[n].name == patch.name
                &&& final(self).nodes@[n].op == Op::Conv(patch.op)
                &&& final(self).nodes@[n].inputs@ == seq![patch.tap]
                &&& final(self).inputs == old(self).inputs
                &&& final(self).outputs@ == old(self).outputs@.map_values(|o: OutletId| redirected(o, patch.shunt, to))
                &&& old(self).refs_resolve() ==> final(self).refs_resolve()
            },
    {
        let n = self.nodes.len();
        if patch.tap.node >= n || patch.shunt.node >= n || patch.tap.slot != 0 || patch.shunt.slot != 0 {
            return Err(TractError::PatchUnresolvable);
        }
        let to = OutletId { node: n, slot: 0 };
        let ghost before = self.nodes@;
        let mut j: usize = 0;
        while j < n
            invariant
                n == before.len(),
                self.nodes@.len() == n,
                j <= n,
                forall|k: int| 0 <= k < j ==> {
                    &&& (#[trigger] self.nodes@[k]).name == before[k].name
                    &&& self.nodes@[k].op == before[k].op
                    &&& self.nodes@[k].inputs@ == before[k].inputs@.map_values(|o: OutletId| redirected(o, patch.shunt, to))
                },
                forall|k: int| j <= k < n ==> #[trigger] self.nodes@[k] == before[k],
                self.inputs == old(self).inputs,
                self.outputs == old(self).outputs,
                before == old(self).nodes@,
            decreases n - j,
        {
            let mut nd = self.nodes.remove(j);
            nd.inputs = redirect_all(&nd.inputs, patch.shunt, to);
            self.nodes.insert(j, nd);
            j = j + 1;
        }
        self.outputs = redirect_all(&self.outputs, patch.shunt, to);
        let mut ins: Vec<OutletId> = Vec::new();
        ins.push(patch.tap);
        self.nodes.push(Node { name: patch.name, op: Op::Conv(patch.op), inputs: ins });
        assert(self.nodes@[n as int].inputs@ =~= seq![patch.tap]);
        proof {
            if old(self).refs_resolve() {
                assert forall|j: int, s: int| 0 <= j < self.nodes@.len() && 0 <= s < self.nodes@[j].inputs@.len()
                    implies (#[trigger] self.nodes@[j].inputs@[s]).node < self.nodes@.len() by {
                    if j < n {
                        assert(before[j].inputs@[s].node < n);
                    }
                }
                assert forall|i: int| 0 <= i < self.outputs@.len() implies (#[trigger] self.outputs@[i]).node < self.nodes@.len() by {
                    assert(old(self).outputs@[i].node < n);
                }
                assert forall|i: int| 0 <= i < self.inputs@.len() implies (#[trigger] self.inputs@[i]).node < self.nodes@.len() by {
                    assert(old(self).inputs@[i].node < n);
                }
            }
        }
        Ok(n)
    }
}

/// Outlet `o` exists in a model of `n` nodes, each of which has one output.
pub open spec fn outlet_exists(o: OutletId, n: nat) -> bool {
    o.node < n && o.slot == 0
}

/// Where a reference to `o` points once consumers of `from` read `to`.
pub open spec fn redirected(o: OutletId, from: OutletId, to: OutletId) -> OutletId {
    if o == from {
        to
    } else {
        o
    }
}

fn redirect_all(v: &Vec<OutletId>, from: OutletId, to: OutletId) -> (r: Vec<OutletId>)
    ensures
        r@ == v@.map_values(|o: OutletId| redirected(o, from, to)),
{
    let mut r: Vec<OutletId> = Vec::new();
    let mut i: usize = 0;
    while i < v.len()
        invariant
            i <= v@.len(),
            r@ == v@.take(i as int).map_values(|o: OutletId| redirected(o, from, to)),
        decreases v@.len() - i,
    {
        let o = v[i];
        if o == from {
            r.push(to);
        } else {
            r.push(o);
        }
        i = i + 1;
        assert(r@ =~= v@.take(i as int).map_values(|o: OutletId| redirected(o, from, to)));
    }
    assert(v@.take(v@.len() as int) =~= v@);
    r
}

impl SpaceToBatchUnary {
    /// The chain `node -> c -> b` of `model` can be fused by this operator:
    /// its shape matches, its block sizes are dilations, and `b` undoes it.
    pub open spec fn fuses(&self, model: &TypedModel, node: int, c: int, b: int) -> bool {
        &&& model.fusable(node, c, b)
        &&& forall|i: int| 0 <= i < self.block_shape@.len() ==> #[trigger] self.block_shape@[i] >= 0
        &&& model.nodes@[b].op->BatchToSpace_0.undoes(self)
    }

    /// Proposes to fuse `node` (this operator), its one consumer, a
    /// convolution, and that one's one consumer, a batch-to-space that
    /// undoes this operator, into a single convolution dilated by the block
    /// shape. `None` when the chain does not match.
    pub fn declutter(&self, model: &TypedModel, node: usize) -> (r: Option<TypedModelPatch>)
        ensures
            r is Some <==> exists|c: int, b: int| self.fuses(model, node as int, c, b),
            r matches Some(p) ==> exists|c: int, b: int| {
                &&& #[trigger] self.fuses(model, node as int, c, b)
                &&& p.tap == model.nodes@[node as int].inputs@[0]
                &&& p.shunt == (OutletId { node: b as usize, slot: 0 })
                &&& p.name == model.nodes@[c].name
                &&& model.nodes@[c].op->Conv_0.with_dilations(&p.op, self.block_shape@.map_values(|i: i32| i as usize))
            },
    {
        if node >= model.nodes.len() || model.nodes[node].inputs.len() == 0 || !blocks_nonneg(&self.block_shape) {
            return None;
        }
        let c = match model.single_succ(node) {
            Some(c) => c,
            None => {
                return None;
            },
        };
        let b = match model.single_succ(c) {
            Some(b) => b,
            None => {
                proof {
                    assert forall|c2: int, b2: int| !self.fuses(model, node as int, c2, b2) by {
                        if model.fusable(node as int, c2, b2) {
                            model.lemma_single_succ_unique(node as int, c as int, c2);
                        }
                    }
                }
                return None;
            },
        };
        proof {
            assert forall|c2: int, b2: int| model.fusable(node as int, c2, b2) implies c2 == c && b2 == b by {
                model.lemma_single_succ_unique(node as int, c as int, c2);
                model.lemma_single_succ_unique(c as int, b as int, b2);
            }
        }
        assert(c < model.nodes@.len() && b < model.nodes@.len()) by {
            let sc = choose|slot: int| #[trigger] model.consumes(c as int, slot, node as int)
                && forall|j2: int, s2: int| #[trigger] model.consumes(j2, s2, node as int) ==> j2 == c && s2 == slot;
            let sb = choose|slot: int| #[trigger] model.consumes(b as int, slot, c as int)
                && forall|j2: int, s2: int| #[trigger] model.consumes(j2, s2, c as int) ==> j2 == b && s2 == slot;
        }
        match (&model.nodes[c].op, &model.nodes[b].op) {
            (Op::Conv(conv), Op::BatchToSpace(b2s)) => {
                if !b2s.matches(self) {
                    return None;
                }
                let d = block_as_dilations(&self.block_shape);
                assert(d@ =~= self.block_shape@.map_values(|i: i32| i as usize));
                let op = conv.dilated(d);
                let tap = model.nodes[node].inputs[0];
                let shunt = OutletId { node: b, slot: 0 };
                assert(self.fuses(model, node as int, c as int, b as int));
                Some(TypedModelPatch { tap, name: model.nodes[c].name.clone(), op, shunt })
            },
            _ => None,
        }
    }
}

} // verus!
