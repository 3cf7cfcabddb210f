use tract_ops::dim::Dim;
use tract_ops::error::TractError;
use tract_ops::fact::DatumType;
use tract_ops::graph_def::{FunctionDefLibrary, GraphDef, NodeDef, VersionDef};
use tract_ops::model::{
    ConvUnary, DataFormat, KernelFormat, Node, Op, OutletId, PaddingSpec, PoolSpec, TypedModel,
};
use tract_ops::padding::PaddingStrat;
use tract_ops::s2b::{BatchToSpaceUnary, SpaceToBatchUnary};

fn s2b() -> SpaceToBatchUnary {
    let space = vec![Dim::from_int(1), Dim::from_int(1), Dim::from_int(5)];
    let batch = vec![Dim::from_int(2), Dim::from_int(1), Dim::from_int(3)];
    SpaceToBatchUnary::new(DatumType::F32, space, batch, vec![2], vec![PaddingStrat::FlexFixed(0)])
}

fn b2s() -> BatchToSpaceUnary {
    let space = vec![Dim::from_int(1), Dim::from_int(1), Dim::from_int(5)];
    let batch = vec![Dim::from_int(2), Dim::from_int(1), Dim::from_int(3)];
    BatchToSpaceUnary::new(DatumType::F32, batch, space, vec![2], vec![PaddingStrat::FlexFixed(0)])
}

fn conv() -> ConvUnary {
    ConvUnary {
        pool_spec: PoolSpec {
            data_format: DataFormat::NCHW,
            padding: PaddingSpec::Valid,
            strides: Some(vec![1]),
            kernel_shape: vec![3],
            output_channel_override: None,
            dilations: None,
        },
        kernel_fmt: KernelFormat::OIHW,
        kernel: vec![1, 2, 3],
        group: 1,
    }
}

fn node(name: &str, op: Op, inputs: Vec<OutletId>) -> Node {
    Node { name: name.to_string(), op, inputs }
}

fn chain() -> TypedModel {
    TypedModel {
        nodes: vec![
            node("input", Op::Source, vec![]),
            node("s2b", Op::SpaceToBatch(s2b()), vec![OutletId::new(0, 0)]),
            node("conv", Op::Conv(conv()), vec![OutletId::new(1, 0)]),
            node("b2s", Op::BatchToSpace(b2s()), vec![OutletId::new(2, 0)]),
            node("relu", Op::Other("Relu".to_string()), vec![OutletId::new(3, 0)]),
        ],
        inputs: vec![OutletId::new(0, 0)],
        outputs: vec![OutletId::new(4, 0)],
    }
}

#[test]
fn single_succ_of_chain() {
    let m = chain();
    assert_eq!(m.single_succ(1), Some(2));
    assert_eq!(m.single_succ(4), None);
    let mut m2 = chain();
    m2.nodes.push(node("other", Op::Other("Neg".to_string()), vec![OutletId::new(2, 0)]));
    assert_eq!(m2.single_succ(2), None);
}

#[test]
fn declutter_fuses_chain() {
    let m = chain();
    let patch = s2b().declutter(&m, 1).unwrap();
    assert_eq!(patch.tap, OutletId::new(0, 0));
    assert_eq!(patch.shunt, OutletId::new(3, 0));
    assert_eq!(patch.name, "conv");
    assert_eq!(patch.op.pool_spec.dilations, Some(vec![2]));
    assert_eq!(patch.op.pool_spec.strides, Some(vec![1]));
    assert_eq!(patch.op.pool_spec.kernel_shape, vec![3]);
    assert_eq!(patch.op.kernel, vec![1, 2, 3]);
    assert_eq!(patch.op.group, 1);
}

#[test]
fn declutter_no_match() {
    let mut m = chain();
    m.nodes[3] = node("b2s", Op::Other("Identity".to_string()), vec![OutletId::new(2, 0)]);
    assert!(s2b().declutter(&m, 1).is_none());
    let mut m2 = chain();
    m2.nodes.push(node("spy", Op::Other("Neg".to_string()), vec![OutletId::new(2, 0)]));
    assert!(s2b().declutter(&m2, 1).is_none());
    assert!(s2b().declutter(&chain(), 9).is_none());
}

#[test]
fn apply_patch_rewires_consumers() {
    let mut m = chain();
    let patch = s2b().declutter(&m, 1).unwrap();
    let id = m.apply_patch(patch).unwrap();
    assert_eq!(id, 5);
    assert_eq!(m.nodes.len(), 6);
    assert_eq!(m.nodes[4].inputs, vec![OutletId::new(5, 0)]);
    assert_eq!(m.nodes[5].inputs, vec![OutletId::new(0, 0)]);
    assert_eq!(m.nodes[5].name, "conv");
    assert_eq!(m.inputs, vec![OutletId::new(0, 0)]);
    assert_eq!(m.outputs, vec![OutletId::new(4, 0)]);
}

#[test]
fn apply_patch_redirects_model_output() {
    let mut m = chain();
    m.nodes.pop();
    m.outputs = vec![OutletId::new(3, 0)];
    let patch = s2b().declutter(&m, 1).unwrap();
    m.apply_patch(patch).unwrap();
    assert_eq!(m.outputs, vec![OutletId::new(4, 0)]);
}

#[test]
fn apply_patch_unresolvable() {
    let mut m = chain();
    let mut patch = s2b().declutter(&m, 1).unwrap();
    patch.shunt = OutletId::new(42, 0);
    assert_eq!(m.apply_patch(patch), Err(TractError::PatchUnresolvable));
    assert_eq!(m.nodes.len(), 5);
}

#[test]
fn graph_def_fields() {
    let mut g = GraphDef::new();
    assert!(!g.has_versions());
    assert_eq!(g.get_versions().producer, 0);
    g.mut_versions().producer = 27;
    assert!(g.has_versions());
    assert_eq!(g.get_versions().producer, 27);
    let v = g.take_versions();
    assert_eq!(v.producer, 27);
    assert!(!g.has_versions());
    g.set_versions(VersionDef { producer: 3, min_consumer: 1, bad_consumers: vec![2] });
    assert_eq!(g.get_versions().bad_consumers, vec![2]);
    g.clear_versions();
    assert!(!g.has_versions());

    g.set_version(5);
    assert_eq!(g.get_version(), 5);
    g.clear_version();
    assert_eq!(g.get_version(), 0);

    assert!(!g.has_library());
    g.mut_library().function.push("f".to_string());
    assert_eq!(g.get_library().function, vec!["f".to_string()]);
    g.set_library(FunctionDefLibrary { function: vec![] });
    assert!(g.has_library());
    assert!(g.take_library().function.is_empty());
    assert!(!g.has_library());
    g.set_library(FunctionDefLibrary::new());
    g.clear_library();
    assert!(!g.has_library());
}

#[test]
fn graph_def_nodes() {
    let mut g = GraphDef::new();
    let n = NodeDef { name: "a".to_string(), op: "Const".to_string(), input: vec![] };
    g.set_node(vec![n]);
    assert_eq!(g.get_node().len(), 1);
    g.mut_node().push(NodeDef { name: "b".to_string(), op: "Relu".to_string(), input: vec!["a".to_string()] });
    assert_eq!(g.get_node()[1].input, vec!["a".to_string()]);
    let taken = g.take_node();
    assert_eq!(taken.len(), 2);
    assert!(g.get_node().is_empty());
    g.set_node(taken);
    g.clear_node();
    assert!(g.get_node().is_empty());
    g.set_node(vec![NodeDef { name: "c".to_string(), op: "Const".to_string(), input: vec![] }]);
    g.set_version(9);
    g.set_library(FunctionDefLibrary::new());
    g.set_versions(VersionDef::new());
    g.clear();
    assert!(g.get_node().is_empty());
    assert_eq!(g.get_version(), 0);
    assert!(!g.has_library());
    assert!(!g.has_versions());
}

#[test]
fn graph_descriptor_decodes() {
    let d = tract_ops::descriptor::file_descriptor_proto().unwrap();
    assert_eq!(d.get_name(), "tensorflow/core/framework/graph.proto");
    assert_eq!(d.get_package(), "tensorflow");
    assert_eq!(d.get_message_type()[0].get_name(), "GraphDef");
    assert_eq!(tract_ops::descriptor::file_descriptor_proto_data().len(), 488);
}

#[test]
fn declutter_needs_matching_batch_to_space() {
    let mut m = chain();
    let space = vec![Dim::from_int(1), Dim::from_int(1), Dim::from_int(5)];
    let batch = vec![Dim::from_int(2), Dim::from_int(1), Dim::from_int(3)];
    let other = BatchToSpaceUnary::new(DatumType::F32, batch.clone(), space.clone(), vec![3], vec![PaddingStrat::FlexFixed(0)]);
    m.nodes[3] = node("b2s", Op::BatchToSpace(other), vec![OutletId::new(2, 0)]);
    assert!(s2b().declutter(&m, 1).is_none());
    let wider = vec![Dim::from_int(1), Dim::from_int(1), Dim::from_int(6)];
    let other2 = BatchToSpaceUnary::new(DatumType::F32, batch, wider, vec![2], vec![PaddingStrat::FlexFixed(0)]);
    m.nodes[3] = node("b2s", Op::BatchToSpace(other2), vec![OutletId::new(2, 0)]);
    assert!(s2b().declutter(&m, 1).is_none());
}

#[test]
fn declutter_rejects_negative_block() {
    let space = vec![Dim::from_int(1), Dim::from_int(1), Dim::from_int(5)];
    let batch = vec![Dim::from_int(2), Dim::from_int(1), Dim::from_int(3)];
    let neg = SpaceToBatchUnary::new(DatumType::F32, space.clone(), batch.clone(), vec![-2], vec![PaddingStrat::FlexFixed(0)]);
    let mut m = chain();
    let b = BatchToSpaceUnary::new(DatumType::F32, batch, space, vec![-2], vec![PaddingStrat::FlexFixed(0)]);
    m.nodes[3] = node("b2s", Op::BatchToSpace(b), vec![OutletId::new(2, 0)]);
    assert!(neg.declutter(&m, 1).is_none());
}

#[test]
fn apply_patch_rejects_missing_slot() {
    let mut m = chain();
    let mut patch = s2b().declutter(&m, 1).unwrap();
    patch.tap = OutletId::new(0, 1);
    assert_eq!(m.apply_patch(patch), Err(TractError::PatchUnresolvable));
    assert_eq!(m.nodes.len(), 5);
    assert_eq!(m.outputs, vec![OutletId::new(4, 0)]);
}
