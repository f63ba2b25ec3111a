use glenside::language::{
    AccessPatternData, AnalysisError, ComputeType, Language, MyAnalysis, MyAnalysisData, PadType,
};

fn push_node(analysis: &MyAnalysis, egraph: &mut Vec<MyAnalysisData>, node: Language) -> usize {
    let data = analysis.make(egraph, &node).unwrap();
    egraph.push(data);
    egraph.len() - 1
}

fn sym(analysis: &MyAnalysis, egraph: &mut Vec<MyAnalysisData>, name: &str) -> usize {
    push_node(analysis, egraph, Language::Symbol(name.to_string()))
}

fn num(analysis: &MyAnalysis, egraph: &mut Vec<MyAnalysisData>, value: usize) -> usize {
    push_node(analysis, egraph, Language::Usize(value))
}

fn access_pattern(egraph: &Vec<MyAnalysisData>, id: usize) -> &AccessPatternData {
    match &egraph[id] {
        MyAnalysisData::AccessPattern(a) => a,
        _ => panic!("expected an access pattern"),
    }
}

fn accessed(
    analysis: &MyAnalysis,
    egraph: &mut Vec<MyAnalysisData>,
    name: &str,
    dim: usize,
) -> usize {
    let t = sym(analysis, egraph, name);
    let at = push_node(analysis, egraph, Language::AccessTensor(t));
    let d = num(analysis, egraph, dim);
    push_node(analysis, egraph, Language::Access(at, d))
}

fn computed(
    analysis: &MyAnalysis,
    egraph: &mut Vec<MyAnalysisData>,
    kind: ComputeType,
    name: &str,
    dim: usize,
) -> usize {
    let acc = accessed(analysis, egraph, name, dim);
    let ct = push_node(analysis, egraph, Language::ComputeType(kind));
    push_node(analysis, egraph, Language::Compute(ct, acc))
}

fn compute_err(
    analysis: &MyAnalysis,
    egraph: &mut Vec<MyAnalysisData>,
    kind: ComputeType,
    name: &str,
    dim: usize,
) -> Result<MyAnalysisData, AnalysisError> {
    let acc = accessed(analysis, egraph, name, dim);
    let ct = push_node(analysis, egraph, Language::ComputeType(kind));
    analysis.make(egraph, &Language::Compute(ct, acc))
}

#[test]
fn compute_dot_product() {
    let analysis = MyAnalysis::default();
    let mut egraph: Vec<MyAnalysisData> = Vec::new();
    let id = computed(&analysis, &mut egraph, ComputeType::DotProduct, "t-3-32-32", 0);
    let a = access_pattern(&egraph, id);
    assert_eq!(a.shape, Vec::<usize>::new());
    assert_eq!(a.item_shape, Vec::<usize>::new());

    let id = computed(&analysis, &mut egraph, ComputeType::DotProduct, "t-3-32-32", 1);
    let a = access_pattern(&egraph, id);
    assert_eq!(a.shape, vec![3]);
    assert_eq!(a.item_shape, Vec::<usize>::new());

    let id = computed(&analysis, &mut egraph, ComputeType::DotProduct, "t-3-32-32", 2);
    let a = access_pattern(&egraph, id);
    assert_eq!(a.shape, vec![3, 32]);
    assert_eq!(a.item_shape, Vec::<usize>::new());
}

#[test]
fn compute_dot_product_panic() {
    let analysis = MyAnalysis::default();
    let mut egraph: Vec<MyAnalysisData> = Vec::new();
    let r = compute_err(&analysis, &mut egraph, ComputeType::DotProduct, "t-3-32-32", 3);
    assert!(matches!(r, Err(AnalysisError::ShapeMismatch)));
}

#[test]
fn compute_reduce_sum_0() {
    let analysis = MyAnalysis::default();
    let mut egraph: Vec<MyAnalysisData> = Vec::new();
    let id = computed(&analysis, &mut egraph, ComputeType::ReduceSum, "t-3-32-32", 0);
    let a = access_pattern(&egraph, id);
    assert_eq!(a.shape, Vec::<usize>::new());
    assert_eq!(a.item_shape, Vec::<usize>::new());
}

#[test]
fn compute_reduce_sum_1() {
    let analysis = MyAnalysis::default();
    let mut egraph: Vec<MyAnalysisData> = Vec::new();
    let id = computed(&analysis, &mut egraph, ComputeType::ReduceSum, "t-3-32-32", 2);
    let a = access_pattern(&egraph, id);
    assert_eq!(a.shape, vec![3, 32]);
    assert_eq!(a.item_shape, Vec::<usize>::new());
}

#[test]
fn compute_reduce_max_0() {
    let analysis = MyAnalysis::default();
    let mut egraph: Vec<MyAnalysisData> = Vec::new();
    let id = computed(&analysis, &mut egraph, ComputeType::ReduceMax, "t-3-32-32", 0);
    let a = access_pattern(&egraph, id);
    assert_eq!(a.shape, Vec::<usize>::new());
    assert_eq!(a.item_shape, Vec::<usize>::new());
}

#[test]
fn compute_reduce_max_1() {
    let analysis = MyAnalysis::default();
    let mut egraph: Vec<MyAnalysisData> = Vec::new();
    let id = computed(&analysis, &mut egraph, ComputeType::ReduceMax, "t-3-32-32", 2);
    let a = access_pattern(&egraph, id);
    assert_eq!(a.shape, vec![3, 32]);
    assert_eq!(a.item_shape, Vec::<usize>::new());
}

#[test]
fn compute_reduce_mean_0() {
    let analysis = MyAnalysis::default();
    let mut egraph: Vec<MyAnalysisData> = Vec::new();
    let id = computed(&analysis, &mut egraph, ComputeType::ReduceMean, "t-3-32-32", 0);
    let a = access_pattern(&egraph, id);
    assert_eq!(a.shape, Vec::<usize>::new());
    assert_eq!(a.item_shape, Vec::<usize>::new());
}

#[test]
fn compute_reduce_mean_1() {
    let analysis = MyAnalysis::default();
    let mut egraph: Vec<MyAnalysisData> = Vec::new();
    let id = computed(&analysis, &mut egraph, ComputeType::ReduceMean, "t-3-32-32", 2);
    let a = access_pattern(&egraph, id);
    assert_eq!(a.shape, vec![3, 32]);
    assert_eq!(a.item_shape, Vec::<usize>::new());
}

#[test]
fn compute_relu() {
    let analysis = MyAnalysis::default();
    let mut egraph: Vec<MyAnalysisData> = Vec::new();
    let id = computed(&analysis, &mut egraph, ComputeType::ReLU, "t-32-32", 0);
    let a = access_pattern(&egraph, id);
    assert_eq!(a.shape, Vec::<usize>::new());
    assert_eq!(a.item_shape, vec![32, 32]);
}

#[test]
fn compute_sqrt() {
    let analysis = MyAnalysis::default();
    let mut egraph: Vec<MyAnalysisData> = Vec::new();
    let id = computed(&analysis, &mut egraph, ComputeType::Sqrt, "t-32-32", 0);
    let a = access_pattern(&egraph, id);
    assert_eq!(a.shape, Vec::<usize>::new());
    assert_eq!(a.item_shape, vec![32, 32]);
}

#[test]
fn compute_negative() {
    let analysis = MyAnalysis::default();
    let mut egraph: Vec<MyAnalysisData> = Vec::new();
    let id = computed(&analysis, &mut egraph, ComputeType::Negative, "t-32-32", 0);
    let a = access_pattern(&egraph, id);
    assert_eq!(a.shape, Vec::<usize>::new());
    assert_eq!(a.item_shape, vec![32, 32]);
}

#[test]
fn compute_elementwise_add_0() {
    let analysis = MyAnalysis::default();
    let mut egraph: Vec<MyAnalysisData> = Vec::new();
    let id = computed(&analysis, &mut egraph, ComputeType::ElementwiseAdd, "t-3-32-32", 0);
    let a = access_pattern(&egraph, id);
    assert_eq!(a.shape, Vec::<usize>::new());
    assert_eq!(a.item_shape, vec![32, 32]);
}

#[test]
fn compute_elementwise_add_1() {
    let analysis = MyAnalysis::default();
    let mut egraph: Vec<MyAnalysisData> = Vec::new();
    let id = computed(&analysis, &mut egraph, ComputeType::ElementwiseAdd, "t-3-32-32", 1);
    let a = access_pattern(&egraph, id);
    assert_eq!(a.shape, vec![3]);
    assert_eq!(a.item_shape, vec![32]);
}

#[test]
fn compute_elementwise_add_2() {
    let analysis = MyAnalysis::default();
    let mut egraph: Vec<MyAnalysisData> = Vec::new();
    let id = computed(&analysis, &mut egraph, ComputeType::ElementwiseAdd, "t-3-32-32", 2);
    let a = access_pattern(&egraph, id);
    assert_eq!(a.shape, vec![3, 32]);
    assert_eq!(a.item_shape, Vec::<usize>::new());
}

#[test]
fn compute_elementwise_add_panic() {
    let analysis = MyAnalysis::default();
    let mut egraph: Vec<MyAnalysisData> = Vec::new();
    let r = compute_err(&analysis, &mut egraph, ComputeType::ElementwiseAdd, "t-3-32-32", 3);
    assert!(matches!(r, Err(AnalysisError::ShapeMismatch)));
}

#[test]
fn compute_elementwise_mul_0() {
    let analysis = MyAnalysis::default();
    let mut egraph: Vec<MyAnalysisData> = Vec::new();
    let id = computed(&analysis, &mut egraph, ComputeType::ElementwiseMul, "t-3-32-32", 0);
    let a = access_pattern(&egraph, id);
    assert_eq!(a.shape, Vec::<usize>::new());
    assert_eq!(a.item_shape, vec![32, 32]);
}

#[test]
fn compute_elementwise_mul_1() {
    let analysis = MyAnalysis::default();
    let mut egraph: Vec<MyAnalysisData> = Vec::new();
    let id = computed(&analysis, &mut egraph, ComputeType::ElementwiseMul, "t-3-32-32", 1);
    let a = access_pattern(&egraph, id);
    assert_eq!(a.shape, vec![3]);
    assert_eq!(a.item_shape, vec![32]);
}

#[test]
fn compute_elementwise_mul_2() {
    let analysis = MyAnalysis::default();
    let mut egraph: Vec<MyAnalysisData> = Vec::new();
    let id = computed(&analysis, &mut egraph, ComputeType::ElementwiseMul, "t-3-32-32", 2);
    let a = access_pattern(&egraph, id);
    assert_eq!(a.shape, vec![3, 32]);
    assert_eq!(a.item_shape, Vec::<usize>::new());
}

#[test]
fn compute_elementwise_mul_panic() {
    let analysis = MyAnalysis::default();
    let mut egraph: Vec<MyAnalysisData> = Vec::new();
    let r = compute_err(&analysis, &mut egraph, ComputeType::ElementwiseMul, "t-3-32-32", 3);
    assert!(matches!(r, Err(AnalysisError::ShapeMismatch)));
}

#[test]
fn compute_elementwise_div() {
    let analysis = MyAnalysis::default();
    let mut egraph: Vec<MyAnalysisData> = Vec::new();
    let id = computed(&analysis, &mut egraph, ComputeType::ElementwiseDiv, "t-3-32-32", 0);
    let a = access_pattern(&egraph, id);
    assert_eq!(a.shape, Vec::<usize>::new());
    assert_eq!(a.item_shape, vec![32, 32]);
}

#[test]
fn compute_softmax_0() {
    let analysis = MyAnalysis::default();
    let mut egraph: Vec<MyAnalysisData> = Vec::new();
    let r = compute_err(&analysis, &mut egraph, ComputeType::Softmax, "t-3-32-32", 3);
    assert!(matches!(r, Err(AnalysisError::ShapeMismatch)));
}

#[test]
fn compute_softmax_1() {
    let analysis = MyAnalysis::default();
    let mut egraph: Vec<MyAnalysisData> = Vec::new();
    let r = compute_err(&analysis, &mut egraph, ComputeType::Softmax, "t-3-32-32", 0);
    assert!(matches!(r, Err(AnalysisError::ShapeMismatch)));
}

#[test]
fn compute_softmax_2() {
    let analysis = MyAnalysis::default();
    let mut egraph: Vec<MyAnalysisData> = Vec::new();
    let id = computed(&analysis, &mut egraph, ComputeType::Softmax, "t-3-32-32", 2);
    let a = access_pattern(&egraph, id);
    assert_eq!(a.shape, vec![3, 32]);
    assert_eq!(a.item_shape, vec![32]);
}

#[test]
fn zero_padding() {
    let analysis = MyAnalysis::default();
    let mut egraph: Vec<MyAnalysisData> = Vec::new();
    let id = push_node(&analysis, &mut egraph, Language::PadType(PadType::ZeroPadding));
    match &egraph[id] {
        MyAnalysisData::PadType(PadType::ZeroPadding) => (),
        _ => panic!(),
    };
}

#[test]
fn literal_0() {
    let analysis = MyAnalysis::default();
    let mut egraph: Vec<MyAnalysisData> = Vec::new();
    let f = push_node(
        &analysis,
        &mut egraph,
        Language::NotNanFloat64(0.1234f64.to_bits()),
    );
    let id = push_node(&analysis, &mut egraph, Language::Literal(f));
    match &egraph[id] {
        MyAnalysisData::Literal(bits) => {
            assert_eq!(*bits, 0.1234f64.to_bits());
        },
        _ => panic!(),
    }
}

#[test]
fn access_literal() {
    let analysis = MyAnalysis::default();
    let mut egraph: Vec<MyAnalysisData> = Vec::new();
    let f = push_node(
        &analysis,
        &mut egraph,
        Language::NotNanFloat64(0.1234f64.to_bits()),
    );
    let lit = push_node(&analysis, &mut egraph, Language::Literal(f));
    let id = push_node(&analysis, &mut egraph, Language::AccessLiteral(lit));
    let a = access_pattern(&egraph, id);
    assert_eq!(a.shape, Vec::<usize>::new());
    assert_eq!(a.item_shape, Vec::<usize>::new());
}
