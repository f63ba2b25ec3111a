use glenside::language::{AccessPatternData, AnalysisError, Language, MyAnalysis, MyAnalysisData};

fn push_node(analysis: &MyAnalysis, egraph: &mut Vec<MyAnalysisData>, node: Language) -> usize {
    let data = analysis.make(egraph, &node).unwrap();
    egraph.push(data);
    egraph.len() - 1
}

fn sym(analysis: &MyAnalysis, egraph: &mut Vec<MyAnalysisData>, name: &str) -> usize {
    push_node(analysis, egraph, Language::Symbol(name.to_string()))
}

fn num(analysis: &MyAnalysis, egraph: &mut Vec<MyAnalysisData>, value: usize) -> usize {
    push_node(analysis, egraph, Language::Usize(value))
}

fn access_pattern(egraph: &Vec<MyAnalysisData>, id: usize) -> &AccessPatternData {
    match &egraph[id] {
        MyAnalysisData::AccessPattern(a) => a,
        _ => panic!("expected an access pattern"),
    }
}

fn shape_literal(analysis: &MyAnalysis, egraph: &mut Vec<MyAnalysisData>, dims: &[usize]) -> usize {
    let ids: Vec<usize> = dims.iter().map(|d| num(analysis, egraph, *d)).collect();
    push_node(analysis, egraph, Language::Shape(ids))
}

fn accessed(
    analysis: &MyAnalysis,
    egraph: &mut Vec<MyAnalysisData>,
    name: &str,
    dim: usize,
) -> usize {
    let t = sym(analysis, egraph, name);
    let at = push_node(analysis, egraph, Language::AccessTensor(t));
    let d = num(analysis, egraph, dim);
    push_node(analysis, egraph, Language::Access(at, d))
}

#[test]
fn access_cartesian_product() {
    let analysis = MyAnalysis::default();
    let mut egraph: Vec<MyAnalysisData> = Vec::new();
    let v = accessed(&analysis, &mut egraph, "v-32", 0);
    let t = accessed(&analysis, &mut egraph, "t-32-32", 1);
    let id = push_node(&analysis, &mut egraph, Language::AccessCartesianProduct(v, t));
    let a = access_pattern(&egraph, id);
    assert_eq!(a.shape, vec![32]);
    assert_eq!(a.item_shape, vec![2, 32]);

    let analysis = MyAnalysis::default();
    let mut egraph: Vec<MyAnalysisData> = Vec::new();
    let t = accessed(&analysis, &mut egraph, "t-32-32", 1);
    let v = accessed(&analysis, &mut egraph, "v-32", 0);
    let id = push_node(&analysis, &mut egraph, Language::AccessCartesianProduct(t, v));
    let a = access_pattern(&egraph, id);
    assert_eq!(a.shape, vec![32]);
    assert_eq!(a.item_shape, vec![2, 32]);
}

#[test]
fn access_pair() {
    let analysis = MyAnalysis::default();
    let mut egraph: Vec<MyAnalysisData> = Vec::new();
    let a0 = accessed(&analysis, &mut egraph, "t-32-32", 1);
    let a1 = accessed(&analysis, &mut egraph, "t-32-32", 1);
    let id = push_node(&analysis, &mut egraph, Language::AccessPair(a0, a1));
    let a = access_pattern(&egraph, id);
    assert_eq!(a.shape, vec![32]);
    assert_eq!(a.item_shape, vec![2, 32]);
}

#[test]
fn access_pair_panic() {
    let analysis = MyAnalysis::default();
    let mut egraph: Vec<MyAnalysisData> = Vec::new();
    let a0 = accessed(&analysis, &mut egraph, "t-32-32", 0);
    let a1 = accessed(&analysis, &mut egraph, "t-32-32", 1);
    let r = analysis.make(&egraph, &Language::AccessPair(a0, a1));
    assert!(matches!(r, Err(AnalysisError::ShapeMismatch)));
}

#[test]
fn access_slice_0() {
    let analysis = MyAnalysis::default();
    let mut egraph: Vec<MyAnalysisData> = Vec::new();
    let acc = accessed(&analysis, &mut egraph, "t-3-32-32", 1);
    let axis = num(&analysis, &mut egraph, 0);
    let low = num(&analysis, &mut egraph, 0);
    let high = num(&analysis, &mut egraph, 1);
    let id = push_node(&analysis, &mut egraph, Language::AccessSlice(acc, axis, low, high));
    let a = access_pattern(&egraph, id);
    assert_eq!(a.shape, vec![1]);
    assert_eq!(a.item_shape, vec![32, 32]);
}

#[test]
fn access_slice_1() {
    let analysis = MyAnalysis::default();
    let mut egraph: Vec<MyAnalysisData> = Vec::new();
    let acc = accessed(&analysis, &mut egraph, "t-3-32-32", 1);
    let axis = num(&analysis, &mut egraph, 1);
    let low = num(&analysis, &mut egraph, 16);
    let high = num(&analysis, &mut egraph, 32);
    let id = push_node(&analysis, &mut egraph, Language::AccessSlice(acc, axis, low, high));
    let a = access_pattern(&egraph, id);
    assert_eq!(a.shape, vec![3]);
    assert_eq!(a.item_shape, vec![16, 32]);
}

#[test]
fn access_slice_2() {
    let analysis = MyAnalysis::default();
    let mut egraph: Vec<MyAnalysisData> = Vec::new();
    let acc = accessed(&analysis, &mut egraph, "t-3-32-32", 2);
    let axis = num(&analysis, &mut egraph, 2);
    let low = num(&analysis, &mut egraph, 16);
    let high = num(&analysis, &mut egraph, 32);
    let id = push_node(&analysis, &mut egraph, Language::AccessSlice(acc, axis, low, high));
    let a = access_pattern(&egraph, id);
    assert_eq!(a.shape, vec![3, 32]);
    assert_eq!(a.item_shape, vec![16]);
}

#[test]
fn access_slice_panic() {
    let analysis = MyAnalysis::default();
    let mut egraph: Vec<MyAnalysisData> = Vec::new();
    let acc = accessed(&analysis, &mut egraph, "t-3-32-32", 1);
    let axis = num(&analysis, &mut egraph, 3);
    let low = num(&analysis, &mut egraph, 16);
    let high = num(&analysis, &mut egraph, 32);
    let r = analysis.make(&egraph, &Language::AccessSlice(acc, axis, low, high));
    assert!(matches!(r, Err(AnalysisError::OutOfRange)));
}

#[test]
fn access_concatenate_0() {
    let analysis = MyAnalysis::default();
    let mut egraph: Vec<MyAnalysisData> = Vec::new();
    let a0 = accessed(&analysis, &mut egraph, "t-3-32-32", 1);
    let a1 = accessed(&analysis, &mut egraph, "t-3-32-32", 1);
    let axis = num(&analysis, &mut egraph, 0);
    let id = push_node(&analysis, &mut egraph, Language::AccessConcatenate(a0, a1, axis));
    let a = access_pattern(&egraph, id);
    assert_eq!(a.shape, vec![6]);
    assert_eq!(a.item_shape, vec![32, 32]);
}

#[test]
fn access_concatenate_1() {
    let analysis = MyAnalysis::default();
    let mut egraph: Vec<MyAnalysisData> = Vec::new();
    let a0 = accessed(&analysis, &mut egraph, "t-3-32-32", 1);
    let a1 = accessed(&analysis, &mut egraph, "t-3-32-32", 1);
    let axis = num(&analysis, &mut egraph, 2);
    let id = push_node(&analysis, &mut egraph, Language::AccessConcatenate(a0, a1, axis));
    let a = access_pattern(&egraph, id);
    assert_eq!(a.shape, vec![3]);
    assert_eq!(a.item_shape, vec![32, 64]);
}

#[test]
fn access_concatenate_panic_0() {
    let analysis = MyAnalysis::default();
    let mut egraph: Vec<MyAnalysisData> = Vec::new();
    let a0 = accessed(&analysis, &mut egraph, "t-3-32-32", 1);
    let a1 = accessed(&analysis, &mut egraph, "t-3-32-32", 1);
    let axis = num(&analysis, &mut egraph, 3);
    let r = analysis.make(&egraph, &Language::AccessConcatenate(a0, a1, axis));
    assert!(matches!(r, Err(AnalysisError::OutOfRange)));
}

#[test]
fn access_concatenate_panic_1() {
    let analysis = MyAnalysis::default();
    let mut egraph: Vec<MyAnalysisData> = Vec::new();
    let a0 = accessed(&analysis, &mut egraph, "t-3-32-32", 1);
    let a1 = accessed(&analysis, &mut egraph, "t-8-3-3-3", 1);
    let axis = num(&analysis, &mut egraph, 2);
    let r = analysis.make(&egraph, &Language::AccessConcatenate(a0, a1, axis));
    assert!(matches!(r, Err(AnalysisError::ShapeMismatch)));
}

#[test]
fn access_windows() {
    let analysis = MyAnalysis::default();
    let mut egraph: Vec<MyAnalysisData> = Vec::new();
    let acc = accessed(&analysis, &mut egraph, "t-3-32-32", 3);
    let w = sym(&analysis, &mut egraph, "t-8-3-3-3");
    let wsh = push_node(&analysis, &mut egraph, Language::ShapeOf(w));
    let one = num(&analysis, &mut egraph, 1);
    let filters = push_node(&analysis, &mut egraph, Language::SliceShape(wsh, one));
    let stride = shape_literal(&analysis, &mut egraph, &[1, 1, 1]);
    let id = push_node(&analysis, &mut egraph, Language::AccessWindows(acc, filters, stride));
    let a = access_pattern(&egraph, id);
    assert_eq!(a.shape, vec![1, 30, 30]);
    assert_eq!(a.item_shape, vec![3, 3, 3]);

    let analysis = MyAnalysis::default();
    let mut egraph: Vec<MyAnalysisData> = Vec::new();
    let acc = accessed(&analysis, &mut egraph, "t-3-32-32", 3);
    let w = sym(&analysis, &mut egraph, "t-8-3-3-3");
    let wsh = push_node(&analysis, &mut egraph, Language::ShapeOf(w));
    let one = num(&analysis, &mut egraph, 1);
    let filters = push_node(&analysis, &mut egraph, Language::SliceShape(wsh, one));
    let stride = shape_literal(&analysis, &mut egraph, &[1, 2, 1]);
    let id = push_node(&analysis, &mut egraph, Language::AccessWindows(acc, filters, stride));
    let a = access_pattern(&egraph, id);
    assert_eq!(a.shape, vec![1, 15, 30]);
    assert_eq!(a.item_shape, vec![3, 3, 3]);
}

#[test]
fn conv2d() {
    let analysis = MyAnalysis::default();
    let mut egraph: Vec<MyAnalysisData> = Vec::new();
    let weights = accessed(&analysis, &mut egraph, "t-8-3-3-3", 1);
    let image = accessed(&analysis, &mut egraph, "t-3-32-32", 3);
    let w = sym(&analysis, &mut egraph, "t-8-3-3-3");
    let wsh = push_node(&analysis, &mut egraph, Language::ShapeOf(w));
    let one = num(&analysis, &mut egraph, 1);
    let filters = push_node(&analysis, &mut egraph, Language::SliceShape(wsh, one));
    let stride = shape_literal(&analysis, &mut egraph, &[1, 1, 1]);
    let windows = push_node(&analysis, &mut egraph, Language::AccessWindows(image, filters, stride));
    let zero = num(&analysis, &mut egraph, 0);
    let squeezed = push_node(&analysis, &mut egraph, Language::AccessSqueeze(windows, zero));
    let cart = push_node(
        &analysis,
        &mut egraph,
        Language::AccessCartesianProduct(weights, squeezed),
    );
    let dot = push_node(
        &analysis,
        &mut egraph,
        Language::ComputeType(glenside::language::ComputeType::DotProduct),
    );
    let id = push_node(&analysis, &mut egraph, Language::Compute(dot, cart));
    let a = access_pattern(&egraph, id);
    assert_eq!(a.shape, vec![8, 30, 30]);
    assert_eq!(a.item_shape, Vec::<usize>::new());

    let analysis = MyAnalysis::default();
    let mut egraph: Vec<MyAnalysisData> = Vec::new();
    let weights = accessed(&analysis, &mut egraph, "t-8-3-3-3", 1);
    let image = accessed(&analysis, &mut egraph, "t-3-32-32", 3);
    let w = sym(&analysis, &mut egraph, "t-8-3-3-3");
    let wsh = push_node(&analysis, &mut egraph, Language::ShapeOf(w));
    let one = num(&analysis, &mut egraph, 1);
    let filters = push_node(&analysis, &mut egraph, Language::SliceShape(wsh, one));
    let stride = shape_literal(&analysis, &mut egraph, &[1, 1, 2]);
    let windows = push_node(&analysis, &mut egraph, Language::AccessWindows(image, filters, stride));
    let zero = num(&analysis, &mut egraph, 0);
    let squeezed = push_node(&analysis, &mut egraph, Language::AccessSqueeze(windows, zero));
    let cart = push_node(
        &analysis,
        &mut egraph,
        Language::AccessCartesianProduct(weights, squeezed),
    );
    let dot = push_node(
        &analysis,
        &mut egraph,
        Language::ComputeType(glenside::language::ComputeType::DotProduct),
    );
    let id = push_node(&analysis, &mut egraph, Language::Compute(dot, cart));
    let a = access_pattern(&egraph, id);
    assert_eq!(a.shape, vec![8, 30, 15]);
    assert_eq!(a.item_shape, Vec::<usize>::new());
}

#[test]
fn systolic_array() {
    let analysis = MyAnalysis {
        name_to_shape: vec![("a".to_string(), vec![32, 64])],
    };
    let mut egraph: Vec<MyAnalysisData> = Vec::new();
    let rows = num(&analysis, &mut egraph, 64);
    let cols = num(&analysis, &mut egraph, 32);
    let a0 = accessed(&analysis, &mut egraph, "a", 1);
    let t = sym(&analysis, &mut egraph, "a");
    let at = push_node(&analysis, &mut egraph, Language::AccessTensor(t));
    let order_ids = vec![
        num(&analysis, &mut egraph, 1),
        num(&analysis, &mut egraph, 0),
    ];
    let order = push_node(&analysis, &mut egraph, Language::List(order_ids));
    let transposed = push_node(&analysis, &mut egraph, Language::AccessTranspose(at, order));
    let zero = num(&analysis, &mut egraph, 0);
    let a1 = push_node(&analysis, &mut egraph, Language::Access(transposed, zero));
    let id = push_node(&analysis, &mut egraph, Language::SystolicArray(rows, cols, a0, a1));
    let a = access_pattern(&egraph, id);
    assert_eq!(a.shape, vec![32, 32]);
    assert_eq!(a.item_shape, Vec::<usize>::new());
}

#[test]
fn systolic_array_panic_0() {
    let analysis = MyAnalysis {
        name_to_shape: vec![("a".to_string(), vec![32, 64])],
    };
    let mut egraph: Vec<MyAnalysisData> = Vec::new();
    let rows = num(&analysis, &mut egraph, 64);
    let cols = num(&analysis, &mut egraph, 32);
    let a0 = accessed(&analysis, &mut egraph, "a", 1);
    let a1 = accessed(&analysis, &mut egraph, "a", 0);
    let r = analysis.make(&egraph, &Language::SystolicArray(rows, cols, a0, a1));
    assert!(matches!(r, Err(AnalysisError::ShapeMismatch)));
}

#[test]
fn systolic_array_panic_1() {
    let analysis = MyAnalysis {
        name_to_shape: vec![("a".to_string(), vec![32, 64])],
    };
    let mut egraph: Vec<MyAnalysisData> = Vec::new();
    let rows = num(&analysis, &mut egraph, 64);
    let cols = num(&analysis, &mut egraph, 32);
    let _a0 = accessed(&analysis, &mut egraph, "a", 1);
    let t = sym(&analysis, &mut egraph, "a");
    let at = push_node(&analysis, &mut egraph, Language::AccessTensor(t));
    let zero = num(&analysis, &mut egraph, 0);
    let one = num(&analysis, &mut egraph, 1);
    let r = analysis.make(&egraph, &Language::MoveAxis(at, zero, one));
    assert!(matches!(r, Err(AnalysisError::WrongKind)));
}

#[test]
fn systolic_array_with_blocking_0() {
    let analysis = MyAnalysis {
        name_to_shape: vec![
            ("a".to_string(), vec![32, 64]),
            ("b".to_string(), vec![64, 32]),
        ],
    };
    let mut egraph: Vec<MyAnalysisData> = Vec::new();
    let rows = num(&analysis, &mut egraph, 64);
    let cols = num(&analysis, &mut egraph, 32);
    let a0 = accessed(&analysis, &mut egraph, "a", 1);
    let a1 = accessed(&analysis, &mut egraph, "b", 0);
    let id = push_node(
        &analysis,
        &mut egraph,
        Language::SystolicArrayWithBlocking(rows, cols, a0, a1),
    );
    let a = access_pattern(&egraph, id);
    assert_eq!(a.shape, vec![32, 32]);
    assert_eq!(a.item_shape, Vec::<usize>::new());
}

#[test]
fn systolic_array_with_blocking_2() {
    let analysis = MyAnalysis {
        name_to_shape: vec![
            ("a".to_string(), vec![32, 64]),
            ("b".to_string(), vec![64, 32]),
        ],
    };
    let mut egraph: Vec<MyAnalysisData> = Vec::new();
    let rows = num(&analysis, &mut egraph, 32);
    let cols = num(&analysis, &mut egraph, 32);
    let a0 = accessed(&analysis, &mut egraph, "a", 1);
    let a1 = accessed(&analysis, &mut egraph, "b", 0);
    let id = push_node(
        &analysis,
        &mut egraph,
        Language::SystolicArrayWithBlocking(rows, cols, a0, a1),
    );
    let a = access_pattern(&egraph, id);
    assert_eq!(a.shape, vec![32, 32]);
    assert_eq!(a.item_shape, Vec::<usize>::new());
}

#[test]
fn systolic_array_with_blocking_3() {
    let analysis = MyAnalysis {
        name_to_shape: vec![
            ("a".to_string(), vec![32, 64]),
            ("b".to_string(), vec![64, 32]),
        ],
    };
    let mut egraph: Vec<MyAnalysisData> = Vec::new();
    let rows = num(&analysis, &mut egraph, 32);
    let cols = num(&analysis, &mut egraph, 2);
    let a0 = accessed(&analysis, &mut egraph, "a", 1);
    let a1 = accessed(&analysis, &mut egraph, "b", 0);
    let id = push_node(
        &analysis,
        &mut egraph,
        Language::SystolicArrayWithBlocking(rows, cols, a0, a1),
    );
    let a = access_pattern(&egraph, id);
    assert_eq!(a.shape, vec![32, 32]);
    assert_eq!(a.item_shape, Vec::<usize>::new());
}

#[test]
fn systolic_array_with_blocking_panic() {
    let analysis = MyAnalysis {
        name_to_shape: vec![
            ("a".to_string(), vec![32, 64]),
            ("b".to_string(), vec![64, 32]),
        ],
    };
    let mut egraph: Vec<MyAnalysisData> = Vec::new();
    let rows = num(&analysis, &mut egraph, 32);
    let cols = num(&analysis, &mut egraph, 3);
    let a0 = accessed(&analysis, &mut egraph, "a", 1);
    let a1 = accessed(&analysis, &mut egraph, "b", 0);
    let r = analysis.make(&egraph, &Language::SystolicArrayWithBlocking(rows, cols, a0, a1));
    assert!(matches!(r, Err(AnalysisError::ShapeMismatch)));
}
