use glenside::language::{AccessPatternData, AnalysisError, Language, MyAnalysis, MyAnalysisData};

fn push_node(analysis: &MyAnalysis, egraph: &mut Vec<MyAnalysisData>, node: Language) -> usize {
    let data = analysis.make(egraph, &node).unwrap();
    egraph.push(data);
    egraph.len() - 1
}

fn sym(analysis: &MyAnalysis, egraph: &mut Vec<MyAnalysisData>, name: &str) -> usize {
    push_node(analysis, egraph, Language::Symbol(name.to_string()))
}

fn num(analysis: &MyAnalysis, egraph: &mut Vec<MyAnalysisData>, value: usize) -> usize {
    push_node(analysis, egraph, Language::Usize(value))
}

fn access_pattern(egraph: &Vec<MyAnalysisData>, id: usize) -> &AccessPatternData {
    match &egraph[id] {
        MyAnalysisData::AccessPattern(a) => a,
        _ => panic!("expected an access pattern"),
    }
}

fn shape_value(egraph: &Vec<MyAnalysisData>, id: usize) -> &Vec<usize> {
    match &egraph[id] {
        MyAnalysisData::Shape(s) => &s.shape,
        _ => panic!("expected a shape value"),
    }
}

fn shape_literal(analysis: &MyAnalysis, egraph: &mut Vec<MyAnalysisData>, dims: &[usize]) -> usize {
    let ids: Vec<usize> = dims.iter().map(|d| num(analysis, egraph, *d)).collect();
    push_node(analysis, egraph, Language::Shape(ids))
}

fn list_literal(analysis: &MyAnalysis, egraph: &mut Vec<MyAnalysisData>, items: &[usize]) -> usize {
    let ids: Vec<usize> = items.iter().map(|d| num(analysis, egraph, *d)).collect();
    push_node(analysis, egraph, Language::List(ids))
}

#[test]
fn shape_of() {
    let analysis = MyAnalysis::default();
    let mut egraph: Vec<MyAnalysisData> = Vec::new();
    let t = sym(&analysis, &mut egraph, "t-3-32-32");
    let id = push_node(&analysis, &mut egraph, Language::ShapeOf(t));
    assert_eq!(shape_value(&egraph, id), &vec![3, 32, 32]);
}

#[test]
fn slice_shape() {
    let analysis = MyAnalysis::default();
    let mut egraph: Vec<MyAnalysisData> = Vec::new();
    let t = sym(&analysis, &mut egraph, "t-3-32-32");
    let sh = push_node(&analysis, &mut egraph, Language::ShapeOf(t));
    let two = num(&analysis, &mut egraph, 2);
    let id = push_node(&analysis, &mut egraph, Language::SliceShape(sh, two));
    assert_eq!(shape_value(&egraph, id), &vec![32]);

    let zero = num(&analysis, &mut egraph, 0);
    let id = push_node(&analysis, &mut egraph, Language::SliceShape(sh, zero));
    assert_eq!(shape_value(&egraph, id), &vec![3, 32, 32]);
}

#[test]
fn slice_shape_invalid_slice() {
    let analysis = MyAnalysis::default();
    let mut egraph: Vec<MyAnalysisData> = Vec::new();
    let t = sym(&analysis, &mut egraph, "t-3-32-32");
    let sh = push_node(&analysis, &mut egraph, Language::ShapeOf(t));
    let ten = num(&analysis, &mut egraph, 10);
    let r = analysis.make(&egraph, &Language::SliceShape(sh, ten));
    assert!(matches!(r, Err(AnalysisError::OutOfRange)));
}

#[test]
fn shape_insert_axis_0() {
    let analysis = MyAnalysis::default();
    let mut egraph: Vec<MyAnalysisData> = Vec::new();
    let sh = shape_literal(&analysis, &mut egraph, &[1, 2, 3]);
    let two = num(&analysis, &mut egraph, 2);
    let id = push_node(&analysis, &mut egraph, Language::ShapeInsertAxis(sh, two));
    assert_eq!(shape_value(&egraph, id), &vec![1, 2, 1, 3]);
}

#[test]
fn shape_insert_axis_1() {
    let analysis = MyAnalysis::default();
    let mut egraph: Vec<MyAnalysisData> = Vec::new();
    let sh = shape_literal(&analysis, &mut egraph, &[1, 2, 3]);
    let three = num(&analysis, &mut egraph, 3);
    let id = push_node(&analysis, &mut egraph, Language::ShapeInsertAxis(sh, three));
    assert_eq!(shape_value(&egraph, id), &vec![1, 2, 3, 1]);
}

#[test]
fn shape_insert_axis_panic() {
    let analysis = MyAnalysis::default();
    let mut egraph: Vec<MyAnalysisData> = Vec::new();
    let sh = shape_literal(&analysis, &mut egraph, &[1, 2, 3]);
    let four = num(&analysis, &mut egraph, 4);
    let r = analysis.make(&egraph, &Language::ShapeInsertAxis(sh, four));
    assert!(matches!(r, Err(AnalysisError::OutOfRange)));
}

#[test]
fn shape_remove_axis_0() {
    let analysis = MyAnalysis::default();
    let mut egraph: Vec<MyAnalysisData> = Vec::new();
    let sh = shape_literal(&analysis, &mut egraph, &[1, 2, 3]);
    let zero = num(&analysis, &mut egraph, 0);
    let id = push_node(&analysis, &mut egraph, Language::ShapeRemoveAxis(sh, zero));
    assert_eq!(shape_value(&egraph, id), &vec![2, 3]);
}

#[test]
fn shape_remove_axis_1() {
    let analysis = MyAnalysis::default();
    let mut egraph: Vec<MyAnalysisData> = Vec::new();
    let sh = shape_literal(&analysis, &mut egraph, &[1, 2, 3]);
    let one = num(&analysis, &mut egraph, 1);
    let id = push_node(&analysis, &mut egraph, Language::ShapeRemoveAxis(sh, one));
    assert_eq!(shape_value(&egraph, id), &vec![1, 3]);
}

#[test]
fn shape_remove_axis_2() {
    let analysis = MyAnalysis::default();
    let mut egraph: Vec<MyAnalysisData> = Vec::new();
    let sh = shape_literal(&analysis, &mut egraph, &[1, 2, 3]);
    let two = num(&analysis, &mut egraph, 2);
    let id = push_node(&analysis, &mut egraph, Language::ShapeRemoveAxis(sh, two));
    assert_eq!(shape_value(&egraph, id), &vec![1, 2]);
}

#[test]
fn shape_remove_axis_panic() {
    let analysis = MyAnalysis::default();
    let mut egraph: Vec<MyAnalysisData> = Vec::new();
    let sh = shape_literal(&analysis, &mut egraph, &[1, 2, 3]);
    let three = num(&analysis, &mut egraph, 3);
    let r = analysis.make(&egraph, &Language::ShapeRemoveAxis(sh, three));
    assert!(matches!(r, Err(AnalysisError::OutOfRange)));
}

#[test]
fn access() {
    let analysis = MyAnalysis::default();
    let mut egraph: Vec<MyAnalysisData> = Vec::new();
    let t = sym(&analysis, &mut egraph, "t-3-32-32");
    let at = push_node(&analysis, &mut egraph, Language::AccessTensor(t));

    let zero = num(&analysis, &mut egraph, 0);
    let id = push_node(&analysis, &mut egraph, Language::Access(at, zero));
    let a = access_pattern(&egraph, id);
    assert_eq!(a.shape, Vec::<usize>::new());
    assert_eq!(a.item_shape, vec![3, 32, 32]);

    let two = num(&analysis, &mut egraph, 2);
    let id = push_node(&analysis, &mut egraph, Language::Access(at, two));
    let a = access_pattern(&egraph, id);
    assert_eq!(a.shape, vec![3, 32]);
    assert_eq!(a.item_shape, vec![32]);

    let three = num(&analysis, &mut egraph, 3);
    let id = push_node(&analysis, &mut egraph, Language::Access(at, three));
    let a = access_pattern(&egraph, id);
    assert_eq!(a.shape, vec![3, 32, 32]);
    assert_eq!(a.item_shape, Vec::<usize>::new());
}

#[test]
fn reaccess() {
    let analysis = MyAnalysis::default();
    let mut egraph: Vec<MyAnalysisData> = Vec::new();
    let t = sym(&analysis, &mut egraph, "t-3-32-32");
    let at = push_node(&analysis, &mut egraph, Language::AccessTensor(t));
    let three = num(&analysis, &mut egraph, 3);
    let first = push_node(&analysis, &mut egraph, Language::Access(at, three));
    let zero = num(&analysis, &mut egraph, 0);
    let id = push_node(&analysis, &mut egraph, Language::Access(first, zero));
    let a = access_pattern(&egraph, id);
    assert_eq!(a.shape, Vec::<usize>::new());
    assert_eq!(a.item_shape, vec![3, 32, 32]);
}

#[test]
fn access_invalid() {
    let analysis = MyAnalysis::default();
    let mut egraph: Vec<MyAnalysisData> = Vec::new();
    let t = sym(&analysis, &mut egraph, "t-3-32-32");
    let at = push_node(&analysis, &mut egraph, Language::AccessTensor(t));
    let four = num(&analysis, &mut egraph, 4);
    let r = analysis.make(&egraph, &Language::Access(at, four));
    assert!(matches!(r, Err(AnalysisError::OutOfRange)));
}

#[test]
fn list() {
    let analysis = MyAnalysis::default();
    let mut egraph: Vec<MyAnalysisData> = Vec::new();
    let id = list_literal(&analysis, &mut egraph, &[1, 2, 3, 4]);
    match &egraph[id] {
        MyAnalysisData::List(l) => assert_eq!(l, &vec![1, 2, 3, 4]),
        _ => panic!(),
    }
}

#[test]
fn access_shift_right_0() {
    let analysis = MyAnalysis::default();
    let mut egraph: Vec<MyAnalysisData> = Vec::new();
    let t = sym(&analysis, &mut egraph, "t-32-32");
    let at = push_node(&analysis, &mut egraph, Language::AccessTensor(t));
    let two = num(&analysis, &mut egraph, 2);
    let acc = push_node(&analysis, &mut egraph, Language::Access(at, two));
    let id = push_node(&analysis, &mut egraph, Language::AccessShiftRight(acc));
    let a = access_pattern(&egraph, id);
    assert_eq!(a.shape, vec![32]);
    assert_eq!(a.item_shape, vec![32]);
}

#[test]
fn access_shift_right_1() {
    let analysis = MyAnalysis::default();
    let mut egraph: Vec<MyAnalysisData> = Vec::new();
    let t = sym(&analysis, &mut egraph, "t-32-32");
    let at = push_node(&analysis, &mut egraph, Language::AccessTensor(t));
    let one = num(&analysis, &mut egraph, 1);
    let acc = push_node(&analysis, &mut egraph, Language::Access(at, one));
    let id = push_node(&analysis, &mut egraph, Language::AccessShiftRight(acc));
    let a = access_pattern(&egraph, id);
    assert_eq!(a.shape, Vec::<usize>::new());
    assert_eq!(a.item_shape, vec![32, 32]);
}

#[test]
fn access_shift_right_2() {
    let analysis = MyAnalysis::default();
    let mut egraph: Vec<MyAnalysisData> = Vec::new();
    let t = sym(&analysis, &mut egraph, "t-32-32");
    let at = push_node(&analysis, &mut egraph, Language::AccessTensor(t));
    let zero = num(&analysis, &mut egraph, 0);
    let acc = push_node(&analysis, &mut egraph, Language::Access(at, zero));
    let id = push_node(&analysis, &mut egraph, Language::AccessShiftRight(acc));
    let a = access_pattern(&egraph, id);
    assert_eq!(a.shape, Vec::<usize>::new());
    assert_eq!(a.item_shape, vec![32, 32]);
}

#[test]
fn access_squeeze() {
    let analysis = MyAnalysis::default();
    let mut egraph: Vec<MyAnalysisData> = Vec::new();
    let t = sym(&analysis, &mut egraph, "t-1-2-3-4");
    let at = push_node(&analysis, &mut egraph, Language::AccessTensor(t));
    let one = num(&analysis, &mut egraph, 1);
    let acc = push_node(&analysis, &mut egraph, Language::Access(at, one));
    let zero = num(&analysis, &mut egraph, 0);
    let id = push_node(&analysis, &mut egraph, Language::AccessSqueeze(acc, zero));
    let a = access_pattern(&egraph, id);
    assert_eq!(a.shape, Vec::<usize>::new());
    assert_eq!(a.item_shape, vec![2, 3, 4]);
}

#[test]
fn access_squeeze_panic() {
    let analysis = MyAnalysis::default();
    let mut egraph: Vec<MyAnalysisData> = Vec::new();
    let t = sym(&analysis, &mut egraph, "t-1-2-3-4");
    let at = push_node(&analysis, &mut egraph, Language::AccessTensor(t));
    let one = num(&analysis, &mut egraph, 1);
    let acc = push_node(&analysis, &mut egraph, Language::Access(at, one));
    let two = num(&analysis, &mut egraph, 2);
    let r = analysis.make(&egraph, &Language::AccessSqueeze(acc, two));
    assert!(matches!(r, Err(AnalysisError::ShapeMismatch)));
}

#[test]
fn access_insert_axis() {
    let analysis = MyAnalysis::default();
    let mut egraph: Vec<MyAnalysisData> = Vec::new();
    let t = sym(&analysis, &mut egraph, "t-1-2-3-4");
    let at = push_node(&analysis, &mut egraph, Language::AccessTensor(t));
    let one = num(&analysis, &mut egraph, 1);
    let acc = push_node(&analysis, &mut egraph, Language::Access(at, one));
    let zero = num(&analysis, &mut egraph, 0);
    let id = push_node(&analysis, &mut egraph, Language::AccessInsertAxis(acc, zero));
    let a = access_pattern(&egraph, id);
    assert_eq!(a.shape, vec![1, 1]);
    assert_eq!(a.item_shape, vec![2, 3, 4]);
}

#[test]
fn access_insert_axis_panic() {
    let analysis = MyAnalysis::default();
    let mut egraph: Vec<MyAnalysisData> = Vec::new();
    let t = sym(&analysis, &mut egraph, "t-1-2-3-4");
    let at = push_node(&analysis, &mut egraph, Language::AccessTensor(t));
    let one = num(&analysis, &mut egraph, 1);
    let acc = push_node(&analysis, &mut egraph, Language::Access(at, one));
    let five = num(&analysis, &mut egraph, 5);
    let r = analysis.make(&egraph, &Language::AccessSqueeze(acc, five));
    assert!(matches!(r, Err(AnalysisError::OutOfRange)));
}

#[test]
fn access_broadcast() {
    let analysis = MyAnalysis { name_to_shape: Vec::new() };
    let mut egraph: Vec<MyAnalysisData> = Vec::new();
    let t = sym(&analysis, &mut egraph, "t-1-2-3-4");
    let at = push_node(&analysis, &mut egraph, Language::AccessTensor(t));
    let one = num(&analysis, &mut egraph, 1);
    let acc = push_node(&analysis, &mut egraph, Language::Access(at, one));
    let outer = shape_literal(&analysis, &mut egraph, &[2, 2, 3, 4]);
    let inner = shape_literal(&analysis, &mut egraph, &[]);
    let target = push_node(&analysis, &mut egraph, Language::AccessShape(outer, inner));
    let id = push_node(&analysis, &mut egraph, Language::AccessBroadcast(acc, target));
    let a = access_pattern(&egraph, id);
    assert_eq!(a.shape, vec![2]);
    assert_eq!(a.item_shape, vec![2, 3, 4]);
}

#[test]
fn test_cartesian_product_shape() {
    let analysis = MyAnalysis::default();
    let mut egraph: Vec<MyAnalysisData> = Vec::new();
    let v = sym(&analysis, &mut egraph, "v-32");
    let t = sym(&analysis, &mut egraph, "t-32-32");
    let one = num(&analysis, &mut egraph, 1);
    let zero = num(&analysis, &mut egraph, 0);
    let moved = push_node(&analysis, &mut egraph, Language::MoveAxis(t, one, zero));
    let id = push_node(&analysis, &mut egraph, Language::CartesianProduct(v, moved));
    let r = MyAnalysis::get_shape(id, &egraph).unwrap();
    assert_eq!(r, vec![32, 2, 32]);

    let analysis = MyAnalysis::default();
    let mut egraph: Vec<MyAnalysisData> = Vec::new();
    let t = sym(&analysis, &mut egraph, "t-32-32");
    let one = num(&analysis, &mut egraph, 1);
    let zero = num(&analysis, &mut egraph, 0);
    let moved = push_node(&analysis, &mut egraph, Language::MoveAxis(t, one, zero));
    let v = sym(&analysis, &mut egraph, "v-32");
    let id = push_node(&analysis, &mut egraph, Language::CartesianProduct(moved, v));
    let r = MyAnalysis::get_shape(id, &egraph).unwrap();
    assert_eq!(r, vec![32, 2, 32]);
}

#[test]
fn access_transpose_0() {
    let analysis = MyAnalysis::default();
    let mut egraph: Vec<MyAnalysisData> = Vec::new();
    let t = sym(&analysis, &mut egraph, "t-3-32-32");
    let at = push_node(&analysis, &mut egraph, Language::AccessTensor(t));
    let one = num(&analysis, &mut egraph, 1);
    let acc = push_node(&analysis, &mut egraph, Language::Access(at, one));
    let order = list_literal(&analysis, &mut egraph, &[1, 2, 0]);
    let id = push_node(&analysis, &mut egraph, Language::AccessTranspose(acc, order));
    let a = access_pattern(&egraph, id);
    assert_eq!(a.shape, vec![32]);
    assert_eq!(a.item_shape, vec![32, 3]);
}

#[test]
fn access_transpose_4() {
    let analysis = MyAnalysis::default();
    let mut egraph: Vec<MyAnalysisData> = Vec::new();
    let t = sym(&analysis, &mut egraph, "t-3-32-32");
    let at = push_node(&analysis, &mut egraph, Language::AccessTensor(t));
    let one = num(&analysis, &mut egraph, 1);
    let acc = push_node(&analysis, &mut egraph, Language::Access(at, one));
    let order = list_literal(&analysis, &mut egraph, &[1, 0, 2]);
    let id = push_node(&analysis, &mut egraph, Language::AccessTranspose(acc, order));
    let a = access_pattern(&egraph, id);
    assert_eq!(a.shape, vec![32]);
    assert_eq!(a.item_shape, vec![3, 32]);
}

#[test]
fn access_transpose_5() {
    let analysis = MyAnalysis::default();
    let mut egraph: Vec<MyAnalysisData> = Vec::new();
    let t = sym(&analysis, &mut egraph, "t-3-32-32");
    let at = push_node(&analysis, &mut egraph, Language::AccessTensor(t));
    let one = num(&analysis, &mut egraph, 1);
    let acc = push_node(&analysis, &mut egraph, Language::Access(at, one));
    let order = list_literal(&analysis, &mut egraph, &[0, 1, 2]);
    let id = push_node(&analysis, &mut egraph, Language::AccessTranspose(acc, order));
    let a = access_pattern(&egraph, id);
    assert_eq!(a.shape, vec![3]);
    assert_eq!(a.item_shape, vec![32, 32]);
}

#[test]
fn access_transpose_panic_2() {
    let analysis = MyAnalysis::default();
    let mut egraph: Vec<MyAnalysisData> = Vec::new();
    let t = sym(&analysis, &mut egraph, "t-3-32-32");
    let at = push_node(&analysis, &mut egraph, Language::AccessTensor(t));
    let one = num(&analysis, &mut egraph, 1);
    let acc = push_node(&analysis, &mut egraph, Language::Access(at, one));
    let order = list_literal(&analysis, &mut egraph, &[0, 1, 3]);
    let r = analysis.make(&egraph, &Language::AccessTranspose(acc, order));
    assert!(matches!(r, Err(AnalysisError::OutOfRange)));
}

#[test]
fn access_transpose() {
    let analysis = MyAnalysis {
        name_to_shape: vec![("a".to_string(), vec![4, 5, 6])],
    };
    let mut egraph: Vec<MyAnalysisData> = Vec::new();
    let t = sym(&analysis, &mut egraph, "a");
    let at = push_node(&analysis, &mut egraph, Language::AccessTensor(t));
    let one = num(&analysis, &mut egraph, 1);
    let acc = push_node(&analysis, &mut egraph, Language::Access(at, one));
    let order = list_literal(&analysis, &mut egraph, &[2, 0, 1]);
    let id = push_node(&analysis, &mut egraph, Language::AccessTranspose(acc, order));
    let a = access_pattern(&egraph, id);
    assert_eq!(a.shape, vec![6]);
    assert_eq!(a.item_shape, vec![4, 5]);
}

#[test]
fn access_transpose_1() {
    let analysis = MyAnalysis {
        name_to_shape: vec![("t".to_string(), vec![1, 2, 3, 4])],
    };
    let mut egraph: Vec<MyAnalysisData> = Vec::new();
    let t = sym(&analysis, &mut egraph, "t");
    let at = push_node(&analysis, &mut egraph, Language::AccessTensor(t));
    let one = num(&analysis, &mut egraph, 1);
    let acc = push_node(&analysis, &mut egraph, Language::Access(at, one));
    let inner_order = list_literal(&analysis, &mut egraph, &[1, 3, 2, 0]);
    let inner = push_node(&analysis, &mut egraph, Language::AccessTranspose(acc, inner_order));
    let outer_order = list_literal(&analysis, &mut egraph, &[3, 2, 1, 0]);
    let id = push_node(&analysis, &mut egraph, Language::AccessTranspose(inner, outer_order));
    let a = access_pattern(&egraph, id);
    assert_eq!(a.shape, vec![1]);
    assert_eq!(a.item_shape, vec![3, 4, 2]);
}

#[test]
fn access_transpose_2() {
    let analysis = MyAnalysis {
        name_to_shape: vec![("t".to_string(), vec![1, 2, 3, 4])],
    };
    let mut egraph: Vec<MyAnalysisData> = Vec::new();
    let t = sym(&analysis, &mut egraph, "t");
    let at = push_node(&analysis, &mut egraph, Language::AccessTensor(t));
    let one = num(&analysis, &mut egraph, 1);
    let acc = push_node(&analysis, &mut egraph, Language::Access(at, one));
    let order = list_literal(&analysis, &mut egraph, &[1, 3, 2, 0]);
    let id = push_node(&analysis, &mut egraph, Language::AccessTranspose(acc, order));
    let a = access_pattern(&egraph, id);
    assert_eq!(a.shape, vec![2]);
    assert_eq!(a.item_shape, vec![4, 3, 1]);
}

#[test]
fn access_transpose_panic_0() {
    let analysis = MyAnalysis {
        name_to_shape: vec![("a".to_string(), vec![4, 5, 6])],
    };
    let mut egraph: Vec<MyAnalysisData> = Vec::new();
    let t = sym(&analysis, &mut egraph, "a");
    let at = push_node(&analysis, &mut egraph, Language::AccessTensor(t));
    let one = num(&analysis, &mut egraph, 1);
    let acc = push_node(&analysis, &mut egraph, Language::Access(at, one));
    let order = list_literal(&analysis, &mut egraph, &[0, 1]);
    let r = analysis.make(&egraph, &Language::AccessTranspose(acc, order));
    assert!(matches!(r, Err(AnalysisError::ShapeMismatch)));
}

#[test]
fn access_transpose_panic_1() {
    let analysis = MyAnalysis {
        name_to_shape: vec![("a".to_string(), vec![4, 6])],
    };
    let mut egraph: Vec<MyAnalysisData> = Vec::new();
    let t = sym(&analysis, &mut egraph, "a");
    let at = push_node(&analysis, &mut egraph, Language::AccessTensor(t));
    let one = num(&analysis, &mut egraph, 1);
    let acc = push_node(&analysis, &mut egraph, Language::Access(at, one));
    let order = list_literal(&analysis, &mut egraph, &[2, 1, 1]);
    let r = analysis.make(&egraph, &Language::AccessTranspose(acc, order));
    assert!(r.is_err());
}

#[test]
fn flatten_reshape() {
    let analysis = MyAnalysis::default();
    let mut egraph: Vec<MyAnalysisData> = Vec::new();
    let t = sym(&analysis, &mut egraph, "t-3-32-32");
    let at = push_node(&analysis, &mut egraph, Language::AccessTensor(t));
    let two = num(&analysis, &mut egraph, 2);
    let acc = push_node(&analysis, &mut egraph, Language::Access(at, two));
    let flat = push_node(&analysis, &mut egraph, Language::AccessFlatten(acc));
    let outer = shape_literal(&analysis, &mut egraph, &[32, 3]);
    let inner = shape_literal(&analysis, &mut egraph, &[16, 2]);
    let target = push_node(&analysis, &mut egraph, Language::AccessShape(outer, inner));
    let id = push_node(&analysis, &mut egraph, Language::AccessReshape(flat, target));
    let a = access_pattern(&egraph, id);
    assert_eq!(a.shape, vec![32, 3]);
    assert_eq!(a.item_shape, vec![16, 2]);
}

#[test]
fn flatten_reshape_panic() {
    let analysis = MyAnalysis::default();
    let mut egraph: Vec<MyAnalysisData> = Vec::new();
    let t = sym(&analysis, &mut egraph, "t-3-32-32");
    let at = push_node(&analysis, &mut egraph, Language::AccessTensor(t));
    let two = num(&analysis, &mut egraph, 2);
    let acc = push_node(&analysis, &mut egraph, Language::Access(at, two));
    let flat = push_node(&analysis, &mut egraph, Language::AccessFlatten(acc));
    let outer = shape_literal(&analysis, &mut egraph, &[1]);
    let inner = shape_literal(&analysis, &mut egraph, &[16, 2]);
    let target = push_node(&analysis, &mut egraph, Language::AccessShape(outer, inner));
    let r = analysis.make(&egraph, &Language::AccessReshape(flat, target));
    assert!(matches!(r, Err(AnalysisError::ShapeMismatch)));
}
