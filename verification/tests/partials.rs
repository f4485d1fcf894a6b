use callgraph::builder::CallGraphBuilder;
use callgraph::partial::{
    apply_partial_overrides, copy_without_markers, find_base_function, find_function,
    flatten_function, overlay,
};
use callgraph::schema::{FunctionInfo, Literal};
use callgraph::strmap::StrMap;
use indexmap::{IndexMap, IndexSet};

fn plain(module: &str, name: &str) -> FunctionInfo {
    FunctionInfo::new(name.to_string(), module.to_string(), 1)
}

fn binding(module: &str, name: &str, wraps: &str) -> FunctionInfo {
    let mut f = plain(module, name);
    f.is_partial = true;
    f.calls.insert(wraps.to_string());
    f.resolved_calls.insert(wraps.to_string());
    f
}

fn keywords(pairs: &[(&str, i64)]) -> StrMap<Literal> {
    let mut m = StrMap::new();
    for (k, v) in pairs {
        m.insert(k.to_string(), Literal::Int(*v));
    }
    m
}

fn int_at(m: &StrMap<Literal>, key: &str) -> Option<i64> {
    match m.get(key) {
        Some(Literal::Int(i)) => Some(*i),
        _ => None,
    }
}

fn chain() -> (CallGraphBuilder, Vec<FunctionInfo>) {
    // f(a=0, x=0); g = partial(f, x=1); h = partial(g, y=2)
    let mut b = CallGraphBuilder::new(IndexMap::new());
    b.add_partial_to_module("m", "g", "f", vec![], keywords(&[("x", 1)]));
    b.add_partial_to_module("m", "h", "g", vec![], keywords(&[("y", 2)]));
    let mut f = plain("m", "f");
    f.parameter_defaults = keywords(&[("a", 0), ("x", 0)]);
    f.decorators.insert("gf.cell".to_string());
    f.decorators.insert("partial".to_string());
    f.resolved_decorators.insert("gdsfactory.cell".to_string());
    f.resolved_decorators.insert("functools.partial".to_string());
    f.component_gets.insert("ring".to_string());
    f.resolved_component_gets.insert("m.ring".to_string());
    f.return_annotation = Some("gf.Component".to_string());
    f.resolved_return_annotation = Some("gdsfactory.Component".to_string());
    let functions = vec![binding("m", "h", "m.g"), f, binding("m", "g", "m.f")];
    (b, functions)
}

#[test]
fn partial_chain_is_flattened_onto_the_base() {
    let (b, functions) = chain();
    let h = flatten_function(&functions[0], &functions, &b.modules);
    assert_eq!(h.parameter_defaults.len(), 3);
    assert_eq!(int_at(&h.parameter_defaults, "a"), Some(0));
    assert_eq!(int_at(&h.parameter_defaults, "x"), Some(1));
    assert_eq!(int_at(&h.parameter_defaults, "y"), Some(2));
    assert_eq!(h.decorators.iter().collect::<Vec<_>>(), vec!["gf.cell"]);
    assert_eq!(h.resolved_decorators.iter().collect::<Vec<_>>(), vec!["gdsfactory.cell"]);
    assert_eq!(h.component_gets.iter().collect::<Vec<_>>(), vec!["ring"]);
    assert_eq!(h.resolved_component_gets.iter().collect::<Vec<_>>(), vec!["m.ring"]);
    assert_eq!(h.return_annotation, Some("gf.Component".to_string()));
    assert_eq!(h.resolved_return_annotation, Some("gdsfactory.Component".to_string()));
    assert_eq!(h.name, "h");
    assert!(h.is_partial);
    assert_eq!(h.resolved_calls.iter().collect::<Vec<_>>(), vec!["m.g"]);
}

#[test]
fn flattening_twice_changes_nothing() {
    let (mut b, functions) = chain();
    b.functions = functions;
    b.populate_partial_function_details();
    let once: Vec<FunctionInfo> = b.functions.iter().map(|f| f.clone()).collect();
    b.populate_partial_function_details();
    assert_eq!(b.functions.len(), once.len());
    for (first, second) in once.iter().zip(b.functions.iter()) {
        assert_eq!(first.name, second.name);
        assert_eq!(first.decorators, second.decorators);
        assert_eq!(first.resolved_decorators, second.resolved_decorators);
        assert_eq!(first.component_gets, second.component_gets);
        assert_eq!(first.return_annotation, second.return_annotation);
        assert_eq!(first.parameter_defaults.len(), second.parameter_defaults.len());
        for (key, _) in first.parameter_defaults.entries.iter() {
            assert_eq!(int_at(&first.parameter_defaults, key), int_at(&second.parameter_defaults, key));
        }
    }
    assert_eq!(int_at(&b.functions[2].parameter_defaults, "x"), Some(1));
    assert_eq!(int_at(&b.functions[2].parameter_defaults, "y"), None);
    assert_eq!(b.functions[1].parameter_defaults.len(), 2);
}

#[test]
fn nearer_binding_wins() {
    let mut b = CallGraphBuilder::new(IndexMap::new());
    b.add_partial_to_module("m", "g", "f", vec![], keywords(&[("x", 1), ("z", 5)]));
    b.add_partial_to_module("m", "h", "g", vec![], keywords(&[("x", 9)]));
    let functions = vec![plain("m", "f"), binding("m", "g", "m.f"), binding("m", "h", "m.g")];
    let mut h = functions[2].clone();
    apply_partial_overrides(&mut h, &functions, &b.modules);
    assert_eq!(int_at(&h.parameter_defaults, "x"), Some(9));
    assert_eq!(int_at(&h.parameter_defaults, "z"), Some(5));
}

#[test]
fn binding_without_a_findable_target_is_left_alone() {
    let b = CallGraphBuilder::new(IndexMap::new());
    let mut lonely = binding("m", "g", "numpy.sum");
    lonely.return_annotation = Some("keep".to_string());
    let functions = vec![lonely];
    let g = flatten_function(&functions[0], &functions, &b.modules);
    assert_eq!(g.return_annotation, Some("keep".to_string()));
    assert_eq!(g.parameter_defaults.len(), 0);
}

#[test]
fn chain_stops_at_the_last_function_found() {
    let functions = vec![binding("m", "h", "m.g"), binding("m", "g", "elsewhere.f")];
    assert_eq!(find_base_function(0, &functions, 16), Some(1));
    assert_eq!(find_base_function(1, &functions, 16), Some(1));
    assert_eq!(find_base_function(0, &functions, 1), Some(1));
    assert_eq!(find_base_function(0, &functions, 0), None);
    assert_eq!(find_base_function(1, &functions, 0), Some(1));
}

#[test]
fn cyclic_bindings_are_left_alone() {
    let mut h = binding("m", "h", "m.g");
    h.return_annotation = Some("kept".to_string());
    let functions = vec![h, binding("m", "g", "m.h")];
    assert_eq!(find_base_function(0, &functions, 16), None);
    let mut b = CallGraphBuilder::new(IndexMap::new());
    b.add_partial_to_module("m", "h", "g", vec![], keywords(&[("x", 1)]));
    let flat = flatten_function(&functions[0], &functions, &b.modules);
    assert_eq!(flat.name, "h");
    assert_eq!(flat.return_annotation, Some("kept".to_string()));
    assert_eq!(flat.parameter_defaults.len(), 0);
}

#[test]
fn chains_beyond_the_depth_limit_are_left_alone_and_flattening_stays_idempotent() {
    // Twenty bindings, each over the one before, the first over `f`.
    let mut b = CallGraphBuilder::new(IndexMap::new());
    let mut f = plain("m", "f");
    f.decorators.insert("cell".to_string());
    f.parameter_defaults = keywords(&[("a", 0)]);
    let mut functions = vec![f];
    for i in 1..=20 {
        let wraps = if i == 1 { "m.f".to_string() } else { format!("m.bound{}", i - 1) };
        functions.push(binding("m", &format!("bound{i}"), &wraps));
        b.add_partial_to_module("m", &format!("bound{i}"), "x", vec![], keywords(&[("k", i)]));
    }
    b.functions = functions;
    b.populate_partial_function_details();
    let flattened: Vec<bool> = b.functions.iter().map(|f| f.decorators.contains("cell")).collect();
    let expected: Vec<bool> = (0..=20).map(|i| i <= 16).collect();
    assert_eq!(flattened, expected);
    assert_eq!(int_at(&b.functions[16].parameter_defaults, "k"), Some(16));
    assert_eq!(int_at(&b.functions[16].parameter_defaults, "a"), Some(0));
    assert_eq!(b.functions[17].parameter_defaults.len(), 0);
    let once: Vec<FunctionInfo> = b.functions.iter().map(|f| f.clone()).collect();
    b.populate_partial_function_details();
    for (first, second) in once.iter().zip(b.functions.iter()) {
        assert_eq!(first.decorators, second.decorators);
        assert_eq!(first.parameter_defaults.len(), second.parameter_defaults.len());
        assert_eq!(int_at(&first.parameter_defaults, "k"), int_at(&second.parameter_defaults, "k"));
    }
}

#[test]
fn wrapped_function_is_found_by_key_or_in_the_base_library() {
    let functions = vec![
        plain("gdsfactory.routing.route_bundle", "route_bundle_electrical"),
        plain("other.routing", "route_single"),
        plain("m", "f"),
    ];
    assert_eq!(find_function(&functions, "m.f"), Some(2));
    assert_eq!(find_function(&functions, "gdsfactory.routing.route_bundle_electrical"), Some(0));
    assert_eq!(find_function(&functions, "other.route_single"), None);
    assert_eq!(find_function(&functions, "route_bundle_electrical"), Some(0));
}

#[test]
fn overlay_prefers_the_source() {
    let mut target = keywords(&[("a", 1), ("b", 2)]);
    overlay(&mut target, &keywords(&[("b", 20), ("c", 30)]));
    assert_eq!(target.len(), 3);
    assert_eq!(int_at(&target, "a"), Some(1));
    assert_eq!(int_at(&target, "b"), Some(20));
    assert_eq!(int_at(&target, "c"), Some(30));
}

#[test]
fn partial_markers_are_dropped_from_decorators() {
    let mut items = IndexSet::new();
    for d in ["cell", "partial", "functools.partial", "partial(...)", "cache"] {
        items.insert(d.to_string());
    }
    let kept = copy_without_markers(&items);
    assert_eq!(kept.iter().collect::<Vec<_>>(), vec!["cell", "partial(...)", "cache"]);
    assert_eq!(copy_without_markers(&kept), kept);
}
