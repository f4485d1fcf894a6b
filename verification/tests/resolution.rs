use callgraph::builder::CallGraphBuilder;
use callgraph::resolve::{
    find_import_target, resolve_call_with_imports, resolve_component, resolve_decorator,
    resolve_function_in_module, resolve_function_calls, resolve_type_annotation,
    resolve_yaml_call, split_first_segment, RESOLVE_DEPTH_LIMIT,
};
use callgraph::schema::FunctionInfo;
use indexmap::IndexMap;

fn roots(prefixes: &[&str]) -> IndexMap<String, String> {
    let mut map = IndexMap::new();
    for p in prefixes {
        map.insert(p.to_string(), format!("/libs/{p}"));
    }
    map
}

fn function(module: &str, name: &str) -> FunctionInfo {
    FunctionInfo::new(name.to_string(), module.to_string(), 1)
}

fn some(s: &str) -> Option<String> {
    Some(s.to_string())
}

#[test]
fn own_definition_wins_over_imports() {
    let mut b = CallGraphBuilder::new(roots(&["lib"]));
    b.add_function_to_module("lib.a", "mzi");
    b.add_import_to_module("lib.a", "lib.b.mzi");
    b.add_function_to_module("lib.b", "mzi");
    assert_eq!(resolve_call_with_imports("mzi", "lib.a", &b.modules), some("lib.a.mzi"));
    assert_eq!(resolve_call_with_imports("mzi", "lib.b", &b.modules), some("lib.b.mzi"));
}

#[test]
fn undotted_call_through_an_explicit_import() {
    let mut b = CallGraphBuilder::new(roots(&["lib"]));
    b.add_import_to_module("lib.a", "lib.other.thing");
    b.add_import_to_module("lib.a", "lib.b.bar");
    b.add_import_to_module("lib.a", "lib.c.bar");
    assert_eq!(resolve_call_with_imports("bar", "lib.a", &b.modules), some("lib.b.bar"));
    assert_eq!(resolve_call_with_imports("ar", "lib.a", &b.modules), None);
    assert_eq!(resolve_call_with_imports("missing", "lib.a", &b.modules), None);
}

#[test]
fn call_from_an_unknown_module_is_unresolved() {
    let mut b = CallGraphBuilder::new(roots(&["lib"]));
    b.add_function_to_module("lib.a", "mzi");
    assert_eq!(resolve_call_with_imports("mzi", "lib.nowhere", &b.modules), None);
    assert_eq!(resolve_call_with_imports("x.mzi", "lib.nowhere", &b.modules), None);
}

#[test]
fn star_imports_are_followed_transitively() {
    let mut b = CallGraphBuilder::new(roots(&["lib"]));
    b.add_import_to_module("A", "B.*");
    b.add_import_to_module("B", "C.*");
    b.add_function_to_module("C", "foo");
    assert_eq!(
        resolve_function_in_module("foo", "A", &b.modules, RESOLVE_DEPTH_LIMIT),
        some("C.foo")
    );
    assert_eq!(resolve_function_in_module("foo", "A", &b.modules, 3), some("C.foo"));
    assert_eq!(resolve_function_in_module("foo", "A", &b.modules, 2), None);
    assert_eq!(resolve_function_in_module("foo", "A", &b.modules, 0), None);
    assert_eq!(resolve_function_in_module("bar", "A", &b.modules, RESOLVE_DEPTH_LIMIT), None);
}

#[test]
fn cyclic_star_imports_end() {
    let mut b = CallGraphBuilder::new(roots(&["lib"]));
    b.add_import_to_module("A", "B.*");
    b.add_import_to_module("B", "A.*");
    assert_eq!(resolve_function_in_module("foo", "A", &b.modules, RESOLVE_DEPTH_LIMIT), None);
}

#[test]
fn first_star_import_that_resolves_wins() {
    let mut b = CallGraphBuilder::new(roots(&["lib"]));
    b.add_import_to_module("A", "X.*");
    b.add_import_to_module("A", "B.*");
    b.add_import_to_module("A", "C.*");
    b.add_function_to_module("X", "other");
    b.add_function_to_module("B", "foo");
    b.add_function_to_module("C", "foo");
    assert_eq!(
        resolve_function_in_module("foo", "A", &b.modules, RESOLVE_DEPTH_LIMIT),
        some("B.foo")
    );
}

#[test]
fn explicit_import_beats_star_import() {
    let mut b = CallGraphBuilder::new(roots(&["lib"]));
    b.add_import_to_module("A", "B.*");
    b.add_import_to_module("A", "D.foo");
    b.add_function_to_module("B", "foo");
    assert_eq!(
        resolve_function_in_module("foo", "A", &b.modules, RESOLVE_DEPTH_LIMIT),
        some("D.foo")
    );
}

#[test]
fn dotted_call_through_an_alias() {
    let mut b = CallGraphBuilder::new(roots(&["lib"]));
    b.add_alias_to_module("lib.a", "gf", "gdsfactory");
    b.add_function_to_module("gdsfactory", "cell");
    assert_eq!(resolve_call_with_imports("gf.cell", "lib.a", &b.modules), some("gdsfactory.cell"));
    // The alias is trusted even where the target does not define the name.
    assert_eq!(
        resolve_call_with_imports("gf.unknown", "lib.a", &b.modules),
        some("gdsfactory.unknown")
    );
    assert_eq!(
        resolve_call_with_imports("gf.path.extrude", "lib.a", &b.modules),
        some("gdsfactory.path.extrude")
    );
}

#[test]
fn dotted_call_through_nested_aliases() {
    let mut b = CallGraphBuilder::new(roots(&["lib"]));
    b.add_alias_to_module("lib.a", "gf", "gdsfactory");
    b.add_alias_to_module("gdsfactory", "c", "gdsfactory.components");
    b.add_function_to_module("gdsfactory.components", "mzi");
    assert_eq!(
        resolve_call_with_imports("gf.c.mzi", "lib.a", &b.modules),
        some("gdsfactory.components.mzi")
    );
}

#[test]
fn dotted_call_through_an_imported_module() {
    let mut b = CallGraphBuilder::new(roots(&["lib"]));
    b.add_import_to_module("lib.a", "lib.pdk.cells");
    b.add_function_to_module("lib.pdk.cells", "mzi");
    assert_eq!(resolve_call_with_imports("cells.mzi", "lib.a", &b.modules), some("lib.pdk.cells.mzi"));
    assert_eq!(resolve_call_with_imports("cells.nothing", "lib.a", &b.modules), None);
    assert_eq!(resolve_call_with_imports("other.mzi", "lib.a", &b.modules), None);
    let module = b.modules.get("lib.a").unwrap();
    assert_eq!(find_import_target("cells", module), some("lib.pdk.cells"));
    assert_eq!(find_import_target("lib.pdk.cells", module), some("lib.pdk.cells"));
    assert_eq!(find_import_target("pdk", module), None);
}

#[test]
fn method_names_are_not_found_by_a_dotted_call() {
    let mut b = CallGraphBuilder::new(roots(&["lib"]));
    b.add_function_to_module("lib.a", "Ring.build");
    assert_eq!(resolve_call_with_imports("Ring.build", "lib.a", &b.modules), None);
}

#[test]
fn splitting_at_the_first_dot() {
    assert_eq!(split_first_segment("a.b.c"), Some(("a".to_string(), "b.c".to_string())));
    assert_eq!(split_first_segment(".x"), Some((String::new(), "x".to_string())));
    assert_eq!(split_first_segment("plain"), None);
}

#[test]
fn earlier_root_wins_for_component_names() {
    let functions = vec![function("B.cells", "mzi"), function("A.cells", "mzi")];
    assert_eq!(resolve_yaml_call("mzi", &functions, &roots(&["A", "B"])), some("A.cells.mzi"));
    assert_eq!(resolve_yaml_call("mzi", &functions, &roots(&["B", "A"])), some("B.cells.mzi"));
    assert_eq!(resolve_yaml_call("mzi", &functions, &roots(&["C"])), None);
    assert_eq!(resolve_yaml_call("mzi", &functions, &roots(&[])), None);
}

#[test]
fn exact_match_in_a_later_root_beats_relaxed_match_in_an_earlier_one() {
    let functions = vec![function("A.cells", "Cells.mzi"), function("B.cells", "mzi")];
    assert_eq!(resolve_yaml_call("mzi", &functions, &roots(&["A", "B"])), some("B.cells.mzi"));
    let only_relaxed = vec![function("A.cells", "Cells.mzi"), function("B.cells", "Other.mzi")];
    assert_eq!(
        resolve_yaml_call("mzi", &only_relaxed, &roots(&["B", "A"])),
        some("B.cells.Other.mzi")
    );
    assert_eq!(resolve_yaml_call("Cells", &only_relaxed, &roots(&["A", "B"])), None);
}

#[test]
fn root_prefix_is_a_plain_string_prefix() {
    let functions = vec![function("library.cells", "mzi")];
    assert_eq!(resolve_yaml_call("mzi", &functions, &roots(&["lib"])), some("library.cells.mzi"));
}

#[test]
fn decorators_keep_their_call_marker() {
    let mut b = CallGraphBuilder::new(roots(&["lib"]));
    b.add_alias_to_module("lib.a", "gf", "gdsfactory");
    b.add_function_to_module("lib.a", "cache");
    assert_eq!(resolve_decorator("gf.cell", "lib.a", &b.modules), some("gdsfactory.cell"));
    assert_eq!(resolve_decorator("gf.cell(...)", "lib.a", &b.modules), some("gdsfactory.cell(...)"));
    assert_eq!(resolve_decorator("cache(...)", "lib.a", &b.modules), some("lib.a.cache(...)"));
    assert_eq!(resolve_decorator("unknown(...)", "lib.a", &b.modules), None);
}

#[test]
fn component_references_try_component_names_first() {
    let mut b = CallGraphBuilder::new(roots(&["lib"]));
    b.add_alias_to_module("lib.a", "cells", "lib.cells");
    let functions = vec![function("lib.cells", "mzi")];
    let paths = roots(&["lib"]);
    assert_eq!(resolve_component("mzi", "lib.a", &functions, &b.modules, &paths), some("lib.cells.mzi"));
    assert_eq!(
        resolve_component("\"mzi\"", "lib.a", &functions, &b.modules, &paths),
        some("lib.cells.mzi")
    );
    assert_eq!(
        resolve_component("cells.ring", "lib.a", &functions, &b.modules, &paths),
        some("lib.cells.ring")
    );
    assert_eq!(resolve_component("ring", "lib.a", &functions, &b.modules, &paths), None);
}

#[test]
fn annotations_resolve_their_leading_alias() {
    let mut b = CallGraphBuilder::new(roots(&["lib"]));
    b.add_alias_to_module("lib.a", "gf", "gdsfactory");
    assert_eq!(resolve_type_annotation("gf.Component", "lib.a", &b.modules), "gdsfactory.Component");
    assert_eq!(resolve_type_annotation("gf.typings.Route", "lib.a", &b.modules), "gdsfactory.typings.Route");
    assert_eq!(resolve_type_annotation("np.ndarray", "lib.a", &b.modules), "np.ndarray");
    assert_eq!(resolve_type_annotation("int", "lib.a", &b.modules), "int");
    assert_eq!(resolve_type_annotation("gf.Component", "lib.none", &b.modules), "gf.Component");
}

#[test]
fn resolving_one_function() {
    let mut b = CallGraphBuilder::new(roots(&["lib"]));
    b.add_function_to_module("lib.a", "foo");
    b.add_function_to_module("lib.a", "helper");
    b.add_alias_to_module("lib.a", "gf", "gdsfactory");
    let mut f = function("lib.a", "foo");
    f.calls.insert("helper".to_string());
    f.calls.insert("print".to_string());
    f.calls.insert("gf.cell".to_string());
    f.decorators.insert("gf.cell(...)".to_string());
    f.component_gets.insert("helper".to_string());
    f.return_annotation = Some("gf.Component".to_string());
    let functions = vec![function("lib.a", "helper"), function("lib.a", "foo")];
    let r = resolve_function_calls(&f, &functions, &b.modules, &roots(&["lib"]));
    let calls: Vec<&str> = r.resolved_calls.iter().map(|s| s.as_str()).collect();
    assert_eq!(calls, vec!["lib.a.helper", "gdsfactory.cell"]);
    let decorators: Vec<&str> = r.resolved_decorators.iter().map(|s| s.as_str()).collect();
    assert_eq!(decorators, vec!["gdsfactory.cell(...)"]);
    let gets: Vec<&str> = r.resolved_component_gets.iter().map(|s| s.as_str()).collect();
    assert_eq!(gets, vec!["lib.a.helper"]);
    assert_eq!(r.resolved_return_annotation, some("gdsfactory.Component"));
    assert_eq!(r.name, "foo");
    assert_eq!(r.calls.len(), 3);
}

#[test]
fn declarative_records_resolve_by_component_name_only() {
    let mut b = CallGraphBuilder::new(roots(&["lib"]));
    b.add_function_to_module("lib.mzi_picyml", "ring");
    let mut f = function("lib.mzi_picyml", "mzi");
    f.decorators.insert("yaml".to_string());
    f.calls.insert("ring".to_string());
    let functions = vec![function("lib.cells", "ring")];
    let r = resolve_function_calls(&f, &functions, &b.modules, &roots(&["lib"]));
    let calls: Vec<&str> = r.resolved_calls.iter().map(|s| s.as_str()).collect();
    assert_eq!(calls, vec!["lib.cells.ring"]);
    assert!(r.resolved_decorators.is_empty());
}

#[test]
fn partial_bindings_count_as_defined_in_their_module() {
    let mut b = CallGraphBuilder::new(roots(&["lib"]));
    b.add_function_to_module("lib.m", "f");
    b.add_partial_to_module("lib.m", "g", "f", vec![], callgraph::strmap::StrMap::new());
    b.add_import_to_module("lib.n", "lib.m.*");
    b.add_alias_to_module("lib.n", "m", "lib.m");
    assert_eq!(resolve_call_with_imports("g", "lib.m", &b.modules), some("lib.m.g"));
    assert_eq!(resolve_call_with_imports("m.g", "lib.n", &b.modules), some("lib.m.g"));
    assert_eq!(
        resolve_function_in_module("g", "lib.n", &b.modules, RESOLVE_DEPTH_LIMIT),
        some("lib.m.g")
    );
    assert_eq!(resolve_call_with_imports("g", "lib.n", &b.modules), None);
}
