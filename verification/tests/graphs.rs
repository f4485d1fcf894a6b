use callgraph::analyzer::{file_kind, FileKind, FileSource};
use callgraph::ast::{Alias, Expr, FunctionDef, Stmt};
use callgraph::builder::CallGraphBuilder;
use callgraph::graph::{
    build_graph, filter_function, parse_lib_path, simplify, GraphError, SourceFile,
};
use callgraph::walk::{find_analyzable_files, is_analyzable, is_hidden_component};
use callgraph::py::{ParsedBlock, ParsedPython};
use callgraph::schema::{CallGraph, FunctionInfo, ModuleInfo};
use callgraph::strmap::StrMap;
use indexmap::IndexMap;

fn roots(pairs: &[(&str, &str)]) -> IndexMap<String, String> {
    pairs.iter().map(|(p, d)| (p.to_string(), d.to_string())).collect()
}

fn call_stmt(callee: &str) -> Stmt {
    Stmt::Expr {
        value: Expr::Call {
            func: Box::new(Expr::Name { id: callee.to_string() }),
            args: vec![],
            keywords: vec![],
        },
    }
}

fn def(name: &str, body: Vec<Stmt>) -> Stmt {
    Stmt::FunctionDef {
        def: FunctionDef {
            name: name.to_string(),
            decorator_list: vec![],
            args: vec![],
            kwonlyargs: vec![],
            returns: None,
            body,
            line: 1,
        },
    }
}

fn python(path: &str, root: &str, prefix: &str, body: Vec<Stmt>) -> SourceFile {
    SourceFile {
        path: path.to_string(),
        lib_root: root.to_string(),
        prefix: prefix.to_string(),
        source: FileSource::Python { parsed: ParsedPython::Whole { body } },
    }
}

fn yaml(path: &str, root: &str, prefix: &str, content: &str) -> SourceFile {
    SourceFile {
        path: path.to_string(),
        lib_root: root.to_string(),
        prefix: prefix.to_string(),
        source: FileSource::Yaml { content: content.to_string() },
    }
}

fn keys<V>(m: &StrMap<V>) -> Vec<&str> {
    m.entries.iter().map(|(k, _)| k.as_str()).collect()
}

#[test]
fn kinds_of_files() {
    assert_eq!(file_kind("/libs/lib/a.py"), FileKind::Python);
    assert_eq!(file_kind("/libs/lib/mzi.pic.yml"), FileKind::Yaml);
    assert_eq!(file_kind("/libs/lib/a.pyc"), FileKind::Other);
    assert_eq!(file_kind("/libs/lib/config.yml"), FileKind::Other);
    assert_eq!(file_kind("/libs/lib/README"), FileKind::Other);
}

#[test]
fn no_library_root_is_the_only_failure() {
    let result = build_graph(IndexMap::new(), &vec![], None);
    assert!(matches!(result, Err(GraphError::NoValidLibraryPaths)));
    assert_eq!(GraphError::NoValidLibraryPaths.message(), "No valid library paths given.");
    let empty = build_graph(roots(&[("lib", "/libs/lib")]), &vec![], None).unwrap();
    assert_eq!(empty.functions.len(), 0);
    assert_eq!(empty.modules.len(), 0);
}

#[test]
fn package_with_a_relative_import() {
    let files = vec![
        python("/libs/pkg/__init__.py", "/libs/pkg", "pkg", vec![]),
        python(
            "/libs/pkg/a.py",
            "/libs/pkg",
            "pkg",
            vec![
                Stmt::ImportFrom {
                    module: Some("b".to_string()),
                    names: vec![Alias { name: "bar".to_string(), asname: None }],
                    level: 1,
                },
                def("foo", vec![call_stmt("bar")]),
            ],
        ),
        python("/libs/pkg/b.py", "/libs/pkg", "pkg", vec![def("bar", vec![Stmt::Other])]),
    ];
    let graph = build_graph(roots(&[("pkg", "/libs/pkg")]), &files, None).unwrap();
    assert_eq!(keys(&graph.functions), vec!["pkg.a.foo", "pkg.b.bar"]);
    let foo = graph.functions.get("pkg.a.foo").unwrap();
    assert_eq!(foo.calls.iter().collect::<Vec<_>>(), vec!["bar"]);
    // A level-1 import appends to the path of the importing module.
    assert_eq!(foo.resolved_calls.iter().collect::<Vec<_>>(), vec!["pkg.a.b.bar"]);
    let bar = graph.functions.get("pkg.b.bar").unwrap();
    assert!(bar.resolved_calls.is_empty());
    assert_eq!(keys(&graph.modules), vec!["pkg.a", "pkg.b"]);
    assert_eq!(
        graph.modules.get("pkg.a").unwrap().imports.iter().collect::<Vec<_>>(),
        vec!["pkg.a.b.bar"]
    );
}

#[test]
fn package_init_importing_from_its_own_module() {
    let files = vec![
        python(
            "/libs/pkg/__init__.py",
            "/libs/pkg",
            "pkg",
            vec![
                Stmt::ImportFrom {
                    module: Some("b".to_string()),
                    names: vec![Alias { name: "bar".to_string(), asname: None }],
                    level: 1,
                },
                def("foo", vec![call_stmt("bar")]),
            ],
        ),
        python("/libs/pkg/b.py", "/libs/pkg", "pkg", vec![def("bar", vec![])]),
    ];
    let graph = build_graph(roots(&[("pkg", "/libs/pkg")]), &files, None).unwrap();
    let foo = graph.functions.get("pkg.foo").unwrap();
    assert_eq!(foo.resolved_calls.iter().collect::<Vec<_>>(), vec!["pkg.b.bar"]);
}

#[test]
fn instance_file_resolves_to_a_python_component() {
    let files = vec![
        yaml(
            "/libs/lib/mzi.pic.yml",
            "/libs/lib",
            "lib",
            "instances:\n  i1:\n    component: ring_double\n",
        ),
        python("/libs/lib/rings.py", "/libs/lib", "lib", vec![def("ring_double", vec![])]),
    ];
    let graph = build_graph(roots(&[("lib", "/libs/lib")]), &files, None).unwrap();
    let mzi = graph.functions.get("lib.mzi_picyml.mzi").unwrap();
    assert_eq!(mzi.decorators.iter().collect::<Vec<_>>(), vec!["yaml"]);
    assert_eq!(mzi.calls.iter().collect::<Vec<_>>(), vec!["ring_double"]);
    assert_eq!(mzi.resolved_calls.iter().collect::<Vec<_>>(), vec!["lib.rings.ring_double"]);
    assert!(mzi.resolved_decorators.is_empty());
}

#[test]
fn instance_file_under_a_later_root_resolves_into_the_first_root() {
    let files = vec![
        python("/libs/A/cells.py", "/libs/A", "A", vec![def("mzi", vec![])]),
        python("/libs/B/cells.py", "/libs/B", "B", vec![def("mzi", vec![])]),
        yaml("/libs/B/top.pic.yml", "/libs/B", "B", "instances: {i: {component: mzi}}\n"),
    ];
    let graph =
        build_graph(roots(&[("A", "/libs/A"), ("B", "/libs/B")]), &files, None).unwrap();
    let top = graph.functions.get("B.top_picyml.top").unwrap();
    assert_eq!(top.resolved_calls.iter().collect::<Vec<_>>(), vec!["A.cells.mzi"]);
}

#[test]
fn malformed_instance_file_does_not_stop_the_build() {
    let files = vec![
        yaml("/libs/lib/bad.pic.yml", "/libs/lib", "lib", "instances: [\n"),
        python("/libs/lib/ok.py", "/libs/lib", "lib", vec![def("fine", vec![])]),
    ];
    let graph = build_graph(roots(&[("lib", "/libs/lib")]), &files, None).unwrap();
    let bad = graph.functions.get("lib.bad_picyml.bad").unwrap();
    assert!(bad.calls.is_empty());
    assert!(bad.resolved_calls.is_empty());
    let module = graph.modules.get("lib.bad_picyml").unwrap();
    assert_eq!(module.errors.len(), 1);
    assert!(module.errors[0].starts_with("Failed to parse YAML file /libs/lib/bad.pic.yml: "));
    assert!(graph.functions.contains_key("lib.ok.fine"));
    assert_eq!(keys(&graph.modules), vec!["lib.bad_picyml", "lib.ok"]);
}

#[test]
fn failure_of_a_file_is_recorded_by_the_builder() {
    let mut b = CallGraphBuilder::new(roots(&[("lib", "/libs/lib")]));
    let source = FileSource::Python {
        parsed: ParsedPython::Partial {
            error: "bad".to_string(),
            blocks: vec![ParsedBlock { line: 2, result: Err("Parse error: x".to_string()) }],
        },
    };
    let result = b.analyze_file("/libs/lib/a.py", "/libs/lib", "lib", &source);
    let message = result.unwrap_err();
    assert_eq!(
        message,
        "Failed to parse Python file /libs/lib/a.py: bad (partial parsing recovered 0 statements)"
    );
    assert_eq!(b.current_file, "/libs/lib/a.py");
    assert_eq!(b.current_prefix, "lib");
    let m = b.modules.get("lib.a").unwrap();
    assert_eq!(
        m.errors.iter().collect::<Vec<_>>(),
        vec!["Parse error at line 2: Parse error: x", message.as_str()]
    );
    assert_eq!(b.analyze_file("/libs/lib/notes.txt", "/libs/lib", "lib", &FileSource::Other), Ok(()));
    assert_eq!(b.modules.len(), 1);
}

#[test]
fn later_definition_replaces_an_earlier_one_under_the_same_key() {
    let files = vec![python(
        "/libs/lib/a.py",
        "/libs/lib",
        "lib",
        vec![def("f", vec![call_stmt("first")]), def("f", vec![call_stmt("second")])],
    )];
    let graph = build_graph(roots(&[("lib", "/libs/lib")]), &files, None).unwrap();
    assert_eq!(graph.functions.len(), 1);
    let f = graph.functions.get("lib.a.f").unwrap();
    assert_eq!(f.calls.iter().collect::<Vec<_>>(), vec!["second"]);
}

fn sample_graph() -> CallGraph {
    let mut functions = StrMap::new();
    let mut modules = StrMap::new();
    for (module, name) in [("lib.a", "mzi"), ("lib.b", "mzi"), ("lib.b", "ring"), ("lib.c", "bend")] {
        let mut f = FunctionInfo::new(name.to_string(), module.to_string(), 1);
        f.resolved_calls.insert(format!("{module}.helper"));
        f.resolved_component_gets.insert("lib.c.bend".to_string());
        f.resolved_component_gets.insert(format!("{module}.helper"));
        functions.insert(format!("{module}.{name}"), f);
        modules.insert(module.to_string(), ModuleInfo::new(module.to_string(), String::new()));
    }
    CallGraph { functions, modules }
}

#[test]
fn filter_by_simple_name_or_by_key() {
    let graph = sample_graph();
    let by_name = filter_function(&graph, "mzi");
    assert_eq!(keys(&by_name.functions), vec!["lib.a.mzi", "lib.b.mzi"]);
    assert_eq!(keys(&by_name.modules), vec!["lib.a", "lib.b"]);
    let by_key = filter_function(&graph, "lib.b.ring");
    assert_eq!(keys(&by_key.functions), vec!["lib.b.ring"]);
    assert_eq!(keys(&by_key.modules), vec!["lib.b"]);
    let none = filter_function(&graph, "absent");
    assert_eq!(none.functions.len(), 0);
    assert_eq!(none.modules.len(), 0);
}

#[test]
fn build_with_a_requested_function() {
    let files = vec![
        python("/libs/lib/a.py", "/libs/lib", "lib", vec![def("foo", vec![])]),
        python("/libs/lib/b.py", "/libs/lib", "lib", vec![def("bar", vec![])]),
    ];
    let graph = build_graph(roots(&[("lib", "/libs/lib")]), &files, Some("bar")).unwrap();
    assert_eq!(keys(&graph.functions), vec!["lib.b.bar"]);
    assert_eq!(keys(&graph.modules), vec!["lib.b"]);
}

#[test]
fn simplified_projection() {
    let graph = sample_graph();
    let simple = simplify(&graph);
    assert_eq!(keys(&simple), vec!["lib.a.mzi", "lib.b.mzi", "lib.b.ring", "lib.c.bend"]);
    let callees = simple.get("lib.a.mzi").unwrap();
    assert_eq!(callees.names.iter().collect::<Vec<_>>(), vec!["lib.a.helper", "lib.c.bend"]);
}

#[test]
fn string_keyed_map_basics() {
    let mut m: StrMap<String> = StrMap::new();
    assert_eq!(m.len(), 0);
    assert!(!m.contains_key("a"));
    m.insert("a".to_string(), "1".to_string());
    m.insert("b".to_string(), "2".to_string());
    m.insert("a".to_string(), "3".to_string());
    assert_eq!(m.len(), 2);
    assert_eq!(m.get("a").map(|s| s.as_str()), Some("3"));
    assert_eq!(m.get("b").map(|s| s.as_str()), Some("2"));
    assert_eq!(m.get("c"), None);
    assert_eq!(m.position("b"), Some(1));
    assert!(m.counts(0) && m.counts(1));
    assert_eq!(keys(&m), vec!["a", "b"]);
}

#[test]
fn module_table_unions_what_it_is_told() {
    let mut b = CallGraphBuilder::new(IndexMap::new());
    b.current_file = "first.py".to_string();
    b.add_function_to_module("m", "f");
    b.current_file = "second.py".to_string();
    b.add_function_to_module("m", "g");
    b.add_function_to_module("m", "f");
    b.add_error_to_module("m", "oops");
    b.add_error_to_module("m", "oops");
    b.add_import_to_module("m", "x.y");
    b.add_constant_to_module("m", "k", "v1");
    b.add_constant_to_module("m", "k", "v2");
    b.add_error_to_module("n", "only an error");
    assert_eq!(b.modules.len(), 2);
    let m = b.modules.get("m").unwrap();
    assert_eq!(m.name, "m");
    assert_eq!(m.path, "first.py");
    assert_eq!(m.functions.iter().collect::<Vec<_>>(), vec!["f", "g"]);
    assert_eq!(m.errors.iter().collect::<Vec<_>>(), vec!["oops"]);
    assert_eq!(m.imports.iter().collect::<Vec<_>>(), vec!["x.y"]);
    assert_eq!(m.constants.get("k").map(|s| s.as_str()), Some("v2"));
    let n = b.modules.get("n").unwrap();
    assert_eq!(n.path, "second.py");
    assert!(n.functions.is_empty());
}

#[test]
fn library_roots_are_written_as_prefix_and_path() {
    assert_eq!(
        parse_lib_path("mycspdk:/path/to/mycspdk"),
        Some(("mycspdk".to_string(), "/path/to/mycspdk".to_string()))
    );
    assert_eq!(parse_lib_path("a:b:c"), Some(("a".to_string(), "b:c".to_string())));
    assert_eq!(parse_lib_path(":x"), Some((String::new(), "x".to_string())));
    assert_eq!(parse_lib_path("x:"), Some(("x".to_string(), String::new())));
    assert_eq!(parse_lib_path("no-colon"), None);
}

fn components(path: &str) -> Vec<String> {
    path.split('/').map(|s| s.to_string()).collect()
}

#[test]
fn files_picked_for_analysis() {
    assert!(is_analyzable(&components("libs/lib/a.py")));
    assert!(is_analyzable(&components("libs/lib/cells/mzi.pic.yml")));
    assert!(is_analyzable(&components("libs/.venv/lib/a.py")));
    assert!(!is_analyzable(&components("libs/.git/hooks/a.py")));
    assert!(is_analyzable(&components("libs/lib/.hidden.py")));
    assert!(is_analyzable(&components("r/.x.py")));
    assert!(is_analyzable(&components(".x.pic.yml")));
    assert!(!is_analyzable(&components(".cache/x.py")));
    assert!(!is_analyzable(&components("./lib/a.py")));
    assert!(!is_analyzable(&components("libs/lib/a.txt")));
    assert!(!is_analyzable(&components("libs/lib/config.yml")));
    assert!(!is_analyzable(&vec![]));
    assert!(is_hidden_component(".git"));
    assert!(is_hidden_component("."));
    assert!(!is_hidden_component(".venv"));
    assert!(!is_hidden_component("venv"));
    assert!(!is_hidden_component(""));
}

#[test]
fn failure_of_an_instance_file_is_recorded_once() {
    let mut b = CallGraphBuilder::new(roots(&[("lib", "/libs/lib")]));
    let source = FileSource::Yaml { content: "a: [".to_string() };
    let message = b.analyze_file("/libs/lib/x.pic.yml", "/libs/lib", "lib", &source).unwrap_err();
    assert_eq!(keys(&b.modules), vec!["lib.x_picyml"]);
    let m = b.modules.get("lib.x_picyml").unwrap();
    assert_eq!(m.errors.iter().collect::<Vec<_>>(), vec![&message]);
    assert_eq!(b.functions.len(), 1);
}

#[test]
fn files_are_picked_from_the_files_found() {
    let found: Vec<String> = [
        "/libs/lib/a.py",
        "/libs/lib/.git/config",
        "/libs/lib/.git/hooks/pre.py",
        "/libs/lib/cells/mzi.pic.yml",
        "/libs/lib/README.md",
        "/libs/lib/.venv/site/x.py",
        "/libs/lib/./b.py",
        "/libs/lib/../c.py",
        "relative/d.py",
        "./e.py",
        "/libs/lib/.dotted.py",
    ]
    .iter()
    .map(|s| s.to_string())
    .collect();
    assert_eq!(
        find_analyzable_files(&found),
        vec![
            "/libs/lib/a.py",
            "/libs/lib/cells/mzi.pic.yml",
            "/libs/lib/.venv/site/x.py",
            "/libs/lib/./b.py",
            "relative/d.py",
            "/libs/lib/.dotted.py",
        ]
    );
    assert_eq!(find_analyzable_files(&vec![]), Vec::<String>::new());
}

#[test]
fn file_that_could_not_be_read_is_recorded_in_its_module() {
    let mut b = CallGraphBuilder::new(roots(&[("lib", "/libs/lib")]));
    let unread_py = FileSource::Unreadable { message: "Failed to read file: /libs/lib/a.py".to_string() };
    assert_eq!(
        b.analyze_file("/libs/lib/a.py", "/libs/lib", "lib", &unread_py),
        Err("Failed to read file: /libs/lib/a.py".to_string())
    );
    let yaml = FileSource::Unreadable { message: "Failed to read YAML file: /libs/lib/m.pic.yml".to_string() };
    assert!(b.analyze_file("/libs/lib/m.pic.yml", "/libs/lib", "lib", &yaml).is_err());
    assert_eq!(keys(&b.modules), vec!["lib.a", "lib.m_picyml"]);
    assert_eq!(
        b.modules.get("lib.a").unwrap().errors.iter().collect::<Vec<_>>(),
        vec!["Failed to read file: /libs/lib/a.py"]
    );
    assert_eq!(
        b.modules.get("lib.m_picyml").unwrap().errors.iter().collect::<Vec<_>>(),
        vec!["Failed to read YAML file: /libs/lib/m.pic.yml"]
    );
    assert!(b.functions.is_empty());

    let files = vec![
        SourceFile {
            path: "/libs/lib/a.py".to_string(),
            lib_root: "/libs/lib".to_string(),
            prefix: "lib".to_string(),
            source: FileSource::Unreadable { message: "no".to_string() },
        },
        python("/libs/lib/b.py", "/libs/lib", "lib", vec![def("fine", vec![])]),
    ];
    let graph = build_graph(roots(&[("lib", "/libs/lib")]), &files, None).unwrap();
    assert_eq!(keys(&graph.functions), vec!["lib.b.fine"]);
    assert_eq!(graph.modules.get("lib.a").unwrap().errors.len(), 1);
}
