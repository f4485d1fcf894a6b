use callgraph::ast::{Alias, Expr, FunctionDef, Keyword, Number, Parameter, Stmt};
use callgraph::builder::CallGraphBuilder;
use callgraph::extract::{
    expr_to_json_value, expr_to_string, extract_assignment_targets, extract_calls_from_expr,
    extract_component_gets_from_expr, extract_decorators, extract_parameter_defaults,
    extract_return_annotation, get_decorator_name, get_function_name, get_string_literal,
    get_variable_name, keyword_literals, literals_of, resolve_component_argument,
    resolve_component_argument_recursively,
};
use callgraph::schema::Literal;
use callgraph::strmap::StrMap;
use indexmap::{IndexMap, IndexSet};

fn name(id: &str) -> Expr {
    Expr::Name { id: id.to_string() }
}

fn attr(value: Expr, attr: &str) -> Expr {
    Expr::Attribute { value: Box::new(value), attr: attr.to_string() }
}

fn call(func: Expr, args: Vec<Expr>) -> Expr {
    Expr::Call { func: Box::new(func), args, keywords: vec![] }
}

fn text(value: &str) -> Expr {
    Expr::StringLiteral { value: value.to_string() }
}

fn whole(value: i64) -> Expr {
    Expr::NumberLiteral {
        value: Number::Int { value: Some(value), text: value.to_string() },
    }
}

fn def(name: &str, body: Vec<Stmt>) -> FunctionDef {
    FunctionDef {
        name: name.to_string(),
        decorator_list: vec![],
        args: vec![],
        kwonlyargs: vec![],
        returns: None,
        body,
        line: 1,
    }
}

fn items(set: &IndexSet<String>) -> Vec<&str> {
    set.iter().map(|s| s.as_str()).collect()
}

fn is_str(l: &Literal, expected: &str) -> bool {
    matches!(l, Literal::Str(s) if s == expected)
}

#[test]
fn names_of_expressions() {
    assert_eq!(get_function_name(&name("mzi")), Some("mzi".to_string()));
    assert_eq!(get_function_name(&attr(attr(name("gf"), "c"), "mzi")), Some("gf.c.mzi".to_string()));
    assert_eq!(get_function_name(&attr(call(name("f"), vec![]), "add")), Some("add".to_string()));
    assert_eq!(get_function_name(&call(name("f"), vec![])), None);
    assert_eq!(get_variable_name(&attr(name("cells"), "pad")), Some("cells.pad".to_string()));
    assert_eq!(get_variable_name(&text("x")), None);
    assert_eq!(get_string_literal(&text("ring")), Some("ring".to_string()));
    assert_eq!(get_string_literal(&name("ring")), None);
}

#[test]
fn calls_are_collected_in_order_and_once() {
    // c.add(mzi(ring()), [bend(), bend()]) + (straight(),)
    let expr = Expr::BinOp {
        left: Box::new(call(
            attr(name("c"), "add"),
            vec![
                call(name("mzi"), vec![call(name("ring"), vec![])]),
                Expr::List { elts: vec![call(name("bend"), vec![]), call(name("bend"), vec![])] },
            ],
        )),
        right: Box::new(Expr::Tuple { elts: vec![call(name("straight"), vec![])] }),
    };
    let mut calls = IndexSet::new();
    extract_calls_from_expr(&expr, &mut calls);
    assert_eq!(items(&calls), vec!["c.add", "mzi", "ring", "bend", "straight"]);
}

#[test]
fn method_chains_contribute_their_bases() {
    // make().move(shift())
    let expr = call(attr(call(name("make"), vec![]), "move"), vec![call(name("shift"), vec![])]);
    let mut calls = IndexSet::new();
    extract_calls_from_expr(&expr, &mut calls);
    assert_eq!(items(&calls), vec!["move", "make", "shift"]);
}

#[test]
fn keyword_arguments_and_subscripts_are_not_searched() {
    let expr = Expr::Call {
        func: Box::new(name("f")),
        args: vec![Expr::Subscript {
            value: Box::new(call(name("hidden"), vec![])),
            slice: Box::new(whole(0)),
        }],
        keywords: vec![Keyword { arg: Some("k".to_string()), value: call(name("unseen"), vec![]) }],
    };
    let mut calls = IndexSet::new();
    extract_calls_from_expr(&expr, &mut calls);
    assert_eq!(items(&calls), vec!["f"]);
}

#[test]
fn component_argument_resolution() {
    let mut defaults = StrMap::new();
    defaults.insert("coupler".to_string(), Literal::Str("coupler_ring".to_string()));
    defaults.insert("bend".to_string(), Literal::Null);
    defaults.insert("count".to_string(), Literal::Int(3));
    defaults.insert("flag".to_string(), Literal::Bool(true));
    defaults.insert("gap".to_string(), Literal::Float { bits: 0x3ff8000000000000, text: "1.5".to_string() });
    let mut constants = StrMap::new();
    constants.insert("gc".to_string(), "grating_coupler".to_string());
    constants.insert("null".to_string(), "fallback".to_string());
    constants.insert("coupler".to_string(), "shadowed".to_string());
    assert_eq!(resolve_component_argument(&text("mzi"), &defaults, &constants), "mzi");
    assert_eq!(resolve_component_argument(&name("coupler"), &defaults, &constants), "coupler_ring");
    assert_eq!(resolve_component_argument(&name("gc"), &defaults, &constants), "grating_coupler");
    assert_eq!(resolve_component_argument(&name("other"), &defaults, &constants), "other");
    assert_eq!(resolve_component_argument(&attr(name("cells"), "pad"), &defaults, &constants), "cells.pad");
    assert_eq!(resolve_component_argument(&name("bend"), &defaults, &constants), "fallback");
    assert_eq!(resolve_component_argument(&name("count"), &defaults, &constants), "3");
    assert_eq!(resolve_component_argument(&name("flag"), &defaults, &constants), "true");
    assert_eq!(resolve_component_argument(&name("gap"), &defaults, &constants), "1.5");
    assert_eq!(resolve_component_argument(&whole(1), &defaults, &constants), "unknown");
    assert_eq!(
        resolve_component_argument_recursively(&Literal::Bool(false), &constants),
        "false"
    );
}

#[test]
fn component_references_are_collected() {
    let defaults = StrMap::new();
    let constants = StrMap::new();
    // gf.get_component("a"); wrap(get_component(b)); get_component(); other("c")
    let expr = Expr::Tuple {
        elts: vec![
            call(attr(name("gf"), "get_component"), vec![text("a")]),
            call(name("wrap"), vec![call(name("get_component"), vec![name("b")])]),
            call(name("get_component"), vec![]),
            call(name("other"), vec![text("c")]),
            call(attr(name("pdk"), "get_component"), vec![text("d")]),
        ],
    };
    let mut gets = IndexSet::new();
    extract_component_gets_from_expr(&expr, &mut gets, &defaults, &constants);
    assert_eq!(items(&gets), vec!["a", "b"]);
}

#[test]
fn decorator_names() {
    assert_eq!(get_decorator_name(&name("cell")), Some("cell".to_string()));
    assert_eq!(get_decorator_name(&attr(name("gf"), "cell")), Some("gf.cell".to_string()));
    assert_eq!(
        get_decorator_name(&call(attr(name("functools"), "lru_cache"), vec![whole(128)])),
        Some("functools.lru_cache(...)".to_string())
    );
    assert_eq!(get_decorator_name(&call(call(name("f"), vec![]), vec![])), None);
    assert_eq!(get_decorator_name(&whole(1)), None);
    let list = vec![name("cell"), whole(1), call(name("cache"), vec![]), name("cell")];
    assert_eq!(items(&extract_decorators(&list)), vec!["cell", "cache(...)"]);
}

#[test]
fn literal_values_of_expressions() {
    assert!(is_str(&expr_to_json_value(&text("mzi")), "mzi"));
    assert!(matches!(expr_to_json_value(&whole(-4)), Literal::Int(-4)));
    let big = Expr::NumberLiteral {
        value: Number::Int { value: None, text: "123456789012345678901234567890".to_string() },
    };
    assert!(is_str(&expr_to_json_value(&big), "123456789012345678901234567890"));
    let half = Expr::NumberLiteral {
        value: Number::Float {
            bits: 0.5f64.to_bits(),
            text: "0.5".to_string(),
            json: Some("0.5".to_string()),
        },
    };
    assert!(matches!(
        expr_to_json_value(&half),
        Literal::Float { bits, text } if f64::from_bits(bits) == 0.5 && text == "0.5"
    ));
    let infinite = Expr::NumberLiteral {
        value: Number::Float { bits: f64::INFINITY.to_bits(), text: "inf".to_string(), json: None },
    };
    assert!(is_str(&expr_to_json_value(&infinite), "inf"));
    let complex = Expr::NumberLiteral {
        value: Number::Complex { re: "0".to_string(), im: "2".to_string() },
    };
    assert!(is_str(&expr_to_json_value(&complex), "(0+2j)"));
    assert!(matches!(expr_to_json_value(&Expr::BooleanLiteral { value: true }), Literal::Bool(true)));
    assert!(matches!(expr_to_json_value(&Expr::NoneLiteral), Literal::Null));
    assert!(is_str(&expr_to_json_value(&attr(name("cells"), "pad")), "cells.pad"));
    assert!(is_str(&expr_to_json_value(&call(name("f"), vec![])), "<unknown>"));
    assert!(is_str(&expr_to_json_value(&Expr::Other), "<unknown>"));
}

#[test]
fn parameter_defaults_are_typed() {
    let args = vec![
        Parameter { name: "a".to_string(), default: None },
        Parameter { name: "b".to_string(), default: Some(whole(2)) },
        Parameter { name: "c".to_string(), default: Some(text("x")) },
    ];
    let kwonly = vec![
        Parameter { name: "d".to_string(), default: Some(Expr::NoneLiteral) },
        Parameter { name: "b".to_string(), default: Some(whole(5)) },
    ];
    let defaults = extract_parameter_defaults(&args, &kwonly);
    assert_eq!(defaults.len(), 3);
    assert!(defaults.get("a").is_none());
    assert!(matches!(defaults.get("b"), Some(Literal::Int(5))));
    assert!(is_str(defaults.get("c").unwrap(), "x"));
    assert!(matches!(defaults.get("d"), Some(Literal::Null)));
}

#[test]
fn annotation_texts() {
    assert_eq!(expr_to_string(&name("int")), "int");
    assert_eq!(expr_to_string(&attr(name("gf"), "Component")), "gf.Component");
    let subscript = Expr::Subscript {
        value: Box::new(name("dict")),
        slice: Box::new(Expr::Tuple { elts: vec![name("str"), attr(name("gf"), "Port")] }),
    };
    assert_eq!(expr_to_string(&subscript), "dict[(str, gf.Port)]");
    assert_eq!(expr_to_string(&Expr::List { elts: vec![name("int"), name("str")] }), "[int, str]");
    assert_eq!(expr_to_string(&Expr::Tuple { elts: vec![] }), "()");
    assert_eq!(expr_to_string(&Expr::Tuple { elts: vec![name("int")] }), "(int)");
    assert_eq!(expr_to_string(&text("Component")), "\"Component\"");
    assert_eq!(expr_to_string(&whole(3)), "3");
    assert_eq!(expr_to_string(&Expr::BooleanLiteral { value: false }), "false");
    let union = Expr::BinOp { left: Box::new(name("int")), right: Box::new(Expr::NoneLiteral) };
    assert_eq!(expr_to_string(&union), "int | <unknown>");
    assert_eq!(expr_to_string(&call(name("f"), vec![])), "<unknown>");
    assert_eq!(extract_return_annotation(&Some(name("str"))), Some("str".to_string()));
    assert_eq!(extract_return_annotation(&None), None);
}

#[test]
fn assignment_targets() {
    assert_eq!(extract_assignment_targets(&name("a")), Some(vec!["a".to_string()]));
    let tuple = Expr::Tuple { elts: vec![name("a"), attr(name("s"), "b"), name("c")] };
    assert_eq!(extract_assignment_targets(&tuple), Some(vec!["a".to_string(), "c".to_string()]));
    let list = Expr::List { elts: vec![attr(name("s"), "b")] };
    assert_eq!(extract_assignment_targets(&list), None);
    assert_eq!(extract_assignment_targets(&attr(name("s"), "b")), None);
}

#[test]
fn bound_arguments_of_a_partial() {
    let args = vec![name("f"), whole(1), text("two")];
    let bound = literals_of(&args, 1);
    assert_eq!(bound.len(), 2);
    assert!(matches!(bound[0], Literal::Int(1)));
    assert!(is_str(&bound[1], "two"));
    assert_eq!(literals_of(&args, 3).len(), 0);
    let keywords = vec![
        Keyword { arg: Some("x".to_string()), value: whole(1) },
        Keyword { arg: None, value: name("rest") },
        Keyword { arg: Some("x".to_string()), value: whole(2) },
    ];
    let kwargs = keyword_literals(&keywords);
    assert_eq!(kwargs.len(), 1);
    assert!(matches!(kwargs.get("x"), Some(Literal::Int(2))));
}

#[test]
fn imports_feed_the_module_table() {
    let mut b = CallGraphBuilder::new(IndexMap::new());
    let import = Stmt::Import {
        names: vec![
            Alias { name: "gdsfactory".to_string(), asname: Some("gf".to_string()) },
            Alias { name: "numpy".to_string(), asname: None },
        ],
    };
    b.visit_stmt_in(&import, "lib.a");
    let from = Stmt::ImportFrom {
        module: Some("cells".to_string()),
        names: vec![
            Alias { name: "mzi".to_string(), asname: None },
            Alias { name: "ring".to_string(), asname: Some("r".to_string()) },
            Alias { name: "*".to_string(), asname: None },
        ],
        level: 1,
    };
    b.visit_stmt_in(&from, "lib.a");
    let absolute = Stmt::ImportFrom {
        module: Some("functools".to_string()),
        names: vec![Alias { name: "partial".to_string(), asname: None }],
        level: 0,
    };
    b.visit_stmt_in(&absolute, "lib.a");
    let m = b.modules.get("lib.a").unwrap();
    assert_eq!(
        items(&m.imports),
        vec![
            "gdsfactory",
            "numpy",
            "lib.a.cells.mzi",
            "lib.a.cells.ring",
            "lib.a.cells.*",
            "functools.partial"
        ]
    );
    assert_eq!(m.aliases.len(), 2);
    assert_eq!(m.aliases.get("gf").map(|s| s.as_str()), Some("gdsfactory"));
    assert_eq!(m.aliases.get("r").map(|s| s.as_str()), Some("lib.a.cells.ring"));
    assert_eq!(b.imports.get("numpy").map(|s| s.as_str()), Some("numpy"));
    assert_eq!(b.imports.get("mzi").map(|s| s.as_str()), Some("lib.a.cells.mzi"));
    assert_eq!(m.name, "lib.a");
}

#[test]
fn relative_imports_without_a_module() {
    let mut b = CallGraphBuilder::new(IndexMap::new());
    let one = Stmt::ImportFrom {
        module: None,
        names: vec![
            Alias { name: "x".to_string(), asname: None },
            Alias { name: "*".to_string(), asname: None },
        ],
        level: 1,
    };
    b.visit_stmt_in(&one, "pkg.sub.mod");
    let two = Stmt::ImportFrom {
        module: None,
        names: vec![Alias { name: "y".to_string(), asname: Some("z".to_string()) }],
        level: 2,
    };
    b.visit_stmt_in(&two, "pkg.sub.mod");
    let none = Stmt::ImportFrom { module: None, names: vec![], level: 0 };
    b.visit_stmt_in(&none, "pkg.sub.mod");
    let above = Stmt::ImportFrom {
        module: None,
        names: vec![Alias { name: "w".to_string(), asname: None }],
        level: 4,
    };
    b.visit_stmt_in(&above, "pkg.sub.mod");
    let m = b.modules.get("pkg.sub.mod").unwrap();
    assert_eq!(
        items(&m.imports),
        vec!["pkg.sub.mod.x", "pkg.sub.mod.*", "pkg.sub.y", "....w"]
    );
    assert_eq!(m.aliases.get("z").map(|s| s.as_str()), Some("pkg.sub.y"));
}

#[test]
fn assignments_make_constants_aliases_and_partials() {
    let mut b = CallGraphBuilder::new(IndexMap::new());
    b.current_file = "/libs/lib/a.py".to_string();
    let constant = Stmt::Assign { targets: vec![name("gc")], value: text("grating"), line: 3 };
    b.visit_stmt_in(&constant, "lib.a");
    let alias = Stmt::Assign {
        targets: vec![Expr::Tuple { elts: vec![name("c"), name("d")] }],
        value: name("components"),
        line: 4,
    };
    b.visit_stmt_in(&alias, "lib.a");
    let dotted = Stmt::Assign { targets: vec![name("e")], value: attr(name("gf"), "c"), line: 5 };
    b.visit_stmt_in(&dotted, "lib.a");
    let partial = Stmt::Assign {
        targets: vec![name("mzi2")],
        value: Expr::Call {
            func: Box::new(attr(name("functools"), "partial")),
            args: vec![attr(name("cells"), "mzi"), whole(7)],
            keywords: vec![Keyword { arg: Some("delta".to_string()), value: whole(10) }],
        },
        line: 6,
    };
    b.visit_stmt_in(&partial, "lib.a");
    let not_partial = Stmt::Assign {
        targets: vec![name("n")],
        value: call(name("partial"), vec![]),
        line: 7,
    };
    b.visit_stmt_in(&not_partial, "lib.a");
    let m = b.modules.get("lib.a").unwrap();
    assert_eq!(m.path, "/libs/lib/a.py");
    assert_eq!(m.constants.get("gc").map(|s| s.as_str()), Some("grating"));
    assert_eq!(m.aliases.get("c").map(|s| s.as_str()), Some("lib.a.components"));
    assert_eq!(m.aliases.get("d").map(|s| s.as_str()), Some("lib.a.components"));
    assert_eq!(m.aliases.get("e").map(|s| s.as_str()), Some("gf.c"));
    let binding = m.partials.get("mzi2").unwrap();
    assert_eq!(binding.func, "cells.mzi");
    assert_eq!(binding.args.len(), 1);
    assert!(matches!(binding.kwargs.get("delta"), Some(Literal::Int(10))));
    assert_eq!(m.partials.len(), 1);
    assert!(m.functions.is_empty());
    assert_eq!(b.functions.len(), 1);
    let record = &b.functions[0];
    assert_eq!(record.name, "mzi2");
    assert_eq!(record.module, "lib.a");
    assert_eq!(record.line, 6);
    assert!(record.is_partial);
    assert_eq!(items(&record.calls), vec!["cells.mzi"]);
}

#[test]
fn function_definitions_become_records() {
    let mut b = CallGraphBuilder::new(IndexMap::new());
    b.add_constant_to_module("lib.a", "gc", "grating");
    let body = vec![
        Stmt::Assign {
            targets: vec![name("c")],
            value: call(attr(name("gf"), "Component"), vec![]),
            line: 2,
        },
        Stmt::If {
            test: call(name("check"), vec![]),
            body: vec![Stmt::Expr { value: call(name("first"), vec![]) }],
            elif_else_clauses: vec![
                vec![Stmt::Expr { value: call(name("second"), vec![]) }],
                vec![Stmt::Return { value: Some(call(name("third"), vec![])) }],
            ],
        },
        Stmt::For {
            iter: call(name("range"), vec![whole(3)]),
            body: vec![Stmt::Expr {
                value: call(attr(name("gf"), "get_component"), vec![name("gc")]),
            }],
        },
        Stmt::Other,
        Stmt::Return { value: None },
        Stmt::ClassDef { name: "Inner".to_string(), body: vec![] },
        Stmt::Return { value: Some(call(name("get_component"), vec![name("coupler")])) },
    ];
    let mut d = def("ring", body);
    d.decorator_list = vec![attr(name("gf"), "cell"), call(name("cache"), vec![])];
    d.args = vec![Parameter { name: "coupler".to_string(), default: Some(text("coupler_ring")) }];
    d.returns = Some(attr(name("gf"), "Component"));
    d.line = 12;
    b.visit_stmt_in(&Stmt::FunctionDef { def: d }, "lib.a");
    assert_eq!(b.functions.len(), 1);
    let f = &b.functions[0];
    assert_eq!(f.name, "ring");
    assert_eq!(f.module, "lib.a");
    assert_eq!(f.line, 12);
    assert!(!f.is_partial);
    assert_eq!(
        items(&f.calls),
        vec![
            "gf.Component",
            "check",
            "first",
            "second",
            "third",
            "range",
            "gf.get_component",
            "get_component"
        ]
    );
    assert_eq!(items(&f.component_gets), vec!["grating", "coupler_ring"]);
    assert_eq!(items(&f.decorators), vec!["gf.cell", "cache(...)"]);
    assert!(is_str(f.parameter_defaults.get("coupler").unwrap(), "coupler_ring"));
    assert_eq!(f.return_annotation, Some("gf.Component".to_string()));
    assert!(f.resolved_calls.is_empty());
    assert_eq!(f.resolved_return_annotation, None);
    assert_eq!(items(&b.modules.get("lib.a").unwrap().functions), vec!["ring"]);
}

#[test]
fn assignments_inside_function_bodies_are_examined() {
    let mut b = CallGraphBuilder::new(IndexMap::new());
    let body = vec![
        Stmt::Assign { targets: vec![name("gc")], value: text("grating"), line: 2 },
        Stmt::Assign {
            targets: vec![name("wide")],
            value: call(name("partial"), vec![name("straight")]),
            line: 3,
        },
        Stmt::Expr { value: call(name("get_component"), vec![name("gc")]) },
    ];
    b.visit_stmt_in(&Stmt::FunctionDef { def: def("build", body) }, "lib.a");
    let m = b.modules.get("lib.a").unwrap();
    assert_eq!(m.constants.get("gc").map(|s| s.as_str()), Some("grating"));
    assert!(m.partials.contains_key("wide"));
    assert_eq!(b.functions.len(), 2);
    assert_eq!(b.functions[0].name, "wide");
    assert_eq!(b.functions[1].name, "build");
    assert_eq!(items(&b.functions[1].component_gets), vec!["grating"]);
    assert_eq!(items(&b.functions[1].calls), vec!["partial", "get_component"]);
}

#[test]
fn methods_are_named_after_their_class() {
    let mut b = CallGraphBuilder::new(IndexMap::new());
    let class = Stmt::ClassDef {
        name: "Ring".to_string(),
        body: vec![
            Stmt::Assign { targets: vec![name("kind")], value: text("ring"), line: 2 },
            Stmt::FunctionDef {
                def: def(
                    "build",
                    vec![
                        Stmt::Expr { value: call(attr(name("self"), "route"), vec![]) },
                        Stmt::FunctionDef { def: def("nested", vec![]) },
                    ],
                ),
            },
            Stmt::ClassDef {
                name: "Inner".to_string(),
                body: vec![Stmt::FunctionDef { def: def("hidden", vec![]) }],
            },
            Stmt::FunctionDef { def: def("route", vec![]) },
        ],
    };
    b.visit_stmt_in(&class, "lib.a");
    let names: Vec<&str> = b.functions.iter().map(|f| f.name.as_str()).collect();
    assert_eq!(names, vec!["Ring.build", "Ring.route"]);
    assert_eq!(items(&b.functions[0].calls), vec!["self.route"]);
    let m = b.modules.get("lib.a").unwrap();
    assert_eq!(items(&m.functions), vec!["Ring.build", "Ring.route"]);
    assert_eq!(m.constants.len(), 0);
}

#[test]
fn statements_are_filed_under_the_module_of_the_current_file() {
    let mut b = CallGraphBuilder::new(IndexMap::new());
    b.current_file = "/libs/lib/cells/mzis.py".to_string();
    b.visit_stmt(&Stmt::FunctionDef { def: def("mzi", vec![]) }, "/libs/lib", "lib");
    assert_eq!(b.functions[0].module, "lib.cells.mzis");
    assert!(b.modules.contains_key("lib.cells.mzis"));
}
