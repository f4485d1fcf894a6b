//! What holds of the module table and of the graph throughout a build:
//! every module is filed under its own name, and every function under its
//! own key.

use crate::analyzer::{analyze, analyzed, FileSource};
use crate::ast::{Alias, Expr, FunctionDef, Keyword, Stmt};
use crate::builder::{lemma_additions_keep_names, BuilderView};
use crate::graph::{analyze_files, empty_builder, finished, graph_of, index_functions, SourceFile};
use crate::py::{add_block_errors, visit_all, visit_blocks, ParsedBlock, ParsedPython};
use crate::schema::{FunctionView, LiteralView};
use crate::visit::{
    bind_partial, bind_partial_targets, bind_partials, bind_value_targets, bind_values,
    detect_assignment, detect_partial, import_from, import_from_names, import_name, import_names,
    import_relative, import_relative_names, visit, visit_function, visit_methods, walk_clauses,
    walk_expr, walk_stmt, walk_stmts, WalkView,
};
use vstd::prelude::*;

verus! {

proof fn lemma_bind_partials_keep_names(
    b: BuilderView,
    module: Seq<char>,
    names: Seq<Seq<char>>,
    from: int,
    args: Seq<Expr>,
    keywords: Seq<Keyword>,
    line: usize,
)
    requires
        b.names_agree(),
    ensures
        bind_partials(b, module, names, from, args, keywords, line).names_agree(),
    decreases names.len() - from,
{
    if 0 <= from < names.len() {
        lemma_additions_keep_names(b, module);
        lemma_bind_partials_keep_names(
            bind_partial(b, module, names[from], args, keywords, line),
            module,
            names,
            from + 1,
            args,
            keywords,
            line,
        );
    }
}

proof fn lemma_bind_partial_targets_keep_names(
    b: BuilderView,
    module: Seq<char>,
    targets: Seq<Expr>,
    from: int,
    args: Seq<Expr>,
    keywords: Seq<Keyword>,
    line: usize,
)
    requires
        b.names_agree(),
    ensures
        bind_partial_targets(b, module, targets, from, args, keywords, line).names_agree(),
    decreases targets.len() - from,
{
    if 0 <= from < targets.len() {
        let next = match crate::extract::target_names(targets[from]) {
            Some(names) => {
                lemma_bind_partials_keep_names(b, module, names, 0, args, keywords, line);
                bind_partials(b, module, names, 0, args, keywords, line)
            },
            None => b,
        };
        lemma_bind_partial_targets_keep_names(next, module, targets, from + 1, args, keywords, line);
    }
}

proof fn lemma_bind_values_keep_names(
    b: BuilderView,
    module: Seq<char>,
    names: Seq<Seq<char>>,
    from: int,
    value: Seq<char>,
    constant: bool,
)
    requires
        b.names_agree(),
    ensures
        bind_values(b, module, names, from, value, constant).names_agree(),
    decreases names.len() - from,
{
    if 0 <= from < names.len() {
        lemma_additions_keep_names(b, module);
        let next = if constant {
            b.add_constant(module, names[from], value)
        } else {
            b.add_alias(module, names[from], value)
        };
        lemma_bind_values_keep_names(next, module, names, from + 1, value, constant);
    }
}

proof fn lemma_bind_value_targets_keep_names(
    b: BuilderView,
    module: Seq<char>,
    targets: Seq<Expr>,
    from: int,
    value: Seq<char>,
    constant: bool,
)
    requires
        b.names_agree(),
    ensures
        bind_value_targets(b, module, targets, from, value, constant).names_agree(),
    decreases targets.len() - from,
{
    if 0 <= from < targets.len() {
        let next = match crate::extract::target_names(targets[from]) {
            Some(names) => {
                lemma_bind_values_keep_names(b, module, names, 0, value, constant);
                bind_values(b, module, names, 0, value, constant)
            },
            None => b,
        };
        lemma_bind_value_targets_keep_names(next, module, targets, from + 1, value, constant);
    }
}

proof fn lemma_assignment_keeps_names(
    b: BuilderView,
    module: Seq<char>,
    targets: Seq<Expr>,
    value: Expr,
    line: usize,
)
    requires
        b.names_agree(),
    ensures
        detect_assignment(b, module, targets, value, line).names_agree(),
{
    match value {
        Expr::Call { func, args, keywords } => {
            lemma_bind_partial_targets_keep_names(b, module, targets, 0, args@, keywords@, line);
        },
        _ => {},
    }
    let after = detect_partial(b, module, targets, value, line);
    match value {
        Expr::StringLiteral { value: text } => {
            lemma_bind_value_targets_keep_names(after, module, targets, 0, text@, true);
        },
        _ => {
            match crate::extract::name_of(value) {
                Some(name) => {
                    let full = if name.contains('.') {
                        name
                    } else {
                        crate::text::dotted(module, name)
                    };
                    lemma_bind_value_targets_keep_names(after, module, targets, 0, full, false);
                },
                None => {},
            }
        },
    }
}

proof fn lemma_walk_stmt_keeps_names(
    w: WalkView,
    stmt: Stmt,
    module: Seq<char>,
    defaults: Map<Seq<char>, LiteralView>,
)
    requires
        w.builder.names_agree(),
    ensures
        walk_stmt(w, stmt, module, defaults).builder.names_agree(),
    decreases stmt, 0nat,
{
    match stmt {
        Stmt::Assign { targets, value, line } => {
            let after = walk_expr(w, value, module, defaults);
            lemma_assignment_keeps_names(after.builder, module, targets@, value, line);
        },
        Stmt::If { test, body, elif_else_clauses } => {
            let tested = walk_expr(w, test, module, defaults);
            lemma_walk_stmts_keep_names(tested, body@, 0, module, defaults);
            lemma_walk_clauses_keep_names(
                walk_stmts(tested, body@, 0, module, defaults),
                elif_else_clauses@,
                0,
                module,
                defaults,
            );
        },
        Stmt::For { iter, body } => {
            lemma_walk_stmts_keep_names(
                walk_expr(w, iter, module, defaults),
                body@,
                0,
                module,
                defaults,
            );
        },
        _ => {},
    }
}

proof fn lemma_walk_stmts_keep_names(
    w: WalkView,
    stmts: Seq<Stmt>,
    from: int,
    module: Seq<char>,
    defaults: Map<Seq<char>, LiteralView>,
)
    requires
        w.builder.names_agree(),
    ensures
        walk_stmts(w, stmts, from, module, defaults).builder.names_agree(),
    decreases stmts, stmts.len() - from,
{
    if 0 <= from < stmts.len() {
        lemma_walk_stmt_keeps_names(w, stmts[from], module, defaults);
        lemma_walk_stmts_keep_names(
            walk_stmt(w, stmts[from], module, defaults),
            stmts,
            from + 1,
            module,
            defaults,
        );
    }
}

proof fn lemma_walk_clauses_keep_names(
    w: WalkView,
    clauses: Seq<Vec<Stmt>>,
    from: int,
    module: Seq<char>,
    defaults: Map<Seq<char>, LiteralView>,
)
    requires
        w.builder.names_agree(),
    ensures
        walk_clauses(w, clauses, from, module, defaults).builder.names_agree(),
    decreases clauses, clauses.len() - from,
{
    if 0 <= from < clauses.len() {
        lemma_walk_stmts_keep_names(w, clauses[from]@, 0, module, defaults);
        lemma_walk_clauses_keep_names(
            walk_stmts(w, clauses[from]@, 0, module, defaults),
            clauses,
            from + 1,
            module,
            defaults,
        );
    }
}

proof fn lemma_function_keeps_names(
    b: BuilderView,
    def: FunctionDef,
    name: Seq<char>,
    module: Seq<char>,
)
    requires
        b.names_agree(),
    ensures
        visit_function(b, def, name, module).names_agree(),
{
    let defaults = crate::extract::parameter_defaults(def.args@, def.kwonlyargs@);
    let start = WalkView { builder: b, calls: Seq::empty(), gets: Seq::empty() };
    lemma_walk_stmts_keep_names(start, def.body@, 0, module, defaults);
    lemma_additions_keep_names(walk_stmts(start, def.body@, 0, module, defaults).builder, module);
}

proof fn lemma_methods_keep_names(
    b: BuilderView,
    class_name: Seq<char>,
    body: Seq<Stmt>,
    from: int,
    module: Seq<char>,
)
    requires
        b.names_agree(),
    ensures
        visit_methods(b, class_name, body, from, module).names_agree(),
    decreases body.len() - from,
{
    if 0 <= from < body.len() {
        let next = match body[from] {
            Stmt::FunctionDef { def } => {
                lemma_function_keeps_names(
                    b,
                    def,
                    crate::text::dotted(class_name, def.name@),
                    module,
                );
                visit_function(b, def, crate::text::dotted(class_name, def.name@), module)
            },
            _ => b,
        };
        lemma_methods_keep_names(next, class_name, body, from + 1, module);
    }
}

proof fn lemma_import_names_keep_names(
    b: BuilderView,
    module: Seq<char>,
    names: Seq<Alias>,
    from: int,
)
    requires
        b.names_agree(),
    ensures
        import_names(b, module, names, from).names_agree(),
    decreases names.len() - from,
{
    if 0 <= from < names.len() {
        let a = names[from];
        let bound = b.bind_import(crate::visit::bound_name(a), a.name@);
        lemma_additions_keep_names(bound, module);
        lemma_additions_keep_names(bound.add_import(module, a.name@), module);
        lemma_import_names_keep_names(import_name(b, module, a), module, names, from + 1);
    }
}

proof fn lemma_import_from_names_keep_names(
    b: BuilderView,
    module: Seq<char>,
    source: Seq<char>,
    names: Seq<Alias>,
    from: int,
)
    requires
        b.names_agree(),
    ensures
        import_from_names(b, module, source, names, from).names_agree(),
    decreases names.len() - from,
{
    if 0 <= from < names.len() {
        let a = names[from];
        let full = crate::text::dotted(source, a.name@);
        let bound = b.bind_import(crate::visit::bound_name(a), full);
        lemma_additions_keep_names(bound, module);
        lemma_additions_keep_names(bound.add_alias(module, crate::visit::bound_name(a), full), module);
        lemma_import_from_names_keep_names(
            import_from(b, module, source, a),
            module,
            source,
            names,
            from + 1,
        );
    }
}

proof fn lemma_import_relative_names_keep_names(
    b: BuilderView,
    module: Seq<char>,
    level: nat,
    names: Seq<Alias>,
    from: int,
)
    requires
        b.names_agree(),
    ensures
        import_relative_names(b, module, level, names, from).names_agree(),
    decreases names.len() - from,
{
    if 0 <= from < names.len() {
        let a = names[from];
        let target = crate::builder::relative_module(a.name@, module, level);
        let bound = b.bind_import(crate::visit::bound_name(a), target);
        lemma_additions_keep_names(bound, module);
        lemma_additions_keep_names(
            bound.add_alias(module, crate::visit::bound_name(a), target),
            module,
        );
        lemma_import_relative_names_keep_names(
            import_relative(b, module, level, a),
            module,
            level,
            names,
            from + 1,
        );
    }
}

/// A top-level statement leaves every module filed under its own name.
pub proof fn lemma_visit_keeps_names(b: BuilderView, stmt: Stmt, module: Seq<char>)
    requires
        b.names_agree(),
    ensures
        visit(b, stmt, module).names_agree(),
{
    match stmt {
        Stmt::Import { names } => {
            lemma_import_names_keep_names(b, module, names@, 0);
        },
        Stmt::ImportFrom { module: source, names, level } => {
            match source {
                Some(source) => {
                    let absolute = if level > 0 {
                        crate::builder::relative_module(source@, module, level as nat)
                    } else {
                        source@
                    };
                    lemma_import_from_names_keep_names(b, module, absolute, names@, 0);
                },
                None => {
                    lemma_import_relative_names_keep_names(b, module, level as nat, names@, 0);
                },
            }
        },
        Stmt::Assign { targets, value, line } => {
            lemma_assignment_keeps_names(b, module, targets@, value, line);
        },
        Stmt::FunctionDef { def } => {
            lemma_function_keeps_names(b, def, def.name@, module);
        },
        Stmt::ClassDef { name, body } => {
            lemma_methods_keep_names(b, name@, body@, 0, module);
        },
        _ => {},
    }
}

proof fn lemma_visit_all_keeps_names(b: BuilderView, stmts: Seq<Stmt>, from: int, module: Seq<char>)
    requires
        b.names_agree(),
    ensures
        visit_all(b, stmts, from, module).names_agree(),
    decreases stmts.len() - from,
{
    if 0 <= from < stmts.len() {
        lemma_visit_keeps_names(b, stmts[from], module);
        lemma_visit_all_keeps_names(visit(b, stmts[from], module), stmts, from + 1, module);
    }
}

proof fn lemma_visit_blocks_keeps_names(
    b: BuilderView,
    blocks: Seq<ParsedBlock>,
    from: int,
    module: Seq<char>,
)
    requires
        b.names_agree(),
    ensures
        visit_blocks(b, blocks, from, module).names_agree(),
    decreases blocks.len() - from,
{
    if 0 <= from < blocks.len() {
        let next = match blocks[from].result {
            Ok(stmts) => {
                lemma_visit_all_keeps_names(b, stmts@, 0, module);
                visit_all(b, stmts@, 0, module)
            },
            Err(e) => b,
        };
        lemma_visit_blocks_keeps_names(next, blocks, from + 1, module);
    }
}

proof fn lemma_block_errors_keep_names(
    b: BuilderView,
    blocks: Seq<ParsedBlock>,
    from: int,
    module: Seq<char>,
)
    requires
        b.names_agree(),
    ensures
        add_block_errors(b, blocks, from, module).names_agree(),
    decreases blocks.len() - from,
{
    if 0 <= from < blocks.len() {
        lemma_additions_keep_names(b, module);
        let next = match blocks[from].result {
            Ok(stmts) => b,
            Err(e) => b.add_error(module, crate::py::block_failure(blocks[from].line, e@)),
        };
        lemma_block_errors_keep_names(next, blocks, from + 1, module);
    }
}

/// A file leaves every module filed under its own name.
pub proof fn lemma_analyze_keeps_names(
    b: BuilderView,
    file_path: Seq<char>,
    lib_root: Seq<char>,
    prefix: Seq<char>,
    source: FileSource,
)
    requires
        b.names_agree(),
    ensures
        analyze(b, file_path, lib_root, prefix, source).names_agree(),
{
    let started = BuilderView { current_file: file_path, current_prefix: prefix, ..b };
    assert(started.names_agree());
    let owner = crate::analyzer::owning_module(file_path, lib_root, prefix, source);
    match source {
        FileSource::Python { parsed } => {
            let fresh = BuilderView { imports: Map::empty(), ..started };
            assert(fresh.names_agree());
            match parsed {
                ParsedPython::Whole { body } => {
                    lemma_visit_all_keeps_names(fresh, body@, 0, owner);
                },
                ParsedPython::Partial { error, blocks } => {
                    lemma_visit_blocks_keeps_names(fresh, blocks@, 0, owner);
                    lemma_block_errors_keep_names(
                        visit_blocks(fresh, blocks@, 0, owner),
                        blocks@,
                        0,
                        owner,
                    );
                },
            }
        },
        FileSource::Yaml { content } => {
            let name = crate::yaml::yaml_function_name(file_path);
            lemma_additions_keep_names(started, owner);
            lemma_additions_keep_names(started.add_function(owner, name), owner);
        },
        FileSource::Unreadable { message } => {},
        FileSource::Other => {},
    }
    let after = analyzed(started, file_path, lib_root, prefix, source).0;
    assert(after.names_agree());
    lemma_additions_keep_names(after, owner);
}

proof fn lemma_analyze_files_keeps_names(b: BuilderView, files: Seq<SourceFile>, from: int)
    requires
        b.names_agree(),
    ensures
        analyze_files(b, files, from).names_agree(),
    decreases files.len() - from,
{
    if 0 <= from < files.len() {
        let f = files[from];
        lemma_analyze_keeps_names(b, f.path@, f.lib_root@, f.prefix@, f.source);
        lemma_analyze_files_keeps_names(
            analyze(b, f.path@, f.lib_root@, f.prefix@, f.source),
            files,
            from + 1,
        );
    }
}

/// Every function of an index is filed under its own key.
pub proof fn lemma_index_agrees(functions: Seq<FunctionView>, n: int)
    requires
        n <= functions.len(),
    ensures
        forall|k: Seq<char>|
            index_functions(functions, n).contains_key(k) ==> (#[trigger] index_functions(
                functions,
                n,
            )[k]).key() == k,
    decreases n,
{
    if n > 0 {
        lemma_index_agrees(functions, n - 1);
        let before = index_functions(functions, n - 1);
        let after = index_functions(functions, n);
        let last = functions[n - 1];
        assert forall|k: Seq<char>| after.contains_key(k) implies (#[trigger] after[k]).key()
            == k by {
            if k != last.key() {
                assert(before.contains_key(k));
                assert(before[k].key() == k);
            }
        }
    }
}

/// In the graph of a build every module is filed under its own name and
/// every function under its own key, whatever the files hold and whether or
/// not the graph is cut down to one function.
pub proof fn lemma_graph_is_well_keyed(
    lib_paths: Seq<(Seq<char>, Seq<char>)>,
    files: Seq<SourceFile>,
    function: Option<Seq<char>>,
)
    ensures
        forall|k: Seq<char>|
            graph_of(lib_paths, files, function).modules.contains_key(k) ==> (#[trigger] graph_of(
                lib_paths,
                files,
                function,
            ).modules[k]).name == k,
        forall|k: Seq<char>|
            graph_of(lib_paths, files, function).functions.contains_key(k) ==> (#[trigger] graph_of(
                lib_paths,
                files,
                function,
            ).functions[k]).key() == k,
{
    let start = empty_builder(lib_paths);
    assert(start.names_agree());
    lemma_analyze_files_keeps_names(start, files, 0);
    let b = analyze_files(start, files, 0);
    let resolved = crate::resolve::resolve_all(
        b.functions,
        b.modules,
        crate::resolve::prefixes_of(b.lib_paths),
    );
    let flat = crate::partial::flatten_all(resolved, b.modules);
    lemma_index_agrees(flat, flat.len() as int);
    let whole = finished(b);
    assert(whole.modules == b.modules);
}

} // verus!
