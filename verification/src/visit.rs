//! The walk over the statements of one Python file.
//!
//! Top-level statements feed the module table: imports, aliases, constants,
//! partial bindings, and one function record per function and per method.
//! Inside a function body the walk collects callee names and component
//! references, and every assignment it meets on the way is examined for
//! partial bindings and constants just as at the top level.

use crate::ast::{Alias, Expr, FunctionDef, Keyword, Stmt};
use crate::builder::{relative_module, step_up_and_append, trim_suffix, BuilderView, CallGraphBuilder};
use crate::extract::{
    annotation_text, calls_in_expr, decorators_from, extract_assignment_targets,
    extract_calls_from_expr, extract_component_gets_from_expr, extract_decorators,
    extract_parameter_defaults, extract_return_annotation, get_function_name, get_string_literal,
    get_variable_name, gets_in_expr, keyword_literals, keywords_from, literals_from, literals_of,
    name_of, parameter_defaults, target_names,
};
use crate::ordered::{set_insert, set_items, set_new};
use crate::schema::{FunctionInfo, FunctionView, Literal, LiteralView, PartialView};
use crate::strmap::StrMap;
use crate::text::{glue, contains_char, dot_join, dotted, str_eq, views, without_suffix};
use indexmap::IndexSet;
use vstd::prelude::*;

verus! {

/// The constants that module `module` has so far.
pub open spec fn module_constants(b: BuilderView, module: Seq<char>) -> Map<Seq<char>, Seq<char>> {
    if b.modules.contains_key(module) {
        b.modules[module].constants
    } else {
        Map::empty()
    }
}

/// Whether a callee name is that of a partial application.
pub open spec fn is_partial_call(name: Seq<char>) -> bool {
    name == "functools.partial"@ || name == "partial"@
}

/// The record of the pseudo-function that a partial binding makes: its only
/// raw call is the wrapped function.
pub open spec fn partial_record(
    name: Seq<char>,
    module: Seq<char>,
    line: usize,
    wrapped: Seq<char>,
) -> FunctionView {
    FunctionView {
        name,
        module,
        line,
        calls: seq![wrapped],
        decorators: Seq::empty(),
        resolved_calls: Seq::empty(),
        resolved_decorators: Seq::empty(),
        parameter_defaults: Map::empty(),
        component_gets: Seq::empty(),
        resolved_component_gets: Seq::empty(),
        is_partial: true,
        return_annotation: None,
        resolved_return_annotation: None,
    }
}

/// Binding one name to a partial application: when the first argument spells
/// the wrapped function, the module gets the binding and the list gets its
/// pseudo-function.
pub open spec fn bind_partial(
    b: BuilderView,
    module: Seq<char>,
    name: Seq<char>,
    args: Seq<Expr>,
    keywords: Seq<Keyword>,
    line: usize,
) -> BuilderView {
    if args.len() > 0 {
        match name_of(args[0]) {
            Some(wrapped) => b.add_partial(
                module,
                name,
                PartialView {
                    func: wrapped,
                    args: literals_from(args, 1),
                    kwargs: keywords_from(keywords, 0, Map::empty()),
                },
            ).push_function(partial_record(name, module, line, wrapped)),
            None => b,
        }
    } else {
        b
    }
}

/// `bind_partial` for the names from position `from` on.
pub open spec fn bind_partials(
    b: BuilderView,
    module: Seq<char>,
    names: Seq<Seq<char>>,
    from: int,
    args: Seq<Expr>,
    keywords: Seq<Keyword>,
    line: usize,
) -> BuilderView
    decreases names.len() - from,
{
    if from < 0 || from >= names.len() {
        b
    } else {
        bind_partials(
            bind_partial(b, module, names[from], args, keywords, line),
            module,
            names,
            from + 1,
            args,
            keywords,
            line,
        )
    }
}

/// `bind_partials` for the names bound by the targets from position `from`
/// on.
pub open spec fn bind_partial_targets(
    b: BuilderView,
    module: Seq<char>,
    targets: Seq<Expr>,
    from: int,
    args: Seq<Expr>,
    keywords: Seq<Keyword>,
    line: usize,
) -> BuilderView
    decreases targets.len() - from,
{
    if from < 0 || from >= targets.len() {
        b
    } else {
        bind_partial_targets(
            match target_names(targets[from]) {
                Some(names) => bind_partials(b, module, names, 0, args, keywords, line),
                None => b,
            },
            module,
            targets,
            from + 1,
            args,
            keywords,
            line,
        )
    }
}

/// What an assignment adds when its value is a call of `functools.partial`
/// or `partial`.
pub open spec fn detect_partial(
    b: BuilderView,
    module: Seq<char>,
    targets: Seq<Expr>,
    value: Expr,
    line: usize,
) -> BuilderView {
    match value {
        Expr::Call { func, args, keywords } => match name_of(*func) {
            Some(name) => if is_partial_call(name) {
                bind_partial_targets(b, module, targets, 0, args@, keywords@, line)
            } else {
                b
            },
            None => b,
        },
        _ => b,
    }
}

/// Binding the names from position `from` on to a value: as constants, or as
/// aliases.
pub open spec fn bind_values(
    b: BuilderView,
    module: Seq<char>,
    names: Seq<Seq<char>>,
    from: int,
    value: Seq<char>,
    constant: bool,
) -> BuilderView
    decreases names.len() - from,
{
    if from < 0 || from >= names.len() {
        b
    } else {
        bind_values(
            if constant {
                b.add_constant(module, names[from], value)
            } else {
                b.add_alias(module, names[from], value)
            },
            module,
            names,
            from + 1,
            value,
            constant,
        )
    }
}

/// `bind_values` for the names bound by the targets from position `from` on.
pub open spec fn bind_value_targets(
    b: BuilderView,
    module: Seq<char>,
    targets: Seq<Expr>,
    from: int,
    value: Seq<char>,
    constant: bool,
) -> BuilderView
    decreases targets.len() - from,
{
    if from < 0 || from >= targets.len() {
        b
    } else {
        bind_value_targets(
            match target_names(targets[from]) {
                Some(names) => bind_values(b, module, names, 0, value, constant),
                None => b,
            },
            module,
            targets,
            from + 1,
            value,
            constant,
        )
    }
}

/// What an assignment adds when its value is a string literal, which makes
/// its targets constants, or a name, which makes them aliases: of the name
/// itself when it is dotted, of `module.name` when it is not.
pub open spec fn detect_constant(
    b: BuilderView,
    module: Seq<char>,
    targets: Seq<Expr>,
    value: Expr,
) -> BuilderView {
    match value {
        Expr::StringLiteral { value } => bind_value_targets(b, module, targets, 0, value@, true),
        _ => match name_of(value) {
            Some(name) => bind_value_targets(
                b,
                module,
                targets,
                0,
                if name.contains('.') {
                    name
                } else {
                    dotted(module, name)
                },
                false,
            ),
            None => b,
        },
    }
}

/// What an assignment adds to the module table.
pub open spec fn detect_assignment(
    b: BuilderView,
    module: Seq<char>,
    targets: Seq<Expr>,
    value: Expr,
    line: usize,
) -> BuilderView {
    detect_constant(detect_partial(b, module, targets, value, line), module, targets, value)
}

/// The state of the walk through one function body.
pub struct WalkView {
    pub builder: BuilderView,
    pub calls: Seq<Seq<char>>,
    pub gets: Seq<Seq<char>>,
}

/// The walk after one expression of a function body.
pub open spec fn walk_expr(
    w: WalkView,
    e: Expr,
    module: Seq<char>,
    defaults: Map<Seq<char>, LiteralView>,
) -> WalkView {
    WalkView {
        builder: w.builder,
        calls: calls_in_expr(e, w.calls),
        gets: gets_in_expr(e, w.gets, defaults, module_constants(w.builder, module)),
    }
}

/// The walk after one statement of a function body.
///
/// Expression statements, assignments, `return`, the branches of `if` and
/// the body of `for` are walked; any other statement is passed over. An
/// assignment is walked for its value and then examined as at the top
/// level.
pub open spec fn walk_stmt(
    w: WalkView,
    stmt: Stmt,
    module: Seq<char>,
    defaults: Map<Seq<char>, LiteralView>,
) -> WalkView
    decreases stmt, 0nat,
{
    match stmt {
        Stmt::Expr { value } => walk_expr(w, value, module, defaults),
        Stmt::Assign { targets, value, line } => {
            let after = walk_expr(w, value, module, defaults);
            WalkView {
                builder: detect_assignment(after.builder, module, targets@, value, line),
                ..after
            }
        },
        Stmt::Return { value } => match value {
            Some(e) => walk_expr(w, e, module, defaults),
            None => w,
        },
        Stmt::If { test, body, elif_else_clauses } => walk_clauses(
            walk_stmts(walk_expr(w, test, module, defaults), body@, 0, module, defaults),
            elif_else_clauses@,
            0,
            module,
            defaults,
        ),
        Stmt::For { iter, body } => walk_stmts(
            walk_expr(w, iter, module, defaults),
            body@,
            0,
            module,
            defaults,
        ),
        _ => w,
    }
}

/// The walk after the statements from position `from` on.
pub open spec fn walk_stmts(
    w: WalkView,
    stmts: Seq<Stmt>,
    from: int,
    module: Seq<char>,
    defaults: Map<Seq<char>, LiteralView>,
) -> WalkView
    decreases stmts, stmts.len() - from,
{
    if from < 0 || from >= stmts.len() {
        w
    } else {
        walk_stmts(walk_stmt(w, stmts[from], module, defaults), stmts, from + 1, module, defaults)
    }
}

/// The walk after the branch bodies from position `from` on.
pub open spec fn walk_clauses(
    w: WalkView,
    clauses: Seq<Vec<Stmt>>,
    from: int,
    module: Seq<char>,
    defaults: Map<Seq<char>, LiteralView>,
) -> WalkView
    decreases clauses, clauses.len() - from,
{
    if from < 0 || from >= clauses.len() {
        w
    } else {
        walk_clauses(
            walk_stmts(w, clauses[from]@, 0, module, defaults),
            clauses,
            from + 1,
            module,
            defaults,
        )
    }
}

/// What a function or method definition adds: whatever the assignments in
/// its body add, its name in the module, and its record.
pub open spec fn visit_function(
    b: BuilderView,
    def: FunctionDef,
    name: Seq<char>,
    module: Seq<char>,
) -> BuilderView {
    let defaults = parameter_defaults(def.args@, def.kwonlyargs@);
    let w = walk_stmts(
        WalkView { builder: b, calls: Seq::empty(), gets: Seq::empty() },
        def.body@,
        0,
        module,
        defaults,
    );
    w.builder.add_function(module, name).push_function(
        FunctionView {
            name,
            module,
            line: def.line,
            calls: w.calls,
            decorators: decorators_from(def.decorator_list@, 0, Seq::empty()),
            resolved_calls: Seq::empty(),
            resolved_decorators: Seq::empty(),
            parameter_defaults: defaults,
            component_gets: w.gets,
            resolved_component_gets: Seq::empty(),
            is_partial: false,
            return_annotation: match def.returns {
                Some(e) => Some(annotation_text(e)),
                None => None,
            },
            resolved_return_annotation: None,
        },
    )
}

/// The methods of a class body from position `from` on, each under the name
/// `Class.method`. Only function definitions directly in the class body are
/// methods.
pub open spec fn visit_methods(
    b: BuilderView,
    class_name: Seq<char>,
    body: Seq<Stmt>,
    from: int,
    module: Seq<char>,
) -> BuilderView
    decreases body.len() - from,
{
    if from < 0 || from >= body.len() {
        b
    } else {
        visit_methods(
            match body[from] {
                Stmt::FunctionDef { def } => visit_function(
                    b,
                    def,
                    dotted(class_name, def.name@),
                    module,
                ),
                _ => b,
            },
            class_name,
            body,
            from + 1,
            module,
        )
    }
}

/// The name that an import binds: the `as` name, or the imported name.
pub open spec fn bound_name(a: Alias) -> Seq<char> {
    match a.asname {
        Some(n) => n@,
        None => a.name@,
    }
}

impl BuilderView {
    /// The builder with `bound` recorded as standing for `target` in the file
    /// being read.
    pub open spec fn bind_import(self, bound: Seq<char>, target: Seq<char>) -> BuilderView {
        BuilderView { imports: self.imports.insert(bound, target), ..self }
    }
}

/// `import name [as bound]`: the module imports `name`, and `bound` is an
/// alias of it when the two differ.
pub open spec fn import_name(b: BuilderView, module: Seq<char>, a: Alias) -> BuilderView {
    let imported = b.bind_import(bound_name(a), a.name@).add_import(module, a.name@);
    if bound_name(a) != a.name@ {
        imported.add_alias(module, bound_name(a), a.name@)
    } else {
        imported
    }
}

/// `import_name` for the names from position `from` on.
pub open spec fn import_names(b: BuilderView, module: Seq<char>, names: Seq<Alias>, from: int)
    -> BuilderView
    decreases names.len() - from,
{
    if from < 0 || from >= names.len() {
        b
    } else {
        import_names(import_name(b, module, names[from]), module, names, from + 1)
    }
}

/// `from source import name [as bound]`: the module imports `source.name`,
/// and `bound` is an alias of it when it differs from `name`. A star import
/// is the entry `source.*`.
pub open spec fn import_from(b: BuilderView, module: Seq<char>, source: Seq<char>, a: Alias)
    -> BuilderView {
    let full = dotted(source, a.name@);
    let bound = b.bind_import(bound_name(a), full);
    let aliased = if bound_name(a) != a.name@ {
        bound.add_alias(module, bound_name(a), full)
    } else {
        bound
    };
    aliased.add_import(module, full)
}

/// `import_from` for the names from position `from` on.
pub open spec fn import_from_names(
    b: BuilderView,
    module: Seq<char>,
    source: Seq<char>,
    names: Seq<Alias>,
    from: int,
) -> BuilderView
    decreases names.len() - from,
{
    if from < 0 || from >= names.len() {
        b
    } else {
        import_from_names(
            import_from(b, module, source, names[from]),
            module,
            source,
            names,
            from + 1,
        )
    }
}

/// `from <dots> import name [as bound]`, without a module after the dots:
/// the name is placed as a module after the dots would be.
pub open spec fn import_relative(b: BuilderView, module: Seq<char>, level: nat, a: Alias)
    -> BuilderView {
    let target = relative_module(a.name@, module, level);
    let bound = b.bind_import(bound_name(a), target);
    let aliased = if bound_name(a) != a.name@ {
        bound.add_alias(module, bound_name(a), target)
    } else {
        bound
    };
    if a.name@ == "*"@ {
        aliased.add_import(module, trim_suffix(target, ".*"@) + ".*"@)
    } else {
        aliased.add_import(module, target)
    }
}

/// `import_relative` for the names from position `from` on.
pub open spec fn import_relative_names(
    b: BuilderView,
    module: Seq<char>,
    level: nat,
    names: Seq<Alias>,
    from: int,
) -> BuilderView
    decreases names.len() - from,
{
    if from < 0 || from >= names.len() {
        b
    } else {
        import_relative_names(
            import_relative(b, module, level, names[from]),
            module,
            level,
            names,
            from + 1,
        )
    }
}

/// What one top-level statement of the file for module `module` adds.
pub open spec fn visit(b: BuilderView, stmt: Stmt, module: Seq<char>) -> BuilderView {
    match stmt {
        Stmt::Import { names } => import_names(b, module, names@, 0),
        Stmt::ImportFrom { module: source, names, level } => match source {
            Some(source) => import_from_names(
                b,
                module,
                if level > 0 {
                    relative_module(source@, module, level as nat)
                } else {
                    source@
                },
                names@,
                0,
            ),
            None => if level > 0 {
                import_relative_names(b, module, level as nat, names@, 0)
            } else {
                b
            },
        },
        Stmt::Assign { targets, value, line } => detect_assignment(
            b,
            module,
            targets@,
            value,
            line,
        ),
        Stmt::FunctionDef { def } => visit_function(b, def, def.name@, module),
        Stmt::ClassDef { name, body } => visit_methods(b, name@, body@, 0, module),
        _ => b,
    }
}

impl CallGraphBuilder {
    fn bind_partial_name(
        &mut self,
        module: &str,
        name: &str,
        args: &Vec<Expr>,
        keywords: &Vec<Keyword>,
        line: usize,
    )
        ensures
            final(self)@ == bind_partial(old(self)@, module@, name@, args@, keywords@, line),
    {
        if args.len() > 0 {
            match get_function_name(&args[0]) {
                Some(wrapped) => {
                    let bound_args = literals_of(args, 1);
                    let kwargs = keyword_literals(keywords);
                    self.add_partial_to_module(module, name, wrapped.as_str(), bound_args, kwargs);
                    let mut record = FunctionInfo::new(name.to_owned(), module.to_owned(), line);
                    proof {
                        assert(Seq::<Seq<char>>::empty().push(wrapped@) =~= seq![wrapped@]);
                    }
                    let _ = set_insert(&mut record.calls, wrapped);
                    record.is_partial = true;
                    self.push_function(record);
                },
                None => {},
            }
        }
    }

    fn bind_partial_names(
        &mut self,
        module: &str,
        names: &Vec<String>,
        args: &Vec<Expr>,
        keywords: &Vec<Keyword>,
        line: usize,
    )
        ensures
            final(self)@ == bind_partials(
                old(self)@,
                module@,
                views(names@),
                0,
                args@,
                keywords@,
                line,
            ),
    {
        let mut j: usize = 0;
        while j < names.len()
            invariant
                j <= names.len(),
                bind_partials(old(self)@, module@, views(names@), 0, args@, keywords@, line)
                    == bind_partials(self@, module@, views(names@), j as int, args@, keywords@, line),
            decreases names.len() - j,
        {
            self.bind_partial_name(module, names[j].as_str(), args, keywords, line);
            j += 1;
        }
    }

    /// Examines an assignment for a partial application (see
    /// `detect_partial`).
    pub fn detect_partial_assignments(
        &mut self,
        targets: &Vec<Expr>,
        value: &Expr,
        line: usize,
        module: &str,
    )
        ensures
            final(self)@ == detect_partial(old(self)@, module@, targets@, *value, line),
    {
        match value {
            Expr::Call { func, args, keywords } => {
                match get_function_name(func) {
                    Some(name) => {
                        if str_eq(name.as_str(), "functools.partial") || str_eq(
                            name.as_str(),
                            "partial",
                        ) {
                            let mut i: usize = 0;
                            while i < targets.len()
                                invariant
                                    i <= targets.len(),
                                    bind_partial_targets(
                                        old(self)@,
                                        module@,
                                        targets@,
                                        0,
                                        args@,
                                        keywords@,
                                        line,
                                    ) == bind_partial_targets(
                                        self@,
                                        module@,
                                        targets@,
                                        i as int,
                                        args@,
                                        keywords@,
                                        line,
                                    ),
                                decreases targets.len() - i,
                            {
                                match extract_assignment_targets(&targets[i]) {
                                    Some(names) => {
                                        self.bind_partial_names(
                                            module,
                                            &names,
                                            args,
                                            keywords,
                                            line,
                                        );
                                    },
                                    None => {},
                                }
                                i += 1;
                            }
                        }
                    },
                    None => {},
                }
            },
            _ => {},
        }
    }

    fn bind_value_names(&mut self, module: &str, names: &Vec<String>, value: &str, constant: bool)
        ensures
            final(self)@ == bind_values(old(self)@, module@, views(names@), 0, value@, constant),
    {
        let mut j: usize = 0;
        while j < names.len()
            invariant
                j <= names.len(),
                bind_values(old(self)@, module@, views(names@), 0, value@, constant)
                    == bind_values(self@, module@, views(names@), j as int, value@, constant),
            decreases names.len() - j,
        {
            if constant {
                self.add_constant_to_module(module, names[j].as_str(), value);
            } else {
                self.add_alias_to_module(module, names[j].as_str(), value);
            }
            j += 1;
        }
    }

    fn bind_value_to_targets(
        &mut self,
        module: &str,
        targets: &Vec<Expr>,
        value: &str,
        constant: bool,
    )
        ensures
            final(self)@ == bind_value_targets(
                old(self)@,
                module@,
                targets@,
                0,
                value@,
                constant,
            ),
    {
        let mut i: usize = 0;
        while i < targets.len()
            invariant
                i <= targets.len(),
                bind_value_targets(old(self)@, module@, targets@, 0, value@, constant)
                    == bind_value_targets(self@, module@, targets@, i as int, value@, constant),
            decreases targets.len() - i,
        {
            match extract_assignment_targets(&targets[i]) {
                Some(names) => {
                    self.bind_value_names(module, &names, value, constant);
                },
                None => {},
            }
            i += 1;
        }
    }

    /// Examines an assignment for a constant or an alias (see
    /// `detect_constant`).
    pub fn detect_constant_assignments(&mut self, targets: &Vec<Expr>, value: &Expr, module: &str)
        ensures
            final(self)@ == detect_constant(old(self)@, module@, targets@, *value),
    {
        match get_string_literal(value) {
            Some(text) => {
                self.bind_value_to_targets(module, targets, text.as_str(), true);
            },
            None => {
                match get_variable_name(value) {
                    Some(name) => {
                        let full = if contains_char(name.as_str(), '.') {
                            name
                        } else {
                            dot_join(module, name.as_str())
                        };
                        self.bind_value_to_targets(module, targets, full.as_str(), false);
                    },
                    None => {},
                }
            },
        }
    }

    fn walk_expr(
        &self,
        expr: &Expr,
        module: &str,
        defaults: &StrMap<Literal>,
        calls: &mut IndexSet<String>,
        gets: &mut IndexSet<String>,
    )
        ensures
            set_items(*final(calls)) == calls_in_expr(*expr, set_items(*old(calls))),
            set_items(*final(gets)) == gets_in_expr(
                *expr,
                set_items(*old(gets)),
                defaults@,
                module_constants(self@, module@),
            ),
    {
        extract_calls_from_expr(expr, calls);
        match self.modules.get(module) {
            Some(module_info) => {
                extract_component_gets_from_expr(expr, gets, defaults, &module_info.constants);
            },
            None => {
                let none: StrMap<String> = StrMap::new();
                extract_component_gets_from_expr(expr, gets, defaults, &none);
            },
        }
    }

    /// Walks one statement of a function body (see `walk_stmt`).
    pub fn walk_stmt(
        &mut self,
        stmt: &Stmt,
        module: &str,
        defaults: &StrMap<Literal>,
        calls: &mut IndexSet<String>,
        gets: &mut IndexSet<String>,
    )
        ensures
            (WalkView {
                builder: final(self)@,
                calls: set_items(*final(calls)),
                gets: set_items(*final(gets)),
            }) == walk_stmt(
                WalkView {
                    builder: old(self)@,
                    calls: set_items(*old(calls)),
                    gets: set_items(*old(gets)),
                },
                *stmt,
                module@,
                defaults@,
            ),
        decreases stmt, 0nat,
    {
        match stmt {
            Stmt::Expr { value } => {
                self.walk_expr(value, module, defaults, calls, gets);
            },
            Stmt::Assign { targets, value, line } => {
                self.walk_expr(value, module, defaults, calls, gets);
                self.detect_partial_assignments(targets, value, *line, module);
                self.detect_constant_assignments(targets, value, module);
            },
            Stmt::Return { value } => {
                match value {
                    Some(e) => {
                        self.walk_expr(e, module, defaults, calls, gets);
                    },
                    None => {},
                }
            },
            Stmt::If { test, body, elif_else_clauses } => {
                self.walk_expr(test, module, defaults, calls, gets);
                self.walk_stmts(body, module, defaults, calls, gets);
                self.walk_clauses(elif_else_clauses, module, defaults, calls, gets);
            },
            Stmt::For { iter, body } => {
                self.walk_expr(iter, module, defaults, calls, gets);
                self.walk_stmts(body, module, defaults, calls, gets);
            },
            _ => {},
        }
    }

    fn walk_clauses(
        &mut self,
        clauses: &Vec<Vec<Stmt>>,
        module: &str,
        defaults: &StrMap<Literal>,
        calls: &mut IndexSet<String>,
        gets: &mut IndexSet<String>,
    )
        ensures
            (WalkView {
                builder: final(self)@,
                calls: set_items(*final(calls)),
                gets: set_items(*final(gets)),
            }) == walk_clauses(
                WalkView {
                    builder: old(self)@,
                    calls: set_items(*old(calls)),
                    gets: set_items(*old(gets)),
                },
                clauses@,
                0,
                module@,
                defaults@,
            ),
        decreases clauses, 1nat,
    {
        let ghost start = WalkView {
            builder: self@,
            calls: set_items(*calls),
            gets: set_items(*gets),
        };
        let mut i: usize = 0;
        while i < clauses.len()
            invariant
                i <= clauses.len(),
                walk_clauses(start, clauses@, 0, module@, defaults@) == walk_clauses(
                    WalkView {
                        builder: self@,
                        calls: set_items(*calls),
                        gets: set_items(*gets),
                    },
                    clauses@,
                    i as int,
                    module@,
                    defaults@,
                ),
            decreases clauses.len() - i,
        {
            self.walk_stmts(&clauses[i], module, defaults, calls, gets);
            i += 1;
        }
    }

    /// Walks the statements of a function body in order.
    pub fn walk_stmts(
        &mut self,
        stmts: &Vec<Stmt>,
        module: &str,
        defaults: &StrMap<Literal>,
        calls: &mut IndexSet<String>,
        gets: &mut IndexSet<String>,
    )
        ensures
            (WalkView {
                builder: final(self)@,
                calls: set_items(*final(calls)),
                gets: set_items(*final(gets)),
            }) == walk_stmts(
                WalkView {
                    builder: old(self)@,
                    calls: set_items(*old(calls)),
                    gets: set_items(*old(gets)),
                },
                stmts@,
                0,
                module@,
                defaults@,
            ),
        decreases stmts, 1nat,
    {
        let ghost start = WalkView {
            builder: self@,
            calls: set_items(*calls),
            gets: set_items(*gets),
        };
        let mut i: usize = 0;
        while i < stmts.len()
            invariant
                i <= stmts.len(),
                walk_stmts(start, stmts@, 0, module@, defaults@) == walk_stmts(
                    WalkView {
                        builder: self@,
                        calls: set_items(*calls),
                        gets: set_items(*gets),
                    },
                    stmts@,
                    i as int,
                    module@,
                    defaults@,
                ),
            decreases stmts.len() - i,
        {
            self.walk_stmt(&stmts[i], module, defaults, calls, gets);
            i += 1;
        }
    }

    /// Records a function or method definition under `name` (see
    /// `visit_function`).
    pub fn visit_function(&mut self, def: &FunctionDef, name: &str, module: &str)
        ensures
            final(self)@ == visit_function(old(self)@, *def, name@, module@),
    {
        let defaults = extract_parameter_defaults(&def.args, &def.kwonlyargs);
        let mut calls = set_new();
        let mut gets = set_new();
        self.walk_stmts(&def.body, module, &defaults, &mut calls, &mut gets);
        let mut record = FunctionInfo::new(name.to_owned(), module.to_owned(), def.line);
        record.calls = calls;
        record.decorators = extract_decorators(&def.decorator_list);
        record.parameter_defaults = defaults;
        record.component_gets = gets;
        record.return_annotation = extract_return_annotation(&def.returns);
        self.add_function_to_module(module, name);
        self.push_function(record);
    }

    fn bind_import(&mut self, bound: String, target: String)
        ensures
            final(self)@ == old(self)@.bind_import(bound@, target@),
    {
        self.imports.insert(bound, target);
    }

    fn visit_import(&mut self, names: &Vec<Alias>, module: &str)
        ensures
            final(self)@ == import_names(old(self)@, module@, names@, 0),
    {
        let mut i: usize = 0;
        while i < names.len()
            invariant
                i <= names.len(),
                import_names(old(self)@, module@, names@, 0) == import_names(
                    self@,
                    module@,
                    names@,
                    i as int,
                ),
            decreases names.len() - i,
        {
            let alias = &names[i];
            let bound = match &alias.asname {
                Some(n) => n.clone(),
                None => alias.name.clone(),
            };
            let differs = !str_eq(bound.as_str(), alias.name.as_str());
            self.bind_import(bound.clone(), alias.name.clone());
            self.add_import_to_module(module, alias.name.as_str());
            if differs {
                self.add_alias_to_module(module, bound.as_str(), alias.name.as_str());
            }
            i += 1;
        }
    }

    fn visit_import_from(&mut self, source: &str, names: &Vec<Alias>, module: &str)
        ensures
            final(self)@ == import_from_names(old(self)@, module@, source@, names@, 0),
    {
        let mut i: usize = 0;
        while i < names.len()
            invariant
                i <= names.len(),
                import_from_names(old(self)@, module@, source@, names@, 0) == import_from_names(
                    self@,
                    module@,
                    source@,
                    names@,
                    i as int,
                ),
            decreases names.len() - i,
        {
            let alias = &names[i];
            let bound = match &alias.asname {
                Some(n) => n.clone(),
                None => alias.name.clone(),
            };
            let differs = !str_eq(bound.as_str(), alias.name.as_str());
            let full = dot_join(source, alias.name.as_str());
            self.bind_import(bound.clone(), full.clone());
            if differs {
                self.add_alias_to_module(module, bound.as_str(), full.as_str());
            }
            self.add_import_to_module(module, full.as_str());
            i += 1;
        }
    }

    fn visit_import_relative(&mut self, level: u32, names: &Vec<Alias>, module: &str)
        ensures
            final(self)@ == import_relative_names(old(self)@, module@, level as nat, names@, 0),
    {
        let mut i: usize = 0;
        while i < names.len()
            invariant
                i <= names.len(),
                import_relative_names(old(self)@, module@, level as nat, names@, 0)
                    == import_relative_names(self@, module@, level as nat, names@, i as int),
            decreases names.len() - i,
        {
            let alias = &names[i];
            let bound = match &alias.asname {
                Some(n) => n.clone(),
                None => alias.name.clone(),
            };
            let differs = !str_eq(bound.as_str(), alias.name.as_str());
            let target = step_up_and_append(alias.name.as_str(), module, level);
            self.bind_import(bound.clone(), target.clone());
            if differs {
                self.add_alias_to_module(module, bound.as_str(), target.as_str());
            }
            if str_eq(alias.name.as_str(), "*") {
                let stem = match without_suffix(target.as_str(), ".*") {
                    Some(s) => s,
                    None => target,
                };
                let entry = glue(stem.as_str(), ".*");
                self.add_import_to_module(module, entry.as_str());
            } else {
                self.add_import_to_module(module, target.as_str());
            }
            i += 1;
        }
    }

    fn visit_class(&mut self, class_name: &str, body: &Vec<Stmt>, module: &str)
        ensures
            final(self)@ == visit_methods(old(self)@, class_name@, body@, 0, module@),
    {
        let mut i: usize = 0;
        while i < body.len()
            invariant
                i <= body.len(),
                visit_methods(old(self)@, class_name@, body@, 0, module@) == visit_methods(
                    self@,
                    class_name@,
                    body@,
                    i as int,
                    module@,
                ),
            decreases body.len() - i,
        {
            match &body[i] {
                Stmt::FunctionDef { def } => {
                    let name = dot_join(class_name, def.name.as_str());
                    self.visit_function(def, name.as_str(), module);
                },
                _ => {},
            }
            i += 1;
        }
    }

    /// Takes in one top-level statement of the file for module
    /// `current_module` (see `visit`).
    pub fn visit_stmt_in(&mut self, stmt: &Stmt, current_module: &str)
        ensures
            final(self)@ == visit(old(self)@, *stmt, current_module@),
    {
        match stmt {
            Stmt::Import { names } => {
                self.visit_import(names, current_module);
            },
            Stmt::ImportFrom { module, names, level } => {
                match module {
                    Some(source) => {
                        let absolute = if *level > 0 {
                            step_up_and_append(source.as_str(), current_module, *level)
                        } else {
                            source.clone()
                        };
                        self.visit_import_from(absolute.as_str(), names, current_module);
                    },
                    None => {
                        if *level > 0 {
                            self.visit_import_relative(*level, names, current_module);
                        }
                    },
                }
            },
            Stmt::Assign { targets, value, line } => {
                self.detect_partial_assignments(targets, value, *line, current_module);
                self.detect_constant_assignments(targets, value, current_module);
            },
            Stmt::FunctionDef { def } => {
                self.visit_function(def, def.name.as_str(), current_module);
            },
            Stmt::ClassDef { name, body } => {
                self.visit_class(name.as_str(), body, current_module);
            },
            _ => {},
        }
    }

    /// Takes in one top-level statement of the current file, which lies
    /// below `lib_root` and belongs to the library `prefix`.
    pub fn visit_stmt(&mut self, stmt: &Stmt, lib_root: &str, prefix: &str)
        ensures
            final(self)@ == visit(
                old(self)@,
                *stmt,
                crate::builder::module_of(
                    crate::builder::relative_path(old(self)@.current_file, lib_root@),
                    old(self)@.current_file,
                    prefix@,
                ),
            ),
    {
        let current_module = self.derive_module(self.current_file.as_str(), lib_root, prefix);
        self.visit_stmt_in(stmt, current_module.as_str());
    }
}

} // verus!
