//! Name resolution over a finished module table.
//!
//! Resolution runs only after every file has been read: it looks names up in
//! the module table and in the list of all functions, and never changes
//! either. A lookup that finds nothing yields `None`; that is not an error.

use crate::builder::{BuilderView, CallGraphBuilder};
use crate::ordered::{
    collect, map_entries, map_get_index, map_len, set_contains, set_get_index, set_insert,
    set_items, set_len, set_new,
};
use crate::schema::{function_views, FunctionInfo, FunctionView, ModuleInfo, ModuleView};
use crate::strmap::{Duplicate, StrMap};
use crate::text::{
    glue, contains_char, dot_join, dotted, ends_with, find_char, index_of, slice, split,
    split_on, starts_with, str_eq, trim_char, trim_matches, views,
};
use indexmap::IndexMap;
use vstd::prelude::*;

verus! {

/// How many modules a lookup may pass through, by alias or by star import,
/// before it gives up. Import graphs may be cyclic; the limit makes every
/// lookup end.
pub const RESOLVE_DEPTH_LIMIT: usize = 16;

/// `.name`.
pub open spec fn dot_suffix(name: Seq<char>) -> Seq<char> {
    seq!['.'] + name
}

/// The marker that ends a star import entry.
pub open spec fn star_marker() -> Seq<char> {
    seq!['.', '*']
}

/// The part of a dotted name before its first dot.
pub open spec fn head_segment(name: Seq<char>) -> Seq<char> {
    name.take(index_of(name, '.'))
}

/// The part of a dotted name after its first dot.
pub open spec fn tail_segments(name: Seq<char>) -> Seq<char> {
    name.skip(index_of(name, '.') + 1)
}

/// The part of a name after its last dot; the whole name when it has none.
pub open spec fn last_segment(name: Seq<char>) -> Seq<char> {
    split(name, '.').last()
}

/// Whether a module defines a name: as a function or method, or as a partial
/// binding.
pub open spec fn defines(m: ModuleView, name: Seq<char>) -> bool {
    m.functions.contains(name) || m.partials.contains_key(name)
}

/// The first import entry, from position `from` on, that ends in `.name`.
pub open spec fn explicit_import(imports: Seq<Seq<char>>, name: Seq<char>, from: int) -> Option<
    Seq<char>,
>
    decreases imports.len() - from,
{
    if from < 0 || from >= imports.len() {
        None
    } else if dot_suffix(name).is_suffix_of(imports[from]) {
        Some(imports[from])
    } else {
        explicit_import(imports, name, from + 1)
    }
}

/// The first import entry, from position `from` on, that is `name` or ends in
/// `.name`: the module bound to the name `name`.
pub open spec fn import_target(imports: Seq<Seq<char>>, name: Seq<char>, from: int) -> Option<
    Seq<char>,
>
    decreases imports.len() - from,
{
    if from < 0 || from >= imports.len() {
        None
    } else if dot_suffix(name).is_suffix_of(imports[from]) || imports[from] == name {
        Some(imports[from])
    } else {
        import_target(imports, name, from + 1)
    }
}

/// Where `name` leads when looked up inside module `target`.
///
/// It is `target.name` when the module defines the name, as a function or
/// as a partial binding. Otherwise, when the
/// name is dotted and its head is an alias of the module, the lookup goes on
/// with the rest of the name in the alias target. Otherwise it is the first
/// import entry ending in `.name`, or else the first hit among the module's
/// star imports, searched in order under the same rule.
pub open spec fn resolve_in_module(
    name: Seq<char>,
    target: Seq<char>,
    modules: Map<Seq<char>, ModuleView>,
    depth: nat,
) -> Option<Seq<char>>
    decreases depth, 0nat,
{
    if depth == 0 || !modules.contains_key(target) {
        None
    } else {
        let m = modules[target];
        if defines(m, name) {
            Some(dotted(target, name))
        } else if name.contains('.') && m.aliases.contains_key(head_segment(name)) {
            resolve_in_module(
                tail_segments(name),
                m.aliases[head_segment(name)],
                modules,
                (depth - 1) as nat,
            )
        } else {
            match explicit_import(m.imports, name, 0) {
                Some(found) => Some(found),
                None => resolve_in_stars(name, m.imports, 0, modules, (depth - 1) as nat),
            }
        }
    }
}

/// The first hit for `name` among the star imports in `imports`, from
/// position `from` on.
pub open spec fn resolve_in_stars(
    name: Seq<char>,
    imports: Seq<Seq<char>>,
    from: int,
    modules: Map<Seq<char>, ModuleView>,
    depth: nat,
) -> Option<Seq<char>>
    decreases depth, 1 + imports.len() - from,
{
    if from < 0 || from >= imports.len() {
        None
    } else if star_marker().is_suffix_of(imports[from]) {
        let star_module = imports[from].take(imports[from].len() - 2);
        match resolve_in_module(name, star_module, modules, depth) {
            Some(found) => Some(found),
            None => resolve_in_stars(name, imports, from + 1, modules, depth),
        }
    } else {
        resolve_in_stars(name, imports, from + 1, modules, depth)
    }
}

/// Where a call written as `call` inside module `calling` leads.
pub open spec fn resolve_call(
    call: Seq<char>,
    calling: Seq<char>,
    modules: Map<Seq<char>, ModuleView>,
) -> Option<Seq<char>> {
    if !modules.contains_key(calling) {
        None
    } else {
        let m = modules[calling];
        if call.contains('.') {
            let head = head_segment(call);
            let tail = tail_segments(call);
            if m.aliases.contains_key(head) {
                match resolve_in_module(tail, m.aliases[head], modules, RESOLVE_DEPTH_LIMIT as nat) {
                    Some(found) => Some(found),
                    None => Some(dotted(m.aliases[head], tail)),
                }
            } else {
                match import_target(m.imports, head, 0) {
                    Some(t) => resolve_in_module(tail, t, modules, RESOLVE_DEPTH_LIMIT as nat),
                    None => None,
                }
            }
        } else if defines(m, call) {
            Some(dotted(calling, call))
        } else {
            explicit_import(m.imports, call, 0)
        }
    }
}

/// Whether a function answers to `call`: exactly by its name, or, when
/// `relaxed`, as a compound name whose last segment is `call`.
pub open spec fn yaml_match(f: FunctionView, call: Seq<char>, relaxed: bool) -> bool {
    if relaxed {
        f.name.contains('.') && last_segment(f.name) == call
    } else {
        f.name == call
    }
}

/// The key of the first function, from position `from` on, that lives under
/// `prefix` and answers to `call`.
pub open spec fn yaml_match_under(
    call: Seq<char>,
    functions: Seq<FunctionView>,
    prefix: Seq<char>,
    relaxed: bool,
    from: int,
) -> Option<Seq<char>>
    decreases functions.len() - from,
{
    if from < 0 || from >= functions.len() {
        None
    } else if prefix.is_prefix_of(functions[from].module) && yaml_match(
        functions[from],
        call,
        relaxed,
    ) {
        Some(functions[from].key())
    } else {
        yaml_match_under(call, functions, prefix, relaxed, from + 1)
    }
}

/// The first hit for `call` over the roots from position `from` on, in the
/// order in which the roots were registered.
pub open spec fn yaml_match_in_roots(
    call: Seq<char>,
    functions: Seq<FunctionView>,
    prefixes: Seq<Seq<char>>,
    relaxed: bool,
    from: int,
) -> Option<Seq<char>>
    decreases prefixes.len() - from,
{
    if from < 0 || from >= prefixes.len() {
        None
    } else {
        match yaml_match_under(call, functions, prefixes[from], relaxed, 0) {
            Some(found) => Some(found),
            None => yaml_match_in_roots(call, functions, prefixes, relaxed, from + 1),
        }
    }
}

/// Where a component name leads: an exact match in any root beats every
/// relaxed match, and within one pass the earlier root wins.
pub open spec fn resolve_yaml(
    call: Seq<char>,
    functions: Seq<FunctionView>,
    prefixes: Seq<Seq<char>>,
) -> Option<Seq<char>> {
    match yaml_match_in_roots(call, functions, prefixes, false, 0) {
        Some(found) => Some(found),
        None => yaml_match_in_roots(call, functions, prefixes, true, 0),
    }
}

/// The prefixes of a list of library roots, each a prefix and a directory.
pub open spec fn prefixes_of(roots: Seq<(Seq<char>, Seq<char>)>) -> Seq<Seq<char>> {
    Seq::new(roots.len(), |i: int| roots[i].0)
}

/// The prefixes of the registered library roots, in registration order.
pub open spec fn root_prefixes(lib_paths: IndexMap<String, String>) -> Seq<Seq<char>> {
    prefixes_of(map_entries(lib_paths))
}

/// A type annotation with its leading segment replaced by the alias it
/// stands for in `module`, when it is dotted and that segment is an alias.
pub open spec fn resolve_annotation(
    annotation: Seq<char>,
    module: Seq<char>,
    modules: Map<Seq<char>, ModuleView>,
) -> Seq<char> {
    if annotation.contains('.') && modules.contains_key(module)
        && modules[module].aliases.contains_key(head_segment(annotation)) {
        dotted(modules[module].aliases[head_segment(annotation)], tail_segments(annotation))
    } else {
        annotation
    }
}

/// The decorator that marks a record made from a declarative instance file.
pub open spec fn yaml_marker() -> Seq<char> {
    seq!['y', 'a', 'm', 'l']
}

/// The suffix that marks a decorator written as a call: `(...)`.
pub open spec fn call_marker() -> Seq<char> {
    seq!['(', '.', '.', '.', ')']
}

/// Whether a record was made from a declarative instance file.
pub open spec fn is_yaml(f: FunctionView) -> bool {
    f.decorators.contains(yaml_marker())
}

/// Where a raw call of `f` leads: by component name for a declarative record,
/// through the imports of its module for any other.
pub open spec fn resolved_call_of(
    f: FunctionView,
    call: Seq<char>,
    functions: Seq<FunctionView>,
    modules: Map<Seq<char>, ModuleView>,
    prefixes: Seq<Seq<char>>,
) -> Option<Seq<char>> {
    if is_yaml(f) {
        resolve_yaml(call, functions, prefixes)
    } else {
        resolve_call(call, f.module, modules)
    }
}

/// Where a raw decorator leads. The call marker is set aside for the lookup
/// and put back on what was found.
pub open spec fn resolved_decorator_of(
    decorator: Seq<char>,
    module: Seq<char>,
    modules: Map<Seq<char>, ModuleView>,
) -> Option<Seq<char>> {
    if call_marker().is_suffix_of(decorator) {
        match resolve_call(decorator.take(decorator.len() - 5), module, modules) {
            Some(found) => Some(found + call_marker()),
            None => None,
        }
    } else {
        resolve_call(decorator, module, modules)
    }
}

/// Where a component reference leads: by component name across all roots,
/// and only when that finds nothing and the name is dotted, through the
/// imports of the module.
pub open spec fn resolved_component_of(
    component: Seq<char>,
    module: Seq<char>,
    functions: Seq<FunctionView>,
    modules: Map<Seq<char>, ModuleView>,
    prefixes: Seq<Seq<char>>,
) -> Option<Seq<char>> {
    let name = trim_char(component, '"');
    match resolve_yaml(name, functions, prefixes) {
        Some(found) => Some(found),
        None => if name.contains('.') {
            resolve_call(name, module, modules)
        } else {
            None
        },
    }
}

/// The record `f` with its resolved fields filled in.
pub open spec fn resolve_function(
    f: FunctionView,
    functions: Seq<FunctionView>,
    modules: Map<Seq<char>, ModuleView>,
    prefixes: Seq<Seq<char>>,
) -> FunctionView {
    FunctionView {
        resolved_calls: collect(
            Seq::new(
                f.calls.len(),
                |i: int| resolved_call_of(f, f.calls[i], functions, modules, prefixes),
            ),
        ),
        resolved_decorators: if is_yaml(f) {
            Seq::empty()
        } else {
            collect(
                Seq::new(
                    f.decorators.len(),
                    |i: int| resolved_decorator_of(f.decorators[i], f.module, modules),
                ),
            )
        },
        resolved_component_gets: collect(
            Seq::new(
                f.component_gets.len(),
                |i: int|
                    resolved_component_of(f.component_gets[i], f.module, functions, modules, prefixes),
            ),
        ),
        resolved_return_annotation: match f.return_annotation {
            Some(a) => Some(resolve_annotation(a, f.module, modules)),
            None => f.resolved_return_annotation,
        },
        ..f
    }
}

/// Every function resolved against the same list and the same module table.
pub open spec fn resolve_all(
    functions: Seq<FunctionView>,
    modules: Map<Seq<char>, ModuleView>,
    prefixes: Seq<Seq<char>>,
) -> Seq<FunctionView> {
    Seq::new(
        functions.len(),
        |i: int| resolve_function(functions[i], functions, modules, prefixes),
    )
}

/// Resolution fills in the resolved fields and touches nothing else.
pub proof fn lemma_resolution_keeps_raw_fields(
    f: FunctionView,
    functions: Seq<FunctionView>,
    modules: Map<Seq<char>, ModuleView>,
    prefixes: Seq<Seq<char>>,
)
    ensures
        ({
            let r = resolve_function(f, functions, modules, prefixes);
            &&& r.name == f.name
            &&& r.module == f.module
            &&& r.line == f.line
            &&& r.calls == f.calls
            &&& r.decorators == f.decorators
            &&& r.parameter_defaults == f.parameter_defaults
            &&& r.component_gets == f.component_gets
            &&& r.is_partial == f.is_partial
            &&& r.return_annotation == f.return_annotation
        }),
{
}

/// No import entry from `from` on ends in `.name`: there is no explicit import.
pub proof fn lemma_no_explicit_import(imports: Seq<Seq<char>>, name: Seq<char>, from: int)
    requires
        0 <= from,
        forall|j: int| from <= j < imports.len() ==> !dot_suffix(name).is_suffix_of(imports[j]),
    ensures
        explicit_import(imports, name, from) is None,
    decreases imports.len() - from,
{
    if from < imports.len() {
        lemma_no_explicit_import(imports, name, from + 1);
    }
}

/// Among star imports the first one that resolves the name decides.
pub proof fn lemma_first_resolving_star(
    name: Seq<char>,
    imports: Seq<Seq<char>>,
    from: int,
    p: int,
    modules: Map<Seq<char>, ModuleView>,
    depth: nat,
)
    requires
        0 <= from <= p < imports.len(),
        star_marker().is_suffix_of(imports[p]),
        resolve_in_module(name, imports[p].take(imports[p].len() - 2), modules, depth) is Some,
        forall|j: int|
            from <= j < p && star_marker().is_suffix_of(imports[j]) ==> resolve_in_module(
                name,
                #[trigger] imports[j].take(imports[j].len() - 2),
                modules,
                depth,
            ) is None,
    ensures
        resolve_in_stars(name, imports, from, modules, depth) == resolve_in_module(
            name,
            imports[p].take(imports[p].len() - 2),
            modules,
            depth,
        ),
    decreases p - from,
{
    if from < p {
        lemma_first_resolving_star(name, imports, from + 1, p, modules, depth);
        if star_marker().is_suffix_of(imports[from]) {
            assert(resolve_in_module(
                name,
                imports[from].take(imports[from].len() - 2),
                modules,
                depth,
            ) is None);
        }
    }
}

/// One star import followed: a module that neither defines the name, nor
/// aliases its head, nor imports it explicitly, hands the lookup to its star
/// imports, and the first of them that resolves the name gives the answer.
pub proof fn lemma_star_import_followed(
    name: Seq<char>,
    module: Seq<char>,
    p: int,
    modules: Map<Seq<char>, ModuleView>,
    depth: nat,
)
    requires
        depth >= 1,
        modules.contains_key(module),
        !defines(modules[module], name),
        !(name.contains('.') && modules[module].aliases.contains_key(head_segment(name))),
        forall|j: int|
            0 <= j < modules[module].imports.len() ==> !dot_suffix(name).is_suffix_of(
                modules[module].imports[j],
            ),
        0 <= p < modules[module].imports.len(),
        star_marker().is_suffix_of(modules[module].imports[p]),
        resolve_in_module(
            name,
            modules[module].imports[p].take(modules[module].imports[p].len() - 2),
            modules,
            (depth - 1) as nat,
        ) is Some,
        forall|j: int|
            0 <= j < p && star_marker().is_suffix_of(modules[module].imports[j])
                ==> resolve_in_module(
                name,
                #[trigger] modules[module].imports[j].take(modules[module].imports[j].len() - 2),
                modules,
                (depth - 1) as nat,
            ) is None,
    ensures
        resolve_in_module(name, module, modules, depth) == resolve_in_module(
            name,
            modules[module].imports[p].take(modules[module].imports[p].len() - 2),
            modules,
            (depth - 1) as nat,
        ),
{
    let imports = modules[module].imports;
    lemma_no_explicit_import(imports, name, 0);
    lemma_first_resolving_star(name, imports, 0, p, modules, (depth - 1) as nat);
}

/// An undotted name other than `*` is not what a star import entry ends in.
proof fn lemma_star_entry_is_no_explicit_import(name: Seq<char>, stem: Seq<char>)
    requires
        !name.contains('.'),
        name != seq!['*'],
    ensures
        !dot_suffix(name).is_suffix_of(stem + star_marker()),
{
    let entry = stem + star_marker();
    let suffix = dot_suffix(name);
    if suffix.is_suffix_of(entry) {
        let off = entry.len() - suffix.len();
        let tail = entry.subrange(off, entry.len() as int);
        assert(tail =~= suffix);
        if name.len() == 0 {
            assert(tail[0] == entry[entry.len() - 1]);
            assert(suffix[0] == '.');
            assert(entry[entry.len() - 1] == '*');
        } else if name.len() == 1 {
            assert(tail[1] == entry[entry.len() - 1]);
            assert(suffix[1] == name[0]);
            assert(name =~= seq!['*']);
        } else {
            let k = suffix.len() - 2;
            assert(tail[k] == entry[entry.len() - 2]);
            assert(entry[entry.len() - 2] == '.');
            assert(suffix[k] == name[k - 1]);
            assert(name.contains('.'));
        }
    }
}

/// Star imports are transitive: when `a` star-imports `b`, `b` star-imports
/// `c`, and only `c` defines `name`, a lookup of `name` in `a` yields
/// `c.name`.
pub proof fn lemma_star_imports_are_transitive(
    name: Seq<char>,
    a: Seq<char>,
    b: Seq<char>,
    c: Seq<char>,
    modules: Map<Seq<char>, ModuleView>,
)
    requires
        modules.contains_key(a),
        modules.contains_key(b),
        modules.contains_key(c),
        modules[a].imports == seq![b + star_marker()],
        modules[b].imports == seq![c + star_marker()],
        !defines(modules[a], name),
        !defines(modules[b], name),
        defines(modules[c], name),
        !name.contains('.'),
        name != seq!['*'],
    ensures
        resolve_in_module(name, a, modules, RESOLVE_DEPTH_LIMIT as nat) == Some(dotted(c, name)),
{
    let d = RESOLVE_DEPTH_LIMIT as nat;
    let b_entry = b + star_marker();
    let c_entry = c + star_marker();
    assert(b_entry.take(b_entry.len() - 2) =~= b);
    assert(c_entry.take(c_entry.len() - 2) =~= c);
    assert(star_marker() =~= b_entry.subrange(b_entry.len() - 2, b_entry.len() as int));
    assert(star_marker() =~= c_entry.subrange(c_entry.len() - 2, c_entry.len() as int));
    lemma_star_entry_is_no_explicit_import(name, b);
    lemma_star_entry_is_no_explicit_import(name, c);
    assert(resolve_in_module(name, c, modules, (d - 2) as nat) == Some(dotted(c, name)));
    lemma_star_import_followed(name, b, 0, modules, (d - 1) as nat);
    lemma_star_import_followed(name, a, 0, modules, d);
}

/// A call to an undotted name that the calling module defines resolves to
/// that module's own function, whatever other modules define or the module
/// imports.
pub proof fn lemma_own_definition_wins(
    call: Seq<char>,
    calling: Seq<char>,
    modules: Map<Seq<char>, ModuleView>,
)
    requires
        modules.contains_key(calling),
        defines(modules[calling], call),
        !call.contains('.'),
    ensures
        resolve_call(call, calling, modules) == Some(dotted(calling, call)),
{
}

/// Under one root the first function that answers decides.
pub proof fn lemma_first_match_under(
    call: Seq<char>,
    functions: Seq<FunctionView>,
    prefix: Seq<char>,
    relaxed: bool,
    from: int,
    i: int,
)
    requires
        0 <= from <= i < functions.len(),
        prefix.is_prefix_of(functions[i].module),
        yaml_match(functions[i], call, relaxed),
        forall|j: int|
            from <= j < i ==> !(prefix.is_prefix_of((#[trigger] functions[j]).module)
                && yaml_match(functions[j], call, relaxed)),
    ensures
        yaml_match_under(call, functions, prefix, relaxed, from) == Some(functions[i].key()),
    decreases i - from,
{
    if from < i {
        lemma_first_match_under(call, functions, prefix, relaxed, from + 1, i);
    }
}

/// Under a root that holds no function that answers, nothing is found.
pub proof fn lemma_no_match_under(
    call: Seq<char>,
    functions: Seq<FunctionView>,
    prefix: Seq<char>,
    relaxed: bool,
    from: int,
)
    requires
        0 <= from,
        forall|j: int|
            from <= j < functions.len() ==> !(prefix.is_prefix_of((#[trigger] functions[j]).module)
                && yaml_match(functions[j], call, relaxed)),
    ensures
        yaml_match_under(call, functions, prefix, relaxed, from) is None,
    decreases functions.len() - from,
{
    if from < functions.len() {
        lemma_no_match_under(call, functions, prefix, relaxed, from + 1);
    }
}

/// Over the roots the first root with a hit decides.
pub proof fn lemma_first_root_with_match(
    call: Seq<char>,
    functions: Seq<FunctionView>,
    prefixes: Seq<Seq<char>>,
    relaxed: bool,
    from: int,
    k: int,
)
    requires
        0 <= from <= k < prefixes.len(),
        yaml_match_under(call, functions, prefixes[k], relaxed, 0) is Some,
        forall|r: int|
            from <= r < k ==> yaml_match_under(call, functions, #[trigger] prefixes[r], relaxed, 0)
                is None,
    ensures
        yaml_match_in_roots(call, functions, prefixes, relaxed, from) == yaml_match_under(
            call,
            functions,
            prefixes[k],
            relaxed,
            0,
        ),
    decreases k - from,
{
    if from < k {
        lemma_first_root_with_match(call, functions, prefixes, relaxed, from + 1, k);
        assert(yaml_match_under(call, functions, prefixes[from], relaxed, 0) is None);
    }
}

/// Root priority: when root `k` holds a function named exactly `call` and no
/// earlier root does, the component name resolves to the first such function
/// under root `k`. Matches in later roots, and compound names in any root
/// whose last segment is `call`, change nothing.
pub proof fn lemma_earliest_exact_root_wins(
    call: Seq<char>,
    functions: Seq<FunctionView>,
    prefixes: Seq<Seq<char>>,
    k: int,
    i: int,
)
    requires
        0 <= k < prefixes.len(),
        0 <= i < functions.len(),
        prefixes[k].is_prefix_of(functions[i].module),
        functions[i].name == call,
        forall|j: int|
            0 <= j < i ==> !(prefixes[k].is_prefix_of((#[trigger] functions[j]).module)
                && functions[j].name == call),
        forall|r: int, j: int|
            0 <= r < k && 0 <= j < functions.len() ==> !((#[trigger] prefixes[r]).is_prefix_of(
                (#[trigger] functions[j]).module,
            ) && functions[j].name == call),
    ensures
        resolve_yaml(call, functions, prefixes) == Some(functions[i].key()),
{
    lemma_first_match_under(call, functions, prefixes[k], false, 0, i);
    assert forall|r: int| 0 <= r < k implies yaml_match_under(
        call,
        functions,
        #[trigger] prefixes[r],
        false,
        0,
    ) is None by {
        lemma_no_match_under(call, functions, prefixes[r], false, 0);
    }
    lemma_first_root_with_match(call, functions, prefixes, false, 0, k);
}

/// `.name` as a string.
fn dot_prefixed(name: &str) -> (r: String)
    ensures
        r@ == dot_suffix(name@),
{
    proof {
        reveal_strlit(".");
        assert("."@ =~= seq!['.']);
    }
    glue(".", name)
}

/// Whether an import entry is a star import.
fn is_star_import(import: &str) -> (r: bool)
    ensures
        r == star_marker().is_suffix_of(import@),
{
    proof {
        reveal_strlit(".*");
        assert(".*"@ =~= star_marker());
    }
    ends_with(import, ".*")
}

/// Splits a dotted name at its first dot.
pub fn split_first_segment(name: &str) -> (r: Option<(String, String)>)
    ensures
        r is Some == name@.contains('.'),
        r matches Some((head, tail)) ==> head@ == head_segment(name@) && tail@ == tail_segments(
            name@,
        ),
{
    match find_char(name, '.') {
        Some(p) => {
            let n = name.unicode_len();
            let head = slice(name, 0, p);
            let tail = slice(name, p + 1, n);
            Some((head, tail))
        },
        None => None,
    }
}

/// The first import entry of a module that ends in `.name`.
pub fn find_explicit_import(name: &str, module_info: &ModuleInfo) -> (r: Option<String>)
    ensures
        match r {
            Some(s) => Some(s@) == explicit_import(module_info@.imports, name@, 0),
            None => explicit_import(module_info@.imports, name@, 0) is None,
        },
{
    let suffix = dot_prefixed(name);
    let n = set_len(&module_info.imports);
    let mut i: usize = 0;
    while i < n
        invariant
            i <= n,
            n == module_info@.imports.len(),
            suffix@ == dot_suffix(name@),
            explicit_import(module_info@.imports, name@, 0) == explicit_import(
                module_info@.imports,
                name@,
                i as int,
            ),
        decreases n - i,
    {
        match set_get_index(&module_info.imports, i) {
            Some(import) => {
                if ends_with(import.as_str(), suffix.as_str()) {
                    return Some(import.clone());
                }
            },
            None => {},
        }
        i += 1;
    }
    None
}

/// The module that the name `imported_name` is bound to by the imports of a
/// module: the first entry that is the name or ends in `.name`.
pub fn find_import_target(imported_name: &str, module_info: &ModuleInfo) -> (r: Option<String>)
    ensures
        match r {
            Some(s) => Some(s@) == import_target(module_info@.imports, imported_name@, 0),
            None => import_target(module_info@.imports, imported_name@, 0) is None,
        },
{
    let suffix = dot_prefixed(imported_name);
    let n = set_len(&module_info.imports);
    let mut i: usize = 0;
    while i < n
        invariant
            i <= n,
            n == module_info@.imports.len(),
            suffix@ == dot_suffix(imported_name@),
            import_target(module_info@.imports, imported_name@, 0) == import_target(
                module_info@.imports,
                imported_name@,
                i as int,
            ),
        decreases n - i,
    {
        match set_get_index(&module_info.imports, i) {
            Some(import) => {
                if ends_with(import.as_str(), suffix.as_str()) || str_eq(
                    import.as_str(),
                    imported_name,
                ) {
                    return Some(import.clone());
                }
            },
            None => {},
        }
        i += 1;
    }
    None
}

/// Looks `function_name` up inside `target_module`, following aliases and
/// star imports through at most `depth` modules.
pub fn resolve_function_in_module(
    function_name: &str,
    target_module: &str,
    modules: &StrMap<ModuleInfo>,
    depth: usize,
) -> (r: Option<String>)
    ensures
        match r {
            Some(s) => Some(s@) == resolve_in_module(
                function_name@,
                target_module@,
                modules@,
                depth as nat,
            ),
            None => resolve_in_module(function_name@, target_module@, modules@, depth as nat)
                is None,
        },
    decreases depth,
{
    if depth == 0 {
        return None;
    }
    let module_info = match modules.get(target_module) {
        Some(m) => m,
        None => {
            return None;
        },
    };
    if set_contains(&module_info.functions, function_name) || module_info.partials.contains_key(
        function_name,
    ) {
        return Some(dot_join(target_module, function_name));
    }
    match split_first_segment(function_name) {
        Some((head, tail)) => {
            match module_info.aliases.get(head.as_str()) {
                Some(alias_target) => {
                    return resolve_function_in_module(
                        tail.as_str(),
                        alias_target.as_str(),
                        modules,
                        depth - 1,
                    );
                },
                None => {},
            }
        },
        None => {},
    }
    match find_explicit_import(function_name, module_info) {
        Some(found) => {
            return Some(found);
        },
        None => {},
    }
    let n = set_len(&module_info.imports);
    let mut i: usize = 0;
    while i < n
        invariant
            i <= n,
            depth > 0,
            n == module_info@.imports.len(),
            resolve_in_module(function_name@, target_module@, modules@, depth as nat)
                == resolve_in_stars(
                function_name@,
                module_info@.imports,
                0,
                modules@,
                (depth - 1) as nat,
            ),
            resolve_in_stars(
                function_name@,
                module_info@.imports,
                0,
                modules@,
                (depth - 1) as nat,
            ) == resolve_in_stars(
                function_name@,
                module_info@.imports,
                i as int,
                modules@,
                (depth - 1) as nat,
            ),
        decreases n - i,
    {
        match set_get_index(&module_info.imports, i) {
            Some(import) => {
                if is_star_import(import.as_str()) {
                    let len = import.as_str().unicode_len();
                    let star_module = slice(import.as_str(), 0, len - 2);
                    proof {
                        assert(star_module@ == module_info@.imports[i as int].take(
                            module_info@.imports[i as int].len() - 2,
                        ));
                    }
                    match resolve_function_in_module(
                        function_name,
                        star_module.as_str(),
                        modules,
                        depth - 1,
                    ) {
                        Some(found) => {
                            return Some(found);
                        },
                        None => {},
                    }
                }
            },
            None => {},
        }
        i += 1;
    }
    None
}

/// Resolves a call written as `call_name` inside `calling_module`.
///
/// A dotted call `X.Y` goes through the alias `X` of the calling module when
/// there is one, and then always has an answer: what `Y` resolves to in the
/// alias target, or else `target.Y`. Without such an alias it goes through
/// the import entry bound to `X`. An undotted call is the calling module's
/// own function or partial binding of that name, or else the first import entry ending in
/// `.call_name`.
pub fn resolve_call_with_imports(
    call_name: &str,
    calling_module: &str,
    modules: &StrMap<ModuleInfo>,
) -> (r: Option<String>)
    ensures
        match r {
            Some(s) => Some(s@) == resolve_call(call_name@, calling_module@, modules@),
            None => resolve_call(call_name@, calling_module@, modules@) is None,
        },
{
    let module_info = match modules.get(calling_module) {
        Some(m) => m,
        None => {
            return None;
        },
    };
    match split_first_segment(call_name) {
        Some((head, tail)) => {
            match module_info.aliases.get(head.as_str()) {
                Some(alias_target) => {
                    match resolve_function_in_module(
                        tail.as_str(),
                        alias_target.as_str(),
                        modules,
                        RESOLVE_DEPTH_LIMIT,
                    ) {
                        Some(found) => Some(found),
                        None => Some(dot_join(alias_target.as_str(), tail.as_str())),
                    }
                },
                None => {
                    match find_import_target(head.as_str(), module_info) {
                        Some(target) => resolve_function_in_module(
                            tail.as_str(),
                            target.as_str(),
                            modules,
                            RESOLVE_DEPTH_LIMIT,
                        ),
                        None => None,
                    }
                },
            }
        },
        None => {
            if set_contains(&module_info.functions, call_name)
                || module_info.partials.contains_key(call_name) {
                Some(dot_join(calling_module, call_name))
            } else {
                find_explicit_import(call_name, module_info)
            }
        },
    }
}

/// Whether a function answers to `call` (see `yaml_match`).
fn answers_to(f: &FunctionInfo, call: &str, relaxed: bool) -> (r: bool)
    ensures
        r == yaml_match(f@, call@, relaxed),
{
    if relaxed {
        if crate::text::contains_char(f.name.as_str(), '.') {
            let parts = split_on(f.name.as_str(), '.');
            let last = &parts[parts.len() - 1];
            proof {
                assert(views(parts@).last() == last@);
            }
            str_eq(last.as_str(), call)
        } else {
            false
        }
    } else {
        str_eq(f.name.as_str(), call)
    }
}

/// One pass over all roots, in registration order.
fn yaml_pass(
    call_name: &str,
    functions: &Vec<FunctionInfo>,
    lib_paths: &IndexMap<String, String>,
    relaxed: bool,
) -> (r: Option<String>)
    ensures
        match r {
            Some(s) => Some(s@) == yaml_match_in_roots(
                call_name@,
                function_views(functions@),
                root_prefixes(*lib_paths),
                relaxed,
                0,
            ),
            None => yaml_match_in_roots(
                call_name@,
                function_views(functions@),
                root_prefixes(*lib_paths),
                relaxed,
                0,
            ) is None,
        },
{
    let ghost fv = function_views(functions@);
    let ghost prefixes = root_prefixes(*lib_paths);
    let roots = map_len(lib_paths);
    let mut k: usize = 0;
    while k < roots
        invariant
            k <= roots,
            roots == prefixes.len(),
            fv == function_views(functions@),
            prefixes == root_prefixes(*lib_paths),
            yaml_match_in_roots(call_name@, fv, prefixes, relaxed, 0) == yaml_match_in_roots(
                call_name@,
                fv,
                prefixes,
                relaxed,
                k as int,
            ),
        decreases roots - k,
    {
        match map_get_index(lib_paths, k) {
            Some((prefix, _)) => {
                let mut i: usize = 0;
                while i < functions.len()
                    invariant
                        i <= functions.len(),
                        k < roots,
                        roots == prefixes.len(),
                        fv == function_views(functions@),
                        prefix@ == prefixes[k as int],
                        prefixes == root_prefixes(*lib_paths),
                        yaml_match_in_roots(call_name@, fv, prefixes, relaxed, 0)
                            == yaml_match_in_roots(call_name@, fv, prefixes, relaxed, k as int),
                        yaml_match_under(call_name@, fv, prefix@, relaxed, 0) == yaml_match_under(
                            call_name@,
                            fv,
                            prefix@,
                            relaxed,
                            i as int,
                        ),
                    decreases functions.len() - i,
                {
                    let f = &functions[i];
                    proof {
                        assert(fv[i as int] == f@);
                    }
                    if starts_with(f.module.as_str(), prefix.as_str()) && answers_to(
                        f,
                        call_name,
                        relaxed,
                    ) {
                        return Some(f.key());
                    }
                    i += 1;
                }
            },
            None => {},
        }
        k += 1;
    }
    None
}

/// Resolves a component name against all functions of all library roots.
///
/// First an exact pass: the roots in registration order, and under each root
/// the first function whose name is `call_name`. Only when no root has an
/// exact match, a relaxed pass in the same order: the first function with a
/// compound name whose last segment is `call_name`.
pub fn resolve_yaml_call(
    call_name: &str,
    functions: &Vec<FunctionInfo>,
    lib_paths: &IndexMap<String, String>,
) -> (r: Option<String>)
    ensures
        match r {
            Some(s) => Some(s@) == resolve_yaml(
                call_name@,
                function_views(functions@),
                root_prefixes(*lib_paths),
            ),
            None => resolve_yaml(call_name@, function_views(functions@), root_prefixes(*lib_paths))
                is None,
        },
{
    match yaml_pass(call_name, functions, lib_paths, false) {
        Some(found) => Some(found),
        None => yaml_pass(call_name, functions, lib_paths, true),
    }
}

/// Resolves the leading segment of a type annotation through the aliases of
/// the module it appears in; an annotation without a dot, or whose leading
/// segment is no alias, comes back unchanged.
pub fn resolve_type_annotation(
    annotation: &str,
    current_module: &str,
    modules: &StrMap<ModuleInfo>,
) -> (r: String)
    ensures
        r@ == resolve_annotation(annotation@, current_module@, modules@),
{
    match split_first_segment(annotation) {
        Some((head, tail)) => {
            match modules.get(current_module) {
                Some(module_info) => {
                    match module_info.aliases.get(head.as_str()) {
                        Some(target) => {
                            return dot_join(target.as_str(), tail.as_str());
                        },
                        None => {},
                    }
                },
                None => {},
            }
        },
        None => {},
    }
    annotation.to_owned()
}

/// Resolves one raw decorator (see `resolved_decorator_of`).
pub fn resolve_decorator(decorator: &str, module: &str, modules: &StrMap<ModuleInfo>) -> (r:
    Option<String>)
    ensures
        match r {
            Some(s) => Some(s@) == resolved_decorator_of(decorator@, module@, modules@),
            None => resolved_decorator_of(decorator@, module@, modules@) is None,
        },
{
    proof {
        reveal_strlit("(...)");
        assert("(...)"@ =~= call_marker());
    }
    if ends_with(decorator, "(...)") {
        let n = decorator.unicode_len();
        let name = slice(decorator, 0, n - 5);
        match resolve_call_with_imports(name.as_str(), module, modules) {
            Some(found) => Some(glue(found.as_str(), "(...)")),
            None => None,
        }
    } else {
        resolve_call_with_imports(decorator, module, modules)
    }
}

/// Resolves one component reference (see `resolved_component_of`).
pub fn resolve_component(
    component: &str,
    module: &str,
    functions: &Vec<FunctionInfo>,
    modules: &StrMap<ModuleInfo>,
    lib_paths: &IndexMap<String, String>,
) -> (r: Option<String>)
    ensures
        match r {
            Some(s) => Some(s@) == resolved_component_of(
                component@,
                module@,
                function_views(functions@),
                modules@,
                root_prefixes(*lib_paths),
            ),
            None => resolved_component_of(
                component@,
                module@,
                function_views(functions@),
                modules@,
                root_prefixes(*lib_paths),
            ) is None,
        },
{
    let name = trim_matches(component, '"');
    match resolve_yaml_call(name.as_str(), functions, lib_paths) {
        Some(found) => Some(found),
        None => {
            if contains_char(name.as_str(), '.') {
                resolve_call_with_imports(name.as_str(), module, modules)
            } else {
                None
            }
        },
    }
}

/// The record `f` with its resolved fields filled in (see
/// `resolve_function`).
pub fn resolve_function_calls(
    f: &FunctionInfo,
    functions: &Vec<FunctionInfo>,
    modules: &StrMap<ModuleInfo>,
    lib_paths: &IndexMap<String, String>,
) -> (r: FunctionInfo)
    ensures
        r@ == resolve_function(f@, function_views(functions@), modules@, root_prefixes(*lib_paths)),
{
    let ghost fv = function_views(functions@);
    let ghost prefixes = root_prefixes(*lib_paths);
    let mut out = f.duplicate();
    proof {
        reveal_strlit("yaml");
        assert("yaml"@ =~= yaml_marker());
    }
    let yaml = set_contains(&f.decorators, "yaml");

    let ghost call_results = Seq::new(
        f@.calls.len(),
        |i: int| resolved_call_of(f@, f@.calls[i], fv, modules@, prefixes),
    );
    let mut resolved_calls = set_new();
    let n = set_len(&f.calls);
    let mut i: usize = 0;
    proof {
        assert(call_results.take(0) =~= Seq::empty());
    }
    while i < n
        invariant
            i <= n,
            n == f@.calls.len(),
            yaml == is_yaml(f@),
            fv == function_views(functions@),
            prefixes == root_prefixes(*lib_paths),
            call_results == Seq::new(
                f@.calls.len(),
                |i: int| resolved_call_of(f@, f@.calls[i], fv, modules@, prefixes),
            ),
            set_items(resolved_calls) == collect(call_results.take(i as int)),
        decreases n - i,
    {
        match set_get_index(&f.calls, i) {
            Some(call) => {
                let found = if yaml {
                    resolve_yaml_call(call.as_str(), functions, lib_paths)
                } else {
                    resolve_call_with_imports(call.as_str(), f.module.as_str(), modules)
                };
                proof {
                    let next = call_results.take(i + 1);
                    assert(next.drop_last() =~= call_results.take(i as int));
                    assert(next.last() == call_results[i as int]);
                }
                match found {
                    Some(name) => {
                        let _ = set_insert(&mut resolved_calls, name);
                    },
                    None => {},
                }
            },
            None => {},
        }
        i += 1;
    }
    proof {
        assert(call_results.take(n as int) =~= call_results);
    }

    let ghost decorator_results = Seq::new(
        f@.decorators.len(),
        |i: int| resolved_decorator_of(f@.decorators[i], f@.module, modules@),
    );
    let mut resolved_decorators = set_new();
    if !yaml {
        let n = set_len(&f.decorators);
        let mut i: usize = 0;
        proof {
            assert(decorator_results.take(0) =~= Seq::empty());
        }
        while i < n
            invariant
                i <= n,
                n == f@.decorators.len(),
                decorator_results == Seq::new(
                    f@.decorators.len(),
                    |i: int| resolved_decorator_of(f@.decorators[i], f@.module, modules@),
                ),
                set_items(resolved_decorators) == collect(decorator_results.take(i as int)),
            decreases n - i,
        {
            match set_get_index(&f.decorators, i) {
                Some(decorator) => {
                    let found = resolve_decorator(decorator.as_str(), f.module.as_str(), modules);
                    proof {
                        let next = decorator_results.take(i + 1);
                        assert(next.drop_last() =~= decorator_results.take(i as int));
                        assert(next.last() == decorator_results[i as int]);
                    }
                    match found {
                        Some(name) => {
                            let _ = set_insert(&mut resolved_decorators, name);
                        },
                        None => {},
                    }
                },
                None => {},
            }
            i += 1;
        }
        proof {
            assert(decorator_results.take(n as int) =~= decorator_results);
        }
    }
    let ghost component_results = Seq::new(
        f@.component_gets.len(),
        |i: int| resolved_component_of(f@.component_gets[i], f@.module, fv, modules@, prefixes),
    );
    let mut resolved_component_gets = set_new();
    let n = set_len(&f.component_gets);
    let mut i: usize = 0;
    proof {
        assert(component_results.take(0) =~= Seq::empty());
    }
    while i < n
        invariant
            i <= n,
            n == f@.component_gets.len(),
            fv == function_views(functions@),
            prefixes == root_prefixes(*lib_paths),
            component_results == Seq::new(
                f@.component_gets.len(),
                |i: int|
                    resolved_component_of(f@.component_gets[i], f@.module, fv, modules@, prefixes),
            ),
            set_items(resolved_component_gets) == collect(component_results.take(i as int)),
        decreases n - i,
    {
        match set_get_index(&f.component_gets, i) {
            Some(component) => {
                let found = resolve_component(
                    component.as_str(),
                    f.module.as_str(),
                    functions,
                    modules,
                    lib_paths,
                );
                proof {
                    let next = component_results.take(i + 1);
                    assert(next.drop_last() =~= component_results.take(i as int));
                    assert(next.last() == component_results[i as int]);
                }
                match found {
                    Some(name) => {
                        let _ = set_insert(&mut resolved_component_gets, name);
                    },
                    None => {},
                }
            },
            None => {},
        }
        i += 1;
    }
    proof {
        assert(component_results.take(n as int) =~= component_results);
    }
    out.resolved_calls = resolved_calls;
    out.resolved_decorators = resolved_decorators;
    out.resolved_component_gets = resolved_component_gets;
    match &f.return_annotation {
        Some(annotation) => {
            out.resolved_return_annotation = Some(
                resolve_type_annotation(annotation.as_str(), f.module.as_str(), modules),
            );
        },
        None => {},
    }
    out
}

impl CallGraphBuilder {
    /// Fills in the resolved fields of every function. All lookups go against
    /// the functions and modules as they were before the call.
    pub fn resolve_all_calls(&mut self)
        ensures
            final(self)@ == (BuilderView {
                functions: resolve_all(
                    old(self)@.functions,
                    old(self)@.modules,
                    prefixes_of(old(self)@.lib_paths),
                ),
                ..old(self)@
            }),
    {
        let mut out: Vec<FunctionInfo> = Vec::new();
        let mut i: usize = 0;
        while i < self.functions.len()
            invariant
                i <= self.functions.len(),
                *self == *old(self),
                out@.len() == i,
                forall|k: int|
                    0 <= k < i ==> (#[trigger] out@[k])@ == resolve_function(
                        self.functions@[k]@,
                        function_views(self.functions@),
                        self.modules@,
                        root_prefixes(self.lib_paths),
                    ),
            decreases self.functions.len() - i,
        {
            let resolved = resolve_function_calls(
                &self.functions[i],
                &self.functions,
                &self.modules,
                &self.lib_paths,
            );
            out.push(resolved);
            i += 1;
        }
        proof {
            assert(function_views(out@) =~= resolve_all(
                old(self)@.functions,
                old(self)@.modules,
                root_prefixes(old(self).lib_paths),
            ));
        }
        self.functions = out;
    }
}

} // verus!
