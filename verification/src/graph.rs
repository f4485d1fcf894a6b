//! Assembly of the finished graph, and what can be made of it afterwards.

use crate::analyzer::{analyze, FileSource};
use crate::builder::{BuilderView, CallGraphBuilder};
use crate::ordered::{
    insert_distinct, map_entries, map_len, set_clone, set_get_index, set_insert, set_items,
    set_len,
};
use crate::partial::flatten_all;
use crate::resolve::{prefixes_of, resolve_all};
use crate::schema::{
    function_views, CallGraph, CallGraphView, FunctionInfo, FunctionView, ModuleInfo, ModuleView,
};
use crate::strmap::{
    last_position, lemma_counting_entry, lemma_last_position, Duplicate, StrMap,
};
use crate::text::{find_char, index_of, slice, str_eq};
use indexmap::{IndexMap, IndexSet};
use vstd::prelude::*;

verus! {

/// The first `n` functions filed under their keys; where two share a key,
/// the later one is kept.
pub open spec fn index_functions(functions: Seq<FunctionView>, n: int) -> Map<
    Seq<char>,
    FunctionView,
>
    decreases n,
{
    if n <= 0 {
        Map::empty()
    } else {
        index_functions(functions, n - 1).insert(functions[n - 1].key(), functions[n - 1])
    }
}

/// The graph that a builder stands for once every file has been read:
/// every function resolved, then every partial binding flattened, then all
/// filed under their keys, beside the module table.
pub open spec fn finished(b: BuilderView) -> CallGraphView {
    let resolved = resolve_all(b.functions, b.modules, prefixes_of(b.lib_paths));
    let flat = flatten_all(resolved, b.modules);
    CallGraphView { functions: index_functions(flat, flat.len() as int), modules: b.modules }
}

impl CallGraphBuilder {
    /// Resolves, flattens and assembles the graph. To be called when every
    /// file of every library root has been analyzed.
    pub fn build_callgraph(self) -> (r: CallGraph)
        ensures
            r@ == finished(self@),
    {
        let mut builder = self;
        builder.resolve_all_calls();
        builder.populate_partial_function_details();
        let ghost flat = builder@.functions;
        let mut functions: StrMap<FunctionInfo> = StrMap::new();
        let mut i: usize = 0;
        while i < builder.functions.len()
            invariant
                i <= builder.functions.len(),
                flat == function_views(builder.functions@),
                functions@ == index_functions(flat, i as int),
            decreases builder.functions.len() - i,
        {
            proof {
                assert(flat[i as int] == builder.functions@[i as int]@);
            }
            let key = builder.functions[i].key();
            let record = builder.functions[i].duplicate();
            functions.insert(key, record);
            i += 1;
        }
        CallGraph { functions, modules: builder.modules }
    }
}

/// Whether a function filed under `key` answers to a requested name: by
/// its key or by its simple name.
pub open spec fn selected(key: Seq<char>, f: FunctionView, name: Seq<char>) -> bool {
    key == name || f.name == name
}

/// The functions that answer to `name`.
pub open spec fn select_functions(functions: Map<Seq<char>, FunctionView>, name: Seq<char>) -> Map<
    Seq<char>,
    FunctionView,
> {
    Map::new(
        |k: Seq<char>| functions.contains_key(k) && selected(k, functions[k], name),
        |k: Seq<char>| functions[k],
    )
}

/// Whether one of the functions belongs to module `module`.
pub open spec fn owns_one(functions: Map<Seq<char>, FunctionView>, module: Seq<char>) -> bool {
    exists|k: Seq<char>| functions.contains_key(k) && (#[trigger] functions[k]).module == module
}

/// The modules that own one of the functions.
pub open spec fn select_modules(
    modules: Map<Seq<char>, ModuleView>,
    functions: Map<Seq<char>, FunctionView>,
) -> Map<Seq<char>, ModuleView> {
    Map::new(
        |k: Seq<char>| modules.contains_key(k) && owns_one(functions, k),
        |k: Seq<char>| modules[k],
    )
}

/// A graph cut down to the functions that answer to `name` and the modules
/// that own them.
pub open spec fn filtered(g: CallGraphView, name: Seq<char>) -> CallGraphView {
    CallGraphView {
        functions: select_functions(g.functions, name),
        modules: select_modules(g.modules, select_functions(g.functions, name)),
    }
}

fn owns_function(functions: &StrMap<FunctionInfo>, module: &str) -> (r: bool)
    ensures
        r == owns_one(functions@, module@),
{
    let ghost e = functions.entries@;
    let mut j: usize = 0;
    while j < functions.entries.len()
        invariant
            j <= functions.entries.len(),
            e == functions.entries@,
            forall|i: int|
                0 <= i < j && #[trigger] last_position(e, e[i].0@) == i ==> e[i].1@.module
                    != module@,
        decreases functions.entries.len() - j,
    {
        if functions.counts(j) && str_eq(functions.entries[j].1.module.as_str(), module) {
            proof {
                lemma_counting_entry(e, e[j as int].0@);
                assert(functions@.contains_key(e[j as int].0@));
                assert(functions@[e[j as int].0@].module == module@);
            }
            return true;
        }
        j += 1;
    }
    proof {
        assert forall|k: Seq<char>| functions@.contains_key(k) implies (#[trigger] functions@[k]).module
            != module@ by {
            lemma_counting_entry(e, k);
            let i = choose|i: int|
                0 <= i < e.len() && #[trigger] last_position(e, e[i].0@) == i && e[i].0@ == k;
            assert(functions@[k] == e[i].1@);
        }
    }
    false
}

/// Cuts a graph down to the functions that answer to `name`, by key or by
/// simple name, and to the modules that own them.
pub fn filter_function(graph: &CallGraph, name: &str) -> (r: CallGraph)
    ensures
        r@ == filtered(graph@, name@),
{
    let ghost e = graph.functions.entries@;
    let ghost all = graph.functions@;
    let mut functions: StrMap<FunctionInfo> = StrMap::new();
    let mut i: usize = 0;
    proof {
        assert(functions@ =~= Map::new(
            |k: Seq<char>|
                0 <= last_position(e, k) < 0 && all.contains_key(k) && selected(k, all[k], name@),
            |k: Seq<char>| all[k],
        ));
    }
    while i < graph.functions.entries.len()
        invariant
            i <= graph.functions.entries.len(),
            e == graph.functions.entries@,
            all == graph.functions@,
            functions@ == Map::new(
                |k: Seq<char>|
                    0 <= last_position(e, k) < i && all.contains_key(k) && selected(
                        k,
                        all[k],
                        name@,
                    ),
                |k: Seq<char>| all[k],
            ),
        decreases graph.functions.entries.len() - i,
    {
        let key = &graph.functions.entries[i].0;
        let f = &graph.functions.entries[i].1;
        let ghost before = functions@;
        let keep = graph.functions.counts(i) && (str_eq(key.as_str(), name) || str_eq(
            f.name.as_str(),
            name,
        ));
        if keep {
            functions.insert(key.clone(), f.duplicate());
        }
        proof {
            lemma_counting_entry(e, key@);
            assert forall|k: Seq<char>| last_position(e, k) == i implies k == key@ by {
                lemma_last_position(e, k);
            }
            assert(functions@ =~= Map::new(
                |k: Seq<char>|
                    0 <= last_position(e, k) < i + 1 && all.contains_key(k) && selected(
                        k,
                        all[k],
                        name@,
                    ),
                |k: Seq<char>| all[k],
            ));
        }
        i += 1;
    }
    proof {
        assert forall|k: Seq<char>| all.contains_key(k) implies 0 <= last_position(e, k)
            < e.len() by {
            lemma_last_position(e, k);
        }
        assert(functions@ =~= select_functions(all, name@));
    }
    let ghost m = graph.modules.entries@;
    let ghost table = graph.modules@;
    let mut modules: StrMap<ModuleInfo> = StrMap::new();
    let mut j: usize = 0;
    proof {
        assert(modules@ =~= Map::new(
            |k: Seq<char>|
                0 <= last_position(m, k) < 0 && table.contains_key(k) && owns_one(functions@, k),
            |k: Seq<char>| table[k],
        ));
    }
    while j < graph.modules.entries.len()
        invariant
            j <= graph.modules.entries.len(),
            m == graph.modules.entries@,
            table == graph.modules@,
            modules@ == Map::new(
                |k: Seq<char>|
                    0 <= last_position(m, k) < j && table.contains_key(k) && owns_one(
                        functions@,
                        k,
                    ),
                |k: Seq<char>| table[k],
            ),
        decreases graph.modules.entries.len() - j,
    {
        let key = &graph.modules.entries[j].0;
        let keep = graph.modules.counts(j) && owns_function(&functions, key.as_str());
        if keep {
            modules.insert(key.clone(), graph.modules.entries[j].1.duplicate());
        }
        proof {
            lemma_counting_entry(m, key@);
            assert forall|k: Seq<char>| last_position(m, k) == j implies k == key@ by {
                lemma_last_position(m, k);
            }
            assert(modules@ =~= Map::new(
                |k: Seq<char>|
                    0 <= last_position(m, k) < j + 1 && table.contains_key(k) && owns_one(
                        functions@,
                        k,
                    ),
                |k: Seq<char>| table[k],
            ));
        }
        j += 1;
    }
    proof {
        assert forall|k: Seq<char>| table.contains_key(k) implies 0 <= last_position(m, k)
            < m.len() by {
            lemma_last_position(m, k);
        }
        assert(modules@ =~= select_modules(table, functions@));
    }
    CallGraph { functions, modules }
}

/// The names that a function leads to, each once: its resolved calls, then
/// its resolved component references.
#[derive(Debug, PartialEq)]
pub struct Callees {
    pub names: IndexSet<String>,
}

impl View for Callees {
    type V = Seq<Seq<char>>;

    open spec fn view(&self) -> Seq<Seq<char>> {
        set_items(self.names)
    }
}

/// `acc` with the first `n` of `items` inserted in order.
pub open spec fn insert_all(acc: Seq<Seq<char>>, items: Seq<Seq<char>>, n: int) -> Seq<Seq<char>>
    decreases n,
{
    if n <= 0 {
        acc
    } else {
        insert_distinct(insert_all(acc, items, n - 1), items[n - 1])
    }
}

/// The names that a function leads to.
pub open spec fn callees_of(f: FunctionView) -> Seq<Seq<char>> {
    insert_all(
        f.resolved_calls,
        f.resolved_component_gets,
        f.resolved_component_gets.len() as int,
    )
}

/// The simplified projection of a graph: every function key with the names
/// that the function leads to.
pub open spec fn simplified(g: CallGraphView) -> Map<Seq<char>, Seq<Seq<char>>> {
    Map::new(|k: Seq<char>| g.functions.contains_key(k), |k: Seq<char>| callees_of(g.functions[k]))
}

fn callees(f: &FunctionInfo) -> (r: Callees)
    ensures
        r@ == callees_of(f@),
{
    let mut names = set_clone(&f.resolved_calls);
    let n = set_len(&f.resolved_component_gets);
    let mut i: usize = 0;
    while i < n
        invariant
            i <= n,
            n == f@.resolved_component_gets.len(),
            set_items(names) == insert_all(
                f@.resolved_calls,
                f@.resolved_component_gets,
                i as int,
            ),
        decreases n - i,
    {
        match set_get_index(&f.resolved_component_gets, i) {
            Some(name) => {
                let _ = set_insert(&mut names, name.clone());
            },
            None => {},
        }
        i += 1;
    }
    Callees { names }
}

/// The simplified projection of a graph (see `simplified`).
pub fn simplify(graph: &CallGraph) -> (r: StrMap<Callees>)
    ensures
        r@ == simplified(graph@),
{
    let ghost e = graph.functions.entries@;
    let ghost all = graph.functions@;
    let mut out: StrMap<Callees> = StrMap::new();
    let mut i: usize = 0;
    proof {
        assert(out@ =~= Map::new(
            |k: Seq<char>| 0 <= last_position(e, k) < 0 && all.contains_key(k),
            |k: Seq<char>| callees_of(all[k]),
        ));
    }
    while i < graph.functions.entries.len()
        invariant
            i <= graph.functions.entries.len(),
            e == graph.functions.entries@,
            all == graph.functions@,
            out@ == Map::new(
                |k: Seq<char>| 0 <= last_position(e, k) < i && all.contains_key(k),
                |k: Seq<char>| callees_of(all[k]),
            ),
        decreases graph.functions.entries.len() - i,
    {
        let key = &graph.functions.entries[i].0;
        if graph.functions.counts(i) {
            out.insert(key.clone(), callees(&graph.functions.entries[i].1));
        }
        proof {
            lemma_counting_entry(e, key@);
            assert forall|k: Seq<char>| last_position(e, k) == i implies k == key@ by {
                lemma_last_position(e, k);
            }
            assert(out@ =~= Map::new(
                |k: Seq<char>| 0 <= last_position(e, k) < i + 1 && all.contains_key(k),
                |k: Seq<char>| callees_of(all[k]),
            ));
        }
        i += 1;
    }
    proof {
        assert forall|k: Seq<char>| all.contains_key(k) implies 0 <= last_position(e, k)
            < e.len() by {
            lemma_last_position(e, k);
        }
        assert(out@ =~= simplified(graph@));
    }
    out
}

/// Why no graph could be built.
#[derive(PartialEq, Eq, Clone, Copy, Debug)]
pub enum GraphError {
    /// No library root was given.
    NoValidLibraryPaths,
}

impl GraphError {
    /// The message of the error.
    pub fn message(&self) -> (r: String)
        ensures
            r@ == "No valid library paths given."@,
    {
        "No valid library paths given.".to_owned()
    }
}

/// One file of a library root, with what was read from it.
#[derive(Debug, PartialEq)]
pub struct SourceFile {
    pub path: String,
    /// The directory of the library root that the file lies below.
    pub lib_root: String,
    /// The prefix of that library root.
    pub prefix: String,
    pub source: FileSource,
}

/// The builder after the files from position `from` on.
pub open spec fn analyze_files(b: BuilderView, files: Seq<SourceFile>, from: int) -> BuilderView
    decreases files.len() - from,
{
    if from < 0 || from >= files.len() {
        b
    } else {
        analyze_files(
            analyze(
                b,
                files[from].path@,
                files[from].lib_root@,
                files[from].prefix@,
                files[from].source,
            ),
            files,
            from + 1,
        )
    }
}

/// The builder that has read nothing yet.
pub open spec fn empty_builder(lib_paths: Seq<(Seq<char>, Seq<char>)>) -> BuilderView {
    BuilderView {
        functions: Seq::empty(),
        modules: Map::empty(),
        current_file: Seq::empty(),
        current_prefix: Seq::empty(),
        imports: Map::empty(),
        lib_paths,
    }
}

/// The graph of a set of library roots and their files.
pub open spec fn graph_of(
    lib_paths: Seq<(Seq<char>, Seq<char>)>,
    files: Seq<SourceFile>,
    function: Option<Seq<char>>,
) -> CallGraphView {
    let whole = finished(analyze_files(empty_builder(lib_paths), files, 0));
    match function {
        Some(name) => filtered(whole, name),
        None => whole,
    }
}

/// Builds the graph for the given library roots from the given files.
///
/// The roots are searched in the order given; the files are analyzed in the
/// order given, all of them before anything is resolved. A file that fails
/// is recorded in its module and does not stop the build. With `function`
/// the graph is cut down to the functions of that key or simple name. The
/// build fails only when no library root is given.
pub fn build_graph(
    lib_paths: IndexMap<String, String>,
    files: &Vec<SourceFile>,
    function: Option<&str>,
) -> (r: Result<CallGraph, GraphError>)
    ensures
        match r {
            Ok(graph) => map_entries(lib_paths).len() > 0 && graph@ == graph_of(
                map_entries(lib_paths),
                files@,
                match function {
                    Some(name) => Some(name@),
                    None => None,
                },
            ),
            Err(e) => map_entries(lib_paths).len() == 0 && e == GraphError::NoValidLibraryPaths,
        },
{
    if map_len(&lib_paths) == 0 {
        return Err(GraphError::NoValidLibraryPaths);
    }
    let ghost roots = map_entries(lib_paths);
    let mut builder = CallGraphBuilder::new(lib_paths);
    let mut i: usize = 0;
    while i < files.len()
        invariant
            i <= files.len(),
            analyze_files(empty_builder(roots), files@, 0) == analyze_files(
                builder@,
                files@,
                i as int,
            ),
        decreases files.len() - i,
    {
        let file = &files[i];
        let _ = builder.analyze_file(
            file.path.as_str(),
            file.lib_root.as_str(),
            file.prefix.as_str(),
            &file.source,
        );
        i += 1;
    }
    let graph = builder.build_callgraph();
    match function {
        Some(name) => Ok(filter_function(&graph, name)),
        None => Ok(graph),
    }
}

/// A library root written as `prefix:path`: the text before the first colon
/// and the text after it; `None` for a text without a colon.
pub open spec fn lib_path_of(arg: Seq<char>) -> Option<(Seq<char>, Seq<char>)> {
    if arg.contains(':') {
        Some((arg.take(index_of(arg, ':')), arg.skip(index_of(arg, ':') + 1)))
    } else {
        None
    }
}

/// Reads a library root written as `prefix:path`.
pub fn parse_lib_path(arg: &str) -> (r: Option<(String, String)>)
    ensures
        match r {
            Some((prefix, path)) => lib_path_of(arg@) == Some((prefix@, path@)),
            None => lib_path_of(arg@) is None,
        },
{
    match find_char(arg, ':') {
        Some(i) => {
            let n = arg.unicode_len();
            Some((slice(arg, 0, i), slice(arg, i + 1, n)))
        },
        None => None,
    }
}

} // verus!
