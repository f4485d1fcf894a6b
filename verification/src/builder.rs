//! The builder: the module table and the list of functions that grow while
//! files are read, and the module names derived from file paths.

use crate::ordered::{insert_distinct, map_entries, set_insert};
use crate::schema::{
    function_views, FunctionInfo, FunctionView, Literal, ModuleInfo, ModuleView,
    PartialInfo, PartialView,
};
use crate::strmap::{lemma_update_entry, StrMap};
use crate::text::{
    dot_join, dotted, join, join_first, replace_char, slice, split,
    split_on, str_eq, strip_suffix, views, without_suffix,
};
use indexmap::IndexMap;
use vstd::prelude::*;

verus! {

/// The character that separates the components of a path.
pub const PATH_SEPARATOR: char = '/';

/// The state of a build: what has been extracted from the files read so far.
#[derive(Debug)]
pub struct CallGraphBuilder {
    /// Every function found so far, in the order found.
    pub functions: Vec<FunctionInfo>,
    /// The module table.
    pub modules: StrMap<ModuleInfo>,
    /// Path of the file being read.
    pub current_file: String,
    /// Prefix of the library root being read.
    pub current_prefix: String,
    /// Import aliases of the file being read: bound name to dotted target.
    pub imports: StrMap<String>,
    /// The library roots, prefix to directory, in registration order.
    pub lib_paths: IndexMap<String, String>,
}

/// The mathematical model of a builder.
pub struct BuilderView {
    pub functions: Seq<FunctionView>,
    pub modules: Map<Seq<char>, ModuleView>,
    pub current_file: Seq<char>,
    pub current_prefix: Seq<char>,
    pub imports: Map<Seq<char>, Seq<char>>,
    pub lib_paths: Seq<(Seq<char>, Seq<char>)>,
}

impl View for CallGraphBuilder {
    type V = BuilderView;

    open spec fn view(&self) -> BuilderView {
        BuilderView {
            functions: function_views(self.functions@),
            modules: self.modules@,
            current_file: self.current_file@,
            current_prefix: self.current_prefix@,
            imports: self.imports@,
            lib_paths: map_entries(self.lib_paths),
        }
    }
}

/// What `Path::strip_prefix` makes of a path and a base: the path relative to
/// the base, or `None` when the base is not a leading run of whole components
/// of the path.
pub uninterp spec fn relative_path(path: Seq<char>, base: Seq<char>) -> Option<Seq<char>>;

/// `std::path::Path::strip_prefix` on two paths given as text. The result is
/// a function of the two paths alone and is named `relative_path`; nothing
/// else is claimed of it.
#[verifier::external_body]
pub(crate) fn strip_root(file_path: &str, lib_root: &str) -> (r: Option<String>)
    ensures
        crate::schema::option_view(r) == relative_path(file_path@, lib_root@),
{
    match std::path::Path::new(file_path).strip_prefix(lib_root) {
        Ok(p) => Some(p.to_str().unwrap_or("").to_string()),
        Err(_) => None,
    }
}

/// `.py`.
pub open spec fn py_suffix() -> Seq<char> {
    seq!['.', 'p', 'y']
}

/// `__init__`.
pub open spec fn init_name() -> Seq<char> {
    seq!['_', '_', 'i', 'n', 'i', 't', '_', '_']
}

/// `s` without a trailing `suffix`; `s` itself when it has none.
pub open spec fn trim_suffix(s: Seq<char>, suffix: Seq<char>) -> Seq<char> {
    match strip_suffix(s, suffix) {
        Some(t) => t,
        None => s,
    }
}

/// A dotted package path with the `__init__` of a package file elided: the
/// package is imported, not its init file.
pub open spec fn collapse_init(path: Seq<char>) -> Seq<char> {
    if (seq!['.'] + init_name()).is_suffix_of(path) {
        path.take(path.len() - 9)
    } else if path == init_name() {
        Seq::empty()
    } else {
        path
    }
}

/// `prefix.path`, or `prefix` alone for an empty path.
pub open spec fn under_prefix(prefix: Seq<char>, path: Seq<char>) -> Seq<char> {
    if path.len() == 0 {
        prefix
    } else {
        dotted(prefix, path)
    }
}

/// The module name of a Python file at `relative` below its library root:
/// separators become dots, a trailing `.py` goes, a trailing `__init__`
/// segment collapses to its package, and the root's prefix comes in front.
pub open spec fn module_of_relative(relative: Seq<char>, prefix: Seq<char>) -> Seq<char> {
    under_prefix(
        prefix,
        collapse_init(trim_suffix(replace_char(relative, PATH_SEPARATOR, '.'), py_suffix())),
    )
}

/// The module name of a file: that of its path relative to the root, or the
/// path itself when the file does not lie below the root.
pub open spec fn module_of(relative: Option<Seq<char>>, file_path: Seq<char>, prefix: Seq<char>)
    -> Seq<char> {
    match relative {
        Some(rel) => module_of_relative(rel, prefix),
        None => file_path,
    }
}

/// The relative path that a module name stands for: the prefix goes and dots
/// become separators.
pub open spec fn path_of_module(module: Seq<char>, prefix: Seq<char>) -> Seq<char> {
    if module.len() <= prefix.len() {
        Seq::empty()
    } else {
        replace_char(module.skip(prefix.len() as int + 1), '.', PATH_SEPARATOR)
    }
}

/// A relative path without the `__init__` of a package file.
pub open spec fn without_init(stem: Seq<char>) -> Seq<char> {
    if (seq![PATH_SEPARATOR] + init_name()).is_suffix_of(stem) {
        stem.take(stem.len() - 9)
    } else if stem == init_name() {
        Seq::empty()
    } else {
        stem
    }
}

/// Reconstruction: for a Python file `stem.py` whose directory and file names
/// hold no dot, turning the derived module name back into a path gives `stem`
/// again, but for the elided `__init__`.
pub proof fn lemma_module_name_keeps_path(stem: Seq<char>, prefix: Seq<char>)
    requires
        !stem.contains('.'),
    ensures
        path_of_module(module_of_relative(stem + py_suffix(), prefix), prefix) == without_init(
            stem,
        ),
{
    let rel = stem + py_suffix();
    let d = replace_char(rel, PATH_SEPARATOR, '.');
    let ds = replace_char(stem, PATH_SEPARATOR, '.');
    assert(d =~= ds + py_suffix());
    assert(py_suffix() =~= d.subrange(d.len() - 3, d.len() as int));
    assert(d.take(d.len() - 3) =~= ds);
    assert(trim_suffix(d, py_suffix()) == ds);
    let marker = seq!['.'] + init_name();
    let path_marker = seq![PATH_SEPARATOR] + init_name();
    assert forall|k: int| 0 <= k < stem.len() implies stem[k] != '.' by {
        if stem[k] == '.' {
            assert(stem.contains('.'));
        }
    }
    // The dotted form ends in `.__init__` exactly when the path ends in `/__init__`.
    if stem.len() >= 9 {
        let off = stem.len() - 9;
        let dt = ds.subrange(off, ds.len() as int);
        let st = stem.subrange(off, stem.len() as int);
        if marker.is_suffix_of(ds) {
            assert(dt =~= marker);
            assert forall|k: int| 0 <= k < 9 implies st[k] == path_marker[k] by {
                assert(dt[k] == marker[k]);
                assert(dt[k] == ds[off + k]);
            }
            assert(st =~= path_marker);
        }
        if path_marker.is_suffix_of(stem) {
            assert(st =~= path_marker);
            assert forall|k: int| 0 <= k < 9 implies dt[k] == marker[k] by {
                assert(st[k] == path_marker[k]);
                assert(st[k] == stem[off + k]);
            }
            assert(dt =~= marker);
        }
    }
    if ds == init_name() {
        assert(stem =~= init_name()) by {
            assert forall|k: int| 0 <= k < stem.len() implies stem[k] == init_name()[k] by {
                assert(ds[k] == init_name()[k]);
            }
        }
    }
    if stem == init_name() {
        assert(ds =~= init_name());
    }
    let package = collapse_init(ds);
    let module = under_prefix(prefix, package);
    if package.len() == 0 {
        assert(without_init(stem).len() == 0);
        assert(path_of_module(module, prefix) =~= without_init(stem));
    } else {
        assert(module.skip(prefix.len() as int + 1) =~= package);
        let w = without_init(stem);
        assert(package.len() == w.len());
        assert forall|k: int| 0 <= k < w.len() implies replace_char(package, '.', PATH_SEPARATOR)[k]
            == w[k] by {
            assert(package[k] == ds[k]);
            assert(w[k] == stem[k]);
        }
        assert(replace_char(package, '.', PATH_SEPARATOR) =~= w);
    }
}

/// Injectivity: two Python files whose names hold no dot but that of the
/// extension get the same module name only when their paths agree up to the
/// elided `__init__`.
pub proof fn lemma_module_name_is_injective(a: Seq<char>, b: Seq<char>, prefix: Seq<char>)
    requires
        !a.contains('.'),
        !b.contains('.'),
        module_of_relative(a + py_suffix(), prefix) == module_of_relative(b + py_suffix(), prefix),
    ensures
        without_init(a) == without_init(b),
{
    lemma_module_name_keeps_path(a, prefix);
    lemma_module_name_keeps_path(b, prefix);
}

/// The module name for a path relative to a library root, when there is one,
/// and for the file path itself otherwise.
pub fn module_from_relative(relative: Option<&str>, file_path: &str, prefix: &str) -> (r: String)
    ensures
        r@ == module_of(
            match relative {
                Some(rel) => Some(rel@),
                None => None,
            },
            file_path@,
            prefix@,
        ),
{
    let rel = match relative {
        Some(rel) => rel,
        None => {
            return file_path.to_owned();
        },
    };
    proof {
        reveal_strlit(".");
        reveal_strlit(".py");
        reveal_strlit(".__init__");
        reveal_strlit("__init__");
        assert("."@ =~= seq!['.']);
        assert(".py"@ =~= py_suffix());
        assert(".__init__"@ =~= seq!['.'] + init_name());
        assert("__init__"@ =~= init_name());
        crate::text::lemma_join_split_replaces(rel@, PATH_SEPARATOR, '.');
    }
    let pieces = split_on(rel, PATH_SEPARATOR);
    let dotted_path = join_first(&pieces, pieces.len(), ".");
    proof {
        assert(views(pieces@).take(pieces.len() as int) =~= views(pieces@));
    }
    let stem = match without_suffix(dotted_path.as_str(), ".py") {
        Some(s) => s,
        None => dotted_path,
    };
    let package = match without_suffix(stem.as_str(), ".__init__") {
        Some(s) => s,
        None => {
            if str_eq(stem.as_str(), "__init__") {
                String::new()
            } else {
                stem
            }
        },
    };
    if package.as_str().unicode_len() == 0 {
        prefix.to_owned()
    } else {
        dot_join(prefix, package.as_str())
    }
}

/// A path without a trailing `.py` or, failing that, `.pic.yml`, and with a
/// dot for every slash and backslash.
pub open spec fn dotted_path(path: Seq<char>) -> Seq<char> {
    let stem = if ".py"@.is_suffix_of(path) {
        path.take(path.len() - ".py"@.len())
    } else if ".pic.yml"@.is_suffix_of(path) {
        path.take(path.len() - ".pic.yml"@.len())
    } else {
        path
    };
    replace_char(replace_char(stem, '/', '.'), '\\', '.')
}

/// `n` dots.
pub open spec fn dots(n: nat) -> Seq<char> {
    Seq::new(n, |i: int| '.')
}

/// The absolute module that `from <dots>module_name import ...` names when
/// written in `current_module`.
///
/// Level 1 appends to the current module path. A level above 1 first steps
/// up `level - 1` dotted components; when the path has too few components
/// the literal form, dots and name, is kept. Level 0 is an absolute import.
/// Appending to an empty path gives the name alone.
pub open spec fn relative_module(module_name: Seq<char>, current_module: Seq<char>, level: nat)
    -> Seq<char> {
    let parts = split(current_module, '.');
    if level == 1 {
        if current_module.len() == 0 {
            module_name
        } else {
            dotted(current_module, module_name)
        }
    } else if level > 1 {
        if level - 1 >= parts.len() {
            dots(level) + module_name
        } else {
            let base = join(parts.take(parts.len() - (level - 1)), seq!['.']);
            if base.len() == 0 {
                module_name
            } else {
                dotted(base, module_name)
            }
        }
    } else {
        module_name
    }
}

/// The number of dots that `s` begins with.
pub open spec fn leading_dots(s: Seq<char>) -> nat
    decreases s.len(),
{
    if s.len() > 0 && s[0] == '.' {
        1 + leading_dots(s.skip(1))
    } else {
        0
    }
}

/// The absolute module that an import written with leading dots names when
/// written in `current_module`; an import without leading dots is absolute
/// already.
pub open spec fn relative_import(relative_import: Seq<char>, current_module: Seq<char>) -> Seq<
    char,
> {
    let n = leading_dots(relative_import);
    let path = relative_import.skip(n as int);
    let parts = split(current_module, '.');
    if n == 0 {
        relative_import
    } else if n == 1 {
        if path.len() == 0 {
            current_module
        } else {
            dotted(current_module, path)
        }
    } else if n - 1 >= parts.len() {
        relative_import
    } else {
        let base = join(parts.take(parts.len() - (n - 1)), seq!['.']);
        if path.len() == 0 {
            base
        } else {
            dotted(base, path)
        }
    }
}

/// The module named `name`, or a new empty one filed under `path`.
pub open spec fn module_or_new(
    modules: Map<Seq<char>, ModuleView>,
    name: Seq<char>,
    path: Seq<char>,
) -> ModuleView {
    if modules.contains_key(name) {
        modules[name]
    } else {
        ModuleView::empty(name, path)
    }
}

impl BuilderView {
    /// The module `name` as the table has it, or new and empty.
    pub open spec fn module(self, name: Seq<char>) -> ModuleView {
        module_or_new(self.modules, name, self.current_file)
    }

    /// The builder with module `name` set to `m`.
    pub open spec fn with_module(self, name: Seq<char>, m: ModuleView) -> BuilderView {
        BuilderView { modules: self.modules.insert(name, m), ..self }
    }

    /// The builder after `module` has been told that it defines `function`.
    pub open spec fn add_function(self, module: Seq<char>, function: Seq<char>) -> BuilderView {
        let m = self.module(module);
        self.with_module(
            module,
            ModuleView { functions: insert_distinct(m.functions, function), ..m },
        )
    }

    /// The builder after `module` has been given the import target `import`.
    pub open spec fn add_import(self, module: Seq<char>, import: Seq<char>) -> BuilderView {
        let m = self.module(module);
        self.with_module(module, ModuleView { imports: insert_distinct(m.imports, import), ..m })
    }

    /// The builder after `module` has been given the partial binding `name`.
    pub open spec fn add_partial(self, module: Seq<char>, name: Seq<char>, partial: PartialView)
        -> BuilderView {
        let m = self.module(module);
        self.with_module(module, ModuleView { partials: m.partials.insert(name, partial), ..m })
    }

    /// The builder after `alias` has been made to stand for `target` in `module`.
    pub open spec fn add_alias(self, module: Seq<char>, alias: Seq<char>, target: Seq<char>)
        -> BuilderView {
        let m = self.module(module);
        self.with_module(module, ModuleView { aliases: m.aliases.insert(alias, target), ..m })
    }

    /// The builder after `module` has been given the constant `name`.
    pub open spec fn add_constant(self, module: Seq<char>, name: Seq<char>, value: Seq<char>)
        -> BuilderView {
        let m = self.module(module);
        self.with_module(module, ModuleView { constants: m.constants.insert(name, value), ..m })
    }

    /// The builder after `module` has been given the error `error`.
    pub open spec fn add_error(self, module: Seq<char>, error: Seq<char>) -> BuilderView {
        let m = self.module(module);
        self.with_module(module, ModuleView { errors: insert_distinct(m.errors, error), ..m })
    }

    /// The builder with one more function record.
    pub open spec fn push_function(self, f: FunctionView) -> BuilderView {
        BuilderView { functions: self.functions.push(f), ..self }
    }

    /// Every module of the table is filed under its own name.
    pub open spec fn names_agree(self) -> bool {
        forall|k: Seq<char>| self.modules.contains_key(k) ==> (#[trigger] self.modules[k]).name == k
    }
}

/// Whatever is added to a module, every module stays filed under its own
/// name.
pub proof fn lemma_additions_keep_names(b: BuilderView, module: Seq<char>)
    requires
        b.names_agree(),
    ensures
        forall|function: Seq<char>| (#[trigger] b.add_function(module, function)).names_agree(),
        forall|import: Seq<char>| (#[trigger] b.add_import(module, import)).names_agree(),
        forall|name: Seq<char>, partial: PartialView| (#[trigger] b.add_partial(module, name, partial)).names_agree(),
        forall|alias: Seq<char>, target: Seq<char>| (#[trigger] b.add_alias(module, alias, target)).names_agree(),
        forall|name: Seq<char>, value: Seq<char>| (#[trigger] b.add_constant(module, name, value)).names_agree(),
        forall|error: Seq<char>| (#[trigger] b.add_error(module, error)).names_agree(),
{
    assert(b.module(module).name == module);
}

impl CallGraphBuilder {
    /// A builder for the given library roots, with no file read yet.
    pub fn new(lib_paths: IndexMap<String, String>) -> (r: Self)
        ensures
            r@ == (BuilderView {
                functions: Seq::empty(),
                modules: Map::empty(),
                current_file: Seq::empty(),
                current_prefix: Seq::empty(),
                imports: Map::empty(),
                lib_paths: map_entries(lib_paths),
            }),
    {
        let r = CallGraphBuilder {
            functions: Vec::new(),
            modules: StrMap::new(),
            current_file: String::new(),
            current_prefix: String::new(),
            imports: StrMap::new(),
            lib_paths,
        };
        proof {
            assert(function_views(r.functions@) =~= Seq::empty());
        }
        r
    }

    /// Position of the table entry for `module_name`, which is created empty
    /// when the table has none.
    fn module_slot(&mut self, module_name: &str) -> (i: usize)
        ensures
            i < final(self).modules.entries@.len(),
            final(self).modules.entries@[i as int].0@ == module_name@,
            crate::strmap::last_position(final(self).modules.entries@, module_name@) == i,
            final(self).modules.entries@[i as int].1@ == old(self)@.module(module_name@),
            final(self)@ == old(self)@.with_module(module_name@, old(self)@.module(module_name@)),
            final(self).functions == old(self).functions,
    {
        match self.modules.position(module_name) {
            Some(i) => {
                proof {
                    assert(self@.modules =~= self@.modules.insert(
                        module_name@,
                        self@.module(module_name@),
                    ));
                }
                i
            },
            None => {
                let fresh = ModuleInfo::new(module_name.to_owned(), self.current_file.clone());
                let ghost before = self.modules.entries@;
                self.modules.entries.push((module_name.to_owned(), fresh));
                proof {
                    let after = self.modules.entries@;
                    assert(after.drop_last() =~= before);
                    crate::strmap::lemma_last_position_is(
                        after,
                        module_name@,
                        after.len() - 1,
                    );
                }
                self.modules.entries.len() - 1
            },
        }
    }

    /// Records that `module_name` defines `function_name`.
    pub fn add_function_to_module(&mut self, module_name: &str, function_name: &str)
        ensures
            final(self)@ == old(self)@.add_function(module_name@, function_name@),
            final(self).functions == old(self).functions,
    {
        let i = self.module_slot(module_name);
        let ghost before = self.modules.entries@;
        let _ = set_insert(&mut self.modules.entries[i].1.functions, function_name.to_owned());
        proof {
            let after = self.modules.entries@;
            assert(after =~= before.update(i as int, after[i as int]));
            lemma_update_entry(before, i as int, after[i as int]);
            assert(self.modules@ =~= old(self)@.modules.insert(
                module_name@,
                after[i as int].1@,
            ));
        }
    }

    /// Records an import target of `module_name`.
    pub fn add_import_to_module(&mut self, module_name: &str, import: &str)
        ensures
            final(self)@ == old(self)@.add_import(module_name@, import@),
            final(self).functions == old(self).functions,
    {
        let i = self.module_slot(module_name);
        let ghost before = self.modules.entries@;
        let _ = set_insert(&mut self.modules.entries[i].1.imports, import.to_owned());
        proof {
            let after = self.modules.entries@;
            assert(after =~= before.update(i as int, after[i as int]));
            lemma_update_entry(before, i as int, after[i as int]);
            assert(self.modules@ =~= old(self)@.modules.insert(
                module_name@,
                after[i as int].1@,
            ));
        }
    }

    /// Records what a partial application in `module_name` binds.
    pub fn add_partial_to_module(
        &mut self,
        module_name: &str,
        partial_name: &str,
        func: &str,
        args: Vec<Literal>,
        kwargs: StrMap<Literal>,
    )
        ensures
            final(self)@ == old(self)@.add_partial(
                module_name@,
                partial_name@,
                PartialView {
                    func: func@,
                    args: crate::schema::literal_views(args@),
                    kwargs: kwargs@,
                },
            ),
            final(self).functions == old(self).functions,
    {
        let partial = PartialInfo { func: func.to_owned(), args, kwargs };
        let i = self.module_slot(module_name);
        let ghost before = self.modules.entries@;
        self.modules.entries[i].1.partials.insert(partial_name.to_owned(), partial);
        proof {
            let after = self.modules.entries@;
            assert(after =~= before.update(i as int, after[i as int]));
            lemma_update_entry(before, i as int, after[i as int]);
            assert(self.modules@ =~= old(self)@.modules.insert(
                module_name@,
                after[i as int].1@,
            ));
        }
    }

    /// Records that `alias` stands for `full_path` in `module_name`.
    pub fn add_alias_to_module(&mut self, module_name: &str, alias: &str, full_path: &str)
        ensures
            final(self)@ == old(self)@.add_alias(module_name@, alias@, full_path@),
            final(self).functions == old(self).functions,
    {
        let i = self.module_slot(module_name);
        let ghost before = self.modules.entries@;
        self.modules.entries[i].1.aliases.insert(alias.to_owned(), full_path.to_owned());
        proof {
            let after = self.modules.entries@;
            assert(after =~= before.update(i as int, after[i as int]));
            lemma_update_entry(before, i as int, after[i as int]);
            assert(self.modules@ =~= old(self)@.modules.insert(
                module_name@,
                after[i as int].1@,
            ));
        }
    }

    /// Records a string constant of `module_name`.
    pub fn add_constant_to_module(
        &mut self,
        module_name: &str,
        constant_name: &str,
        constant_value: &str,
    )
        ensures
            final(self)@ == old(self)@.add_constant(
                module_name@,
                constant_name@,
                constant_value@,
            ),
            final(self).functions == old(self).functions,
    {
        let i = self.module_slot(module_name);
        let ghost before = self.modules.entries@;
        self.modules.entries[i].1.constants.insert(
            constant_name.to_owned(),
            constant_value.to_owned(),
        );
        proof {
            let after = self.modules.entries@;
            assert(after =~= before.update(i as int, after[i as int]));
            lemma_update_entry(before, i as int, after[i as int]);
            assert(self.modules@ =~= old(self)@.modules.insert(
                module_name@,
                after[i as int].1@,
            ));
        }
    }

    /// Records a failure met while reading `module_name`.
    pub fn add_error_to_module(&mut self, module_name: &str, error: &str)
        ensures
            final(self)@ == old(self)@.add_error(module_name@, error@),
            final(self).functions == old(self).functions,
    {
        let i = self.module_slot(module_name);
        let ghost before = self.modules.entries@;
        let _ = set_insert(&mut self.modules.entries[i].1.errors, error.to_owned());
        proof {
            let after = self.modules.entries@;
            assert(after =~= before.update(i as int, after[i as int]));
            lemma_update_entry(before, i as int, after[i as int]);
            assert(self.modules@ =~= old(self)@.modules.insert(
                module_name@,
                after[i as int].1@,
            ));
        }
    }

    /// Appends a function record.
    pub fn push_function(&mut self, f: FunctionInfo)
        ensures
            final(self)@ == old(self)@.push_function(f@),
            final(self).functions@ == old(self).functions@.push(f),
    {
        self.functions.push(f);
        proof {
            assert(function_views(self.functions@) =~= function_views(old(self).functions@).push(
                f@,
            ));
        }
    }

    /// The dotted module name of a Python file below a library root.
    pub fn derive_module(&self, file_path: &str, lib_root: &str, prefix: &str) -> (r: String)
        ensures
            r@ == module_of(relative_path(file_path@, lib_root@), file_path@, prefix@),
    {
        match strip_root(file_path, lib_root) {
            Some(rel) => module_from_relative(Some(rel.as_str()), file_path, prefix),
            None => module_from_relative(None, file_path, prefix),
        }
    }

    /// The dotted form of a file path: the extension of a Python or instance
    /// file goes, and every slash and backslash becomes a dot.
    pub fn derive_module_path(&self, file_path: &str) -> (r: String)
        ensures
            r@ == dotted_path(file_path@),
    {
        let stem = match without_suffix(file_path, ".py") {
            Some(s) => s,
            None => match without_suffix(file_path, ".pic.yml") {
                Some(s) => s,
                None => file_path.to_owned(),
            },
        };
        proof {
            reveal_strlit(".");
            assert("."@ =~= seq!['.']);
            crate::text::lemma_join_split_replaces(stem@, '/', '.');
        }
        let pieces = split_on(stem.as_str(), '/');
        let slashed = join_first(&pieces, pieces.len(), ".");
        proof {
            assert(views(pieces@).take(pieces.len() as int) =~= views(pieces@));
            crate::text::lemma_join_split_replaces(slashed@, '\\', '.');
        }
        let parts = split_on(slashed.as_str(), '\\');
        let out = join_first(&parts, parts.len(), ".");
        proof {
            assert(views(parts@).take(parts.len() as int) =~= views(parts@));
        }
        out
    }

    /// The absolute module named by a relative import of the given level.
    pub fn resolve_relative_import_with_level(
        &self,
        module_name: &str,
        current_module: &str,
        level: u32,
    ) -> (r: String)
        ensures
            r@ == relative_module(module_name@, current_module@, level as nat),
    {
        step_up_and_append(module_name, current_module, level)
    }

    /// The absolute module named by an import written with leading dots.
    pub fn resolve_relative_import(&self, relative_import: &str, current_module: &str) -> (r:
        String)
        ensures
            r@ == self::relative_import(relative_import@, current_module@),
    {
        let chars = crate::text::chars_of(relative_import);
        let mut n: usize = 0;
        proof {
            assert(relative_import@.skip(0) =~= relative_import@);
        }
        while n < chars.len() && chars[n] == '.'
            invariant
                n <= chars.len(),
                chars@ == relative_import@,
                leading_dots(relative_import@) == n + leading_dots(relative_import@.skip(n as int)),
            decreases chars.len() - n,
        {
            proof {
                assert(relative_import@.skip(n as int).skip(1) =~= relative_import@.skip(n + 1));
            }
            n += 1;
        }
        proof {
            assert(relative_import@.skip(0) =~= relative_import@);
        }
        if n == 0 {
            return relative_import.to_owned();
        }
        let path = slice(relative_import, n, chars.len());
        proof {
            assert(path@ =~= relative_import@.skip(n as int));
        }
        let path_is_empty = n == chars.len();
        if n == 1 {
            if path_is_empty {
                return current_module.to_owned();
            } else {
                return dot_join(current_module, path.as_str());
            }
        }
        let parts = split_on(current_module, '.');
        if n - 1 >= parts.len() {
            return relative_import.to_owned();
        }
        proof {
            reveal_strlit(".");
            assert("."@ =~= seq!['.']);
        }
        let base = join_first(&parts, parts.len() - (n - 1), ".");
        if path_is_empty {
            base
        } else {
            dot_join(base.as_str(), path.as_str())
        }
    }
}

/// The absolute module named by a relative import of the given level.
pub fn step_up_and_append(module_name: &str, current_module: &str, level: u32) -> (r: String)
    ensures
        r@ == relative_module(module_name@, current_module@, level as nat),
{
    if level == 1 {
        if current_module.unicode_len() == 0 {
            module_name.to_owned()
        } else {
            dot_join(current_module, module_name)
        }
    } else if level > 1 {
        let levels_up: usize = (level - 1) as usize;
        let parts = split_on(current_module, '.');
        if levels_up >= parts.len() {
            let mut out = String::new();
            let mut i: u32 = 0;
            proof {
                reveal_strlit(".");
                assert("."@ =~= seq!['.']);
                assert(out@ =~= dots(0));
            }
            while i < level
                invariant
                    i <= level,
                    out@ == dots(i as nat),
                    "."@ == seq!['.'],
                decreases level - i,
            {
                out.append(".");
                i += 1;
                proof {
                    assert(out@ =~= dots(i as nat));
                }
            }
            out.append(module_name);
            out
        } else {
            proof {
                reveal_strlit(".");
                assert("."@ =~= seq!['.']);
            }
            let base = join_first(&parts, parts.len() - levels_up, ".");
            if base.as_str().unicode_len() == 0 {
                module_name.to_owned()
            } else {
                dot_join(base.as_str(), module_name)
            }
        }
    } else {
        module_name.to_owned()
    }
}

} // verus!
