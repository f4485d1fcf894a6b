//! The records of a call graph and their mathematical models.

use crate::ordered::{set_clone, set_items, set_new};
use crate::strmap::{Duplicate, StrMap};
use indexmap::IndexSet;
use vstd::prelude::*;

verus! {

/// A literal value captured from source text: a parameter default or an
/// argument bound by a partial application.
///
/// A number with a fractional part is kept as the bit pattern of its
/// double-precision value together with its JSON text.
#[derive(Debug)]
pub enum Literal {
    Null,
    Bool(bool),
    Int(i64),
    Float { bits: u64, text: String },
    Str(String),
}

/// The mathematical model of a literal.
pub enum LiteralView {
    Null,
    Bool(bool),
    Int(i64),
    Float { bits: u64, text: Seq<char> },
    Str(Seq<char>),
}

impl View for Literal {
    type V = LiteralView;

    open spec fn view(&self) -> LiteralView {
        match self {
            Literal::Null => LiteralView::Null,
            Literal::Bool(b) => LiteralView::Bool(*b),
            Literal::Int(i) => LiteralView::Int(*i),
            Literal::Float { bits, text } => LiteralView::Float { bits: *bits, text: text@ },
            Literal::Str(s) => LiteralView::Str(s@),
        }
    }
}

impl Duplicate for Literal {
    fn duplicate(&self) -> (r: Self) {
        match self {
            Literal::Null => Literal::Null,
            Literal::Bool(b) => Literal::Bool(*b),
            Literal::Int(i) => Literal::Int(*i),
            Literal::Float { bits, text } => Literal::Float { bits: *bits, text: text.clone() },
            Literal::Str(s) => Literal::Str(s.clone()),
        }
    }
}

impl Clone for Literal {
    fn clone(&self) -> (r: Self)
        ensures
            r@ == self@,
    {
        self.duplicate()
    }
}

/// The models of a list of literals.
pub open spec fn literal_views(v: Seq<Literal>) -> Seq<LiteralView> {
    Seq::new(v.len(), |i: int| v[i]@)
}

/// A copy of a list of literals.
pub fn duplicate_literals(v: &Vec<Literal>) -> (r: Vec<Literal>)
    ensures
        literal_views(r@) == literal_views(v@),
{
    let mut out: Vec<Literal> = Vec::new();
    let mut i: usize = 0;
    while i < v.len()
        invariant
            i <= v.len(),
            out@.len() == i,
            forall|j: int| 0 <= j < i ==> out@[j]@ == v@[j]@,
        decreases v.len() - i,
    {
        out.push(v[i].duplicate());
        i += 1;
    }
    proof {
        assert(literal_views(out@) =~= literal_views(v@));
    }
    out
}

/// What a `functools.partial(...)` call site binds.
#[derive(Debug)]
pub struct PartialInfo {
    /// The wrapped function, as written.
    pub func: String,
    /// The positional arguments after the wrapped function.
    pub args: Vec<Literal>,
    /// The keyword arguments.
    pub kwargs: StrMap<Literal>,
}

/// The mathematical model of a partial binding.
pub struct PartialView {
    pub func: Seq<char>,
    pub args: Seq<LiteralView>,
    pub kwargs: Map<Seq<char>, LiteralView>,
}

impl View for PartialInfo {
    type V = PartialView;

    open spec fn view(&self) -> PartialView {
        PartialView { func: self.func@, args: literal_views(self.args@), kwargs: self.kwargs@ }
    }
}

impl Duplicate for PartialInfo {
    fn duplicate(&self) -> (r: Self) {
        PartialInfo {
            func: self.func.clone(),
            args: duplicate_literals(&self.args),
            kwargs: self.kwargs.duplicate(),
        }
    }
}

impl Clone for PartialInfo {
    fn clone(&self) -> (r: Self)
        ensures
            r@ == self@,
    {
        self.duplicate()
    }
}

/// One function, method, partial binding or declarative instance file.
#[derive(Debug)]
pub struct FunctionInfo {
    /// Simple name, or `Class.method`.
    pub name: String,
    /// The module that owns it.
    pub module: String,
    pub line: usize,
    /// Callee names as written, in order of first appearance.
    pub calls: IndexSet<String>,
    /// Decorators as written; a call-form decorator ends in `(...)`.
    pub decorators: IndexSet<String>,
    pub resolved_calls: IndexSet<String>,
    pub resolved_decorators: IndexSet<String>,
    pub parameter_defaults: StrMap<Literal>,
    /// Component names referenced through `get_component`.
    pub component_gets: IndexSet<String>,
    pub resolved_component_gets: IndexSet<String>,
    pub is_partial: bool,
    pub return_annotation: Option<String>,
    pub resolved_return_annotation: Option<String>,
}

/// The mathematical model of a function record.
pub struct FunctionView {
    pub name: Seq<char>,
    pub module: Seq<char>,
    pub line: usize,
    pub calls: Seq<Seq<char>>,
    pub decorators: Seq<Seq<char>>,
    pub resolved_calls: Seq<Seq<char>>,
    pub resolved_decorators: Seq<Seq<char>>,
    pub parameter_defaults: Map<Seq<char>, LiteralView>,
    pub component_gets: Seq<Seq<char>>,
    pub resolved_component_gets: Seq<Seq<char>>,
    pub is_partial: bool,
    pub return_annotation: Option<Seq<char>>,
    pub resolved_return_annotation: Option<Seq<char>>,
}

/// The model of an optional string.
pub open spec fn option_view(o: Option<String>) -> Option<Seq<char>> {
    match o {
        Some(s) => Some(s@),
        None => None,
    }
}

/// A copy of an optional string.
pub fn duplicate_option(o: &Option<String>) -> (r: Option<String>)
    ensures
        option_view(r) == option_view(*o),
{
    match o {
        Some(s) => Some(s.clone()),
        None => None,
    }
}

impl View for FunctionInfo {
    type V = FunctionView;

    open spec fn view(&self) -> FunctionView {
        FunctionView {
            name: self.name@,
            module: self.module@,
            line: self.line,
            calls: set_items(self.calls),
            decorators: set_items(self.decorators),
            resolved_calls: set_items(self.resolved_calls),
            resolved_decorators: set_items(self.resolved_decorators),
            parameter_defaults: self.parameter_defaults@,
            component_gets: set_items(self.component_gets),
            resolved_component_gets: set_items(self.resolved_component_gets),
            is_partial: self.is_partial,
            return_annotation: option_view(self.return_annotation),
            resolved_return_annotation: option_view(self.resolved_return_annotation),
        }
    }
}

impl FunctionView {
    /// The key under which the function is filed: `module.name`.
    pub open spec fn key(self) -> Seq<char> {
        crate::text::dotted(self.module, self.name)
    }
}

impl FunctionInfo {
    /// A record with the given identity and nothing collected yet.
    pub fn new(name: String, module: String, line: usize) -> (r: Self)
        ensures
            r@ == (FunctionView {
                name: name@,
                module: module@,
                line,
                calls: Seq::empty(),
                decorators: Seq::empty(),
                resolved_calls: Seq::empty(),
                resolved_decorators: Seq::empty(),
                parameter_defaults: Map::empty(),
                component_gets: Seq::empty(),
                resolved_component_gets: Seq::empty(),
                is_partial: false,
                return_annotation: None,
                resolved_return_annotation: None,
            }),
    {
        FunctionInfo {
            name,
            module,
            line,
            calls: set_new(),
            decorators: set_new(),
            resolved_calls: set_new(),
            resolved_decorators: set_new(),
            parameter_defaults: StrMap::new(),
            component_gets: set_new(),
            resolved_component_gets: set_new(),
            is_partial: false,
            return_annotation: None,
            resolved_return_annotation: None,
        }
    }

    /// The key under which the function is filed: `module.name`.
    pub fn key(&self) -> (r: String)
        ensures
            r@ == self@.key(),
    {
        crate::text::dot_join(self.module.as_str(), self.name.as_str())
    }
}

impl Duplicate for FunctionInfo {
    fn duplicate(&self) -> (r: Self) {
        FunctionInfo {
            name: self.name.clone(),
            module: self.module.clone(),
            line: self.line,
            calls: set_clone(&self.calls),
            decorators: set_clone(&self.decorators),
            resolved_calls: set_clone(&self.resolved_calls),
            resolved_decorators: set_clone(&self.resolved_decorators),
            parameter_defaults: self.parameter_defaults.duplicate(),
            component_gets: set_clone(&self.component_gets),
            resolved_component_gets: set_clone(&self.resolved_component_gets),
            is_partial: self.is_partial,
            return_annotation: duplicate_option(&self.return_annotation),
            resolved_return_annotation: duplicate_option(&self.resolved_return_annotation),
        }
    }
}

impl Clone for FunctionInfo {
    fn clone(&self) -> (r: Self)
        ensures
            r@ == self@,
    {
        self.duplicate()
    }
}

/// The symbol table of one module.
#[derive(Debug)]
pub struct ModuleInfo {
    pub name: String,
    /// The file that first contributed to the module.
    pub path: String,
    /// Names of the functions defined in the module.
    pub functions: IndexSet<String>,
    pub partials: StrMap<PartialInfo>,
    /// Import targets; a star import ends in `.*`.
    pub imports: IndexSet<String>,
    /// Alias name to dotted target.
    pub aliases: StrMap<String>,
    /// Constant name to its string value.
    pub constants: StrMap<String>,
    /// Parse and analysis failures.
    pub errors: IndexSet<String>,
}

/// The mathematical model of a module.
pub struct ModuleView {
    pub name: Seq<char>,
    pub path: Seq<char>,
    pub functions: Seq<Seq<char>>,
    pub partials: Map<Seq<char>, PartialView>,
    pub imports: Seq<Seq<char>>,
    pub aliases: Map<Seq<char>, Seq<char>>,
    pub constants: Map<Seq<char>, Seq<char>>,
    pub errors: Seq<Seq<char>>,
}

impl View for ModuleInfo {
    type V = ModuleView;

    open spec fn view(&self) -> ModuleView {
        ModuleView {
            name: self.name@,
            path: self.path@,
            functions: set_items(self.functions),
            partials: self.partials@,
            imports: set_items(self.imports),
            aliases: self.aliases@,
            constants: self.constants@,
            errors: set_items(self.errors),
        }
    }
}

impl ModuleView {
    /// A module that has a name and a path and holds nothing else.
    pub open spec fn empty(name: Seq<char>, path: Seq<char>) -> ModuleView {
        ModuleView {
            name,
            path,
            functions: Seq::empty(),
            partials: Map::empty(),
            imports: Seq::empty(),
            aliases: Map::empty(),
            constants: Map::empty(),
            errors: Seq::empty(),
        }
    }
}

impl ModuleInfo {
    /// A module that has a name and a path and holds nothing else.
    pub fn new(name: String, path: String) -> (r: Self)
        ensures
            r@ == ModuleView::empty(name@, path@),
    {
        ModuleInfo {
            name,
            path,
            functions: set_new(),
            partials: StrMap::new(),
            imports: set_new(),
            aliases: StrMap::new(),
            constants: StrMap::new(),
            errors: set_new(),
        }
    }
}

impl Duplicate for ModuleInfo {
    fn duplicate(&self) -> (r: Self) {
        ModuleInfo {
            name: self.name.clone(),
            path: self.path.clone(),
            functions: set_clone(&self.functions),
            partials: self.partials.duplicate(),
            imports: set_clone(&self.imports),
            aliases: self.aliases.duplicate(),
            constants: self.constants.duplicate(),
            errors: set_clone(&self.errors),
        }
    }
}

impl Clone for ModuleInfo {
    fn clone(&self) -> (r: Self)
        ensures
            r@ == self@,
    {
        self.duplicate()
    }
}

/// The finished graph: every function under its `module.name` key, and every
/// module under its name.
#[derive(Debug)]
pub struct CallGraph {
    pub functions: StrMap<FunctionInfo>,
    pub modules: StrMap<ModuleInfo>,
}

/// The mathematical model of a graph.
pub struct CallGraphView {
    pub functions: Map<Seq<char>, FunctionView>,
    pub modules: Map<Seq<char>, ModuleView>,
}

impl View for CallGraph {
    type V = CallGraphView;

    open spec fn view(&self) -> CallGraphView {
        CallGraphView { functions: self.functions@, modules: self.modules@ }
    }
}

/// The models of a list of functions.
pub open spec fn function_views(v: Seq<FunctionInfo>) -> Seq<FunctionView> {
    Seq::new(v.len(), |i: int| v[i]@)
}

} // verus!
