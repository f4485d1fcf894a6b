//! Flattening of partial applications.
//!
//! A partial binding is a pseudo-function that wraps another function, which
//! may itself be a partial binding. After resolution every such record takes
//! over the parameter defaults, decorators, component references and return
//! annotation of the function at the end of its chain, with the keyword
//! arguments bound along the chain laid over the defaults. A binding whose
//! chain does not end within the depth limit, as in a cycle, is left as it
//! is; so flattening twice is flattening once.

use crate::builder::CallGraphBuilder;
use crate::ordered::{insert_distinct, set_get_index, set_insert, set_len, set_new, set_clone};
use crate::resolve::last_segment;
use crate::schema::{
    duplicate_option, function_views, FunctionInfo, FunctionView, Literal, LiteralView,
    ModuleInfo, ModuleView,
};
use crate::strmap::{entries_map, Duplicate, StrMap};
use crate::text::{split_on, starts_with, str_eq, views};
use indexmap::IndexSet;
use vstd::prelude::*;

verus! {

/// How many wrappers a chain may have before the walk stops where it is.
/// Bindings may be cyclic; the limit makes every walk end.
pub const CHAIN_DEPTH_LIMIT: usize = 16;

/// The prefix of the base library, under which a wrapped function is searched
/// by simple name when its resolved key matches no function.
pub open spec fn base_library() -> Seq<char> {
    seq!['g', 'd', 's', 'f', 'a', 'c', 't', 'o', 'r', 'y']
}

/// `partial`.
pub open spec fn partial_marker() -> Seq<char> {
    seq!['p', 'a', 'r', 't', 'i', 'a', 'l']
}

/// `functools.partial`.
pub open spec fn functools_partial_marker() -> Seq<char> {
    seq!['f', 'u', 'n', 'c', 't', 'o', 'o', 'l', 's', '.'] + partial_marker()
}

/// Position of the first function, from `from` on, filed under `key`.
pub open spec fn first_with_key(functions: Seq<FunctionView>, key: Seq<char>, from: int) -> Option<
    int,
>
    decreases functions.len() - from,
{
    if from < 0 || from >= functions.len() {
        None
    } else if functions[from].key() == key {
        Some(from)
    } else {
        first_with_key(functions, key, from + 1)
    }
}

/// Position of the first function, from `from` on, that has the simple name
/// `name` and lives under the base library.
pub open spec fn first_in_base_library(functions: Seq<FunctionView>, name: Seq<char>, from: int)
    -> Option<int>
    decreases functions.len() - from,
{
    if from < 0 || from >= functions.len() {
        None
    } else if functions[from].name == name && base_library().is_prefix_of(functions[from].module) {
        Some(from)
    } else {
        first_in_base_library(functions, name, from + 1)
    }
}

/// Where the function named by a resolved call is: the first function filed
/// under exactly that key, or else the first function of the base library
/// whose name is the last segment of the key.
pub open spec fn find_wrapped(functions: Seq<FunctionView>, wrapped: Seq<char>) -> Option<int> {
    match first_with_key(functions, wrapped, 0) {
        Some(i) => Some(i),
        None => first_in_base_library(functions, last_segment(wrapped), 0),
    }
}

/// The function that a partial binding wraps: that of its first resolved
/// call. A record that is no partial binding wraps nothing.
pub open spec fn wrapped_index(f: FunctionView, functions: Seq<FunctionView>) -> Option<int> {
    if f.is_partial && f.resolved_calls.len() > 0 {
        find_wrapped(functions, f.resolved_calls[0])
    } else {
        None
    }
}

/// The end of the chain that starts at `f`: the first function on it that
/// wraps nothing that can be found, or the function reached after `fuel`
/// steps.
pub open spec fn chain_base(f: FunctionView, functions: Seq<FunctionView>, fuel: nat)
    -> FunctionView
    decreases fuel,
{
    if fuel == 0 {
        f
    } else {
        match wrapped_index(f, functions) {
            Some(j) => chain_base(functions[j], functions, (fuel - 1) as nat),
            None => f,
        }
    }
}

/// The keyword arguments that the binding behind `f` fixes.
pub open spec fn bound_keywords(f: FunctionView, modules: Map<Seq<char>, ModuleView>) -> Map<
    Seq<char>,
    LiteralView,
> {
    if modules.contains_key(f.module) && modules[f.module].partials.contains_key(f.name) {
        modules[f.module].partials[f.name].kwargs
    } else {
        Map::empty()
    }
}

/// The keyword arguments fixed along the chain that starts at the binding
/// `f`; where two bindings fix the same parameter, the one nearer to `f`
/// counts.
pub open spec fn chain_overrides(
    f: FunctionView,
    functions: Seq<FunctionView>,
    modules: Map<Seq<char>, ModuleView>,
    fuel: nat,
) -> Map<Seq<char>, LiteralView>
    decreases fuel,
{
    let own = bound_keywords(f, modules);
    if fuel == 0 {
        own
    } else {
        match wrapped_index(f, functions) {
            Some(j) => if functions[j].is_partial {
                chain_overrides(
                    functions[j],
                    functions,
                    modules,
                    (fuel - 1) as nat,
                ).union_prefer_right(own)
            } else {
                own
            },
            None => own,
        }
    }
}

/// Whether a decorator is one of the two markers of a partial application.
pub open spec fn is_partial_marker(d: Seq<char>) -> bool {
    d == partial_marker() || d == functools_partial_marker()
}

/// The decorators other than the markers of a partial application, in order.
pub open spec fn without_markers(items: Seq<Seq<char>>) -> Seq<Seq<char>>
    decreases items.len(),
{
    if items.len() == 0 {
        Seq::empty()
    } else if is_partial_marker(items.last()) {
        without_markers(items.drop_last())
    } else {
        insert_distinct(without_markers(items.drop_last()), items.last())
    }
}

/// The chain from `f` ends within `fuel` steps at a function that wraps
/// nothing that can be found.
pub open spec fn chain_ends(f: FunctionView, functions: Seq<FunctionView>, fuel: nat) -> bool {
    wrapped_index(chain_base(f, functions, fuel), functions) is None
}

/// A partial binding with the details of the function at the end of its
/// chain. Any other record stays as it is, and so does a binding whose
/// wrapped function cannot be found or whose chain does not end within the
/// depth limit.
pub open spec fn flatten(
    f: FunctionView,
    functions: Seq<FunctionView>,
    modules: Map<Seq<char>, ModuleView>,
) -> FunctionView {
    if wrapped_index(f, functions) is Some && chain_ends(f, functions, CHAIN_DEPTH_LIMIT as nat) {
        let base = chain_base(f, functions, CHAIN_DEPTH_LIMIT as nat);
        FunctionView {
            parameter_defaults: base.parameter_defaults.union_prefer_right(
                chain_overrides(f, functions, modules, CHAIN_DEPTH_LIMIT as nat),
            ),
            decorators: without_markers(base.decorators),
            resolved_decorators: without_markers(base.resolved_decorators),
            component_gets: base.component_gets,
            resolved_component_gets: base.resolved_component_gets,
            return_annotation: base.return_annotation,
            resolved_return_annotation: base.resolved_return_annotation,
            ..f
        }
    } else {
        f
    }
}

/// Every function flattened against the same list.
pub open spec fn flatten_all(functions: Seq<FunctionView>, modules: Map<Seq<char>, ModuleView>)
    -> Seq<FunctionView> {
    Seq::new(functions.len(), |i: int| flatten(functions[i], functions, modules))
}

/// Composition: a binding `h` over a binding `g` over a plain function `f`
/// has `f`'s defaults with `g`'s keywords laid over them and `h`'s keywords
/// laid over those, and `f`'s decorators, component references and return
/// annotation.
pub proof fn lemma_flatten_composes(
    functions: Seq<FunctionView>,
    modules: Map<Seq<char>, ModuleView>,
    h: FunctionView,
    g: int,
    f: int,
)
    requires
        wrapped_index(h, functions) == Some(g),
        0 <= g < functions.len(),
        functions[g].is_partial,
        wrapped_index(functions[g], functions) == Some(f),
        0 <= f < functions.len(),
        !functions[f].is_partial,
    ensures
        flatten(h, functions, modules) == (FunctionView {
            parameter_defaults: functions[f].parameter_defaults.union_prefer_right(
                bound_keywords(functions[g], modules),
            ).union_prefer_right(bound_keywords(h, modules)),
            decorators: without_markers(functions[f].decorators),
            resolved_decorators: without_markers(functions[f].resolved_decorators),
            component_gets: functions[f].component_gets,
            resolved_component_gets: functions[f].resolved_component_gets,
            return_annotation: functions[f].return_annotation,
            resolved_return_annotation: functions[f].resolved_return_annotation,
            ..h
        }),
{
    lemma_chain_of_two(functions, modules, h, g, f);
}

proof fn lemma_chain_of_two(
    functions: Seq<FunctionView>,
    modules: Map<Seq<char>, ModuleView>,
    h: FunctionView,
    g: int,
    f: int,
)
    requires
        wrapped_index(h, functions) == Some(g),
        0 <= g < functions.len(),
        functions[g].is_partial,
        wrapped_index(functions[g], functions) == Some(f),
        0 <= f < functions.len(),
        !functions[f].is_partial,
    ensures
        chain_ends(h, functions, CHAIN_DEPTH_LIMIT as nat),
        chain_base(h, functions, CHAIN_DEPTH_LIMIT as nat) == functions[f],
        chain_overrides(h, functions, modules, CHAIN_DEPTH_LIMIT as nat) == bound_keywords(
            functions[g],
            modules,
        ).union_prefer_right(bound_keywords(h, modules)),
        flatten(h, functions, modules) == (FunctionView {
            parameter_defaults: functions[f].parameter_defaults.union_prefer_right(
                bound_keywords(functions[g], modules),
            ).union_prefer_right(bound_keywords(h, modules)),
            decorators: without_markers(functions[f].decorators),
            resolved_decorators: without_markers(functions[f].resolved_decorators),
            component_gets: functions[f].component_gets,
            resolved_component_gets: functions[f].resolved_component_gets,
            return_annotation: functions[f].return_annotation,
            resolved_return_annotation: functions[f].resolved_return_annotation,
            ..h
        }),
{
    let limit = CHAIN_DEPTH_LIMIT as nat;
    let fg = functions[g];
    let ff = functions[f];
    assert(chain_base(ff, functions, (limit - 2) as nat) == ff);
    assert(chain_base(fg, functions, (limit - 1) as nat) == ff);
    assert(chain_base(h, functions, limit) == ff);
    assert(wrapped_index(ff, functions) is None);
    assert(chain_overrides(fg, functions, modules, (limit - 1) as nat) == bound_keywords(
        fg,
        modules,
    ));
    let over = chain_overrides(h, functions, modules, limit);
    assert(over == bound_keywords(fg, modules).union_prefer_right(bound_keywords(h, modules)));
    assert(ff.parameter_defaults.union_prefer_right(over) =~= ff.parameter_defaults.union_prefer_right(
        bound_keywords(fg, modules),
    ).union_prefer_right(bound_keywords(h, modules)));
}

/// A list without repetition that holds no marker is left as it is.
pub proof fn lemma_without_markers_keeps_plain_lists(items: Seq<Seq<char>>)
    requires
        items.no_duplicates(),
        forall|i: int| 0 <= i < items.len() ==> !is_partial_marker(#[trigger] items[i]),
    ensures
        without_markers(items) == items,
    decreases items.len(),
{
    if items.len() > 0 {
        let rest = items.drop_last();
        assert(rest.no_duplicates());
        assert forall|i: int| 0 <= i < rest.len() implies !is_partial_marker(
            #[trigger] rest[i],
        ) by {
            assert(rest[i] == items[i]);
        }
        lemma_without_markers_keeps_plain_lists(rest);
        assert(!is_partial_marker(items[items.len() - 1]));
        if rest.contains(items.last()) {
            let k = choose|k: int| 0 <= k < rest.len() && rest[k] == items.last();
            assert(items[k] == items[items.len() - 1]);
        }
        assert(rest.push(items.last()) =~= items);
    } else {
        assert(items =~= Seq::empty());
    }
}

/// Composition, to the letter: where the decorators of the plain function
/// `f` hold no marker of a partial application, a binding `h` over a binding
/// `g` over `f` has exactly `f`'s decorators, component references and
/// return annotation, raw and resolved. The lists of a record never repeat
/// an entry.
pub proof fn lemma_flatten_copies_the_base(
    functions: Seq<FunctionView>,
    modules: Map<Seq<char>, ModuleView>,
    h: FunctionView,
    g: int,
    f: int,
)
    requires
        wrapped_index(h, functions) == Some(g),
        0 <= g < functions.len(),
        functions[g].is_partial,
        wrapped_index(functions[g], functions) == Some(f),
        0 <= f < functions.len(),
        !functions[f].is_partial,
        functions[f].decorators.no_duplicates(),
        functions[f].resolved_decorators.no_duplicates(),
        forall|i: int|
            0 <= i < functions[f].decorators.len() ==> !is_partial_marker(
                #[trigger] functions[f].decorators[i],
            ),
        forall|i: int|
            0 <= i < functions[f].resolved_decorators.len() ==> !is_partial_marker(
                #[trigger] functions[f].resolved_decorators[i],
            ),
    ensures
        flatten(h, functions, modules).decorators == functions[f].decorators,
        flatten(h, functions, modules).resolved_decorators == functions[f].resolved_decorators,
        flatten(h, functions, modules).component_gets == functions[f].component_gets,
        flatten(h, functions, modules).resolved_component_gets
            == functions[f].resolved_component_gets,
        flatten(h, functions, modules).return_annotation == functions[f].return_annotation,
        flatten(h, functions, modules).resolved_return_annotation
            == functions[f].resolved_return_annotation,
        flatten(h, functions, modules).parameter_defaults
            == functions[f].parameter_defaults.union_prefer_right(
            bound_keywords(functions[g], modules),
        ).union_prefer_right(bound_keywords(h, modules)),
{
    lemma_chain_of_two(functions, modules, h, g, f);
    lemma_without_markers_keeps_plain_lists(functions[f].decorators);
    lemma_without_markers_keeps_plain_lists(functions[f].resolved_decorators);
}

/// Nearest wins: a keyword that the binding behind `f` fixes itself keeps
/// the value given there, whatever the bindings farther down the chain say.
pub proof fn lemma_nearest_binding_wins(
    f: FunctionView,
    functions: Seq<FunctionView>,
    modules: Map<Seq<char>, ModuleView>,
    fuel: nat,
    keyword: Seq<char>,
)
    requires
        bound_keywords(f, modules).contains_key(keyword),
    ensures
        chain_overrides(f, functions, modules, fuel).contains_key(keyword),
        chain_overrides(f, functions, modules, fuel)[keyword] == bound_keywords(f, modules)[keyword],
{
}

/// Only partial bindings are flattened: every other record stays as it is.
pub proof fn lemma_flatten_leaves_plain_functions(
    f: FunctionView,
    functions: Seq<FunctionView>,
    modules: Map<Seq<char>, ModuleView>,
)
    requires
        !f.is_partial,
    ensures
        flatten(f, functions, modules) == f,
{
}

/// Flattening keeps what chains are made of: identity, kind and resolved
/// calls of every function.
pub proof fn lemma_flatten_keeps_links(
    functions: Seq<FunctionView>,
    modules: Map<Seq<char>, ModuleView>,
)
    ensures
        forall|i: int|
            0 <= i < functions.len() ==> {
                let a = #[trigger] flatten_all(functions, modules)[i];
                let b = functions[i];
                a.name == b.name && a.module == b.module && a.is_partial == b.is_partial
                    && a.resolved_calls == b.resolved_calls
            },
{
}

proof fn lemma_first_with_key_same(
    a: Seq<FunctionView>,
    b: Seq<FunctionView>,
    key: Seq<char>,
    from: int,
)
    requires
        a.len() == b.len(),
        forall|i: int| 0 <= i < a.len() ==> a[i].name == b[i].name && a[i].module == b[i].module,
    ensures
        first_with_key(a, key, from) == first_with_key(b, key, from),
    decreases a.len() - from,
{
    if 0 <= from < a.len() {
        lemma_first_with_key_same(a, b, key, from + 1);
    }
}

proof fn lemma_first_in_base_library_same(
    a: Seq<FunctionView>,
    b: Seq<FunctionView>,
    name: Seq<char>,
    from: int,
)
    requires
        a.len() == b.len(),
        forall|i: int| 0 <= i < a.len() ==> a[i].name == b[i].name && a[i].module == b[i].module,
    ensures
        first_in_base_library(a, name, from) == first_in_base_library(b, name, from),
    decreases a.len() - from,
{
    if 0 <= from < a.len() {
        lemma_first_in_base_library_same(a, b, name, from + 1);
    }
}

proof fn lemma_first_with_key_range(functions: Seq<FunctionView>, key: Seq<char>, from: int)
    ensures
        first_with_key(functions, key, from) matches Some(i) ==> 0 <= i < functions.len(),
    decreases functions.len() - from,
{
    if 0 <= from < functions.len() {
        lemma_first_with_key_range(functions, key, from + 1);
    }
}

proof fn lemma_first_in_base_library_range(
    functions: Seq<FunctionView>,
    name: Seq<char>,
    from: int,
)
    ensures
        first_in_base_library(functions, name, from) matches Some(i) ==> 0 <= i < functions.len(),
    decreases functions.len() - from,
{
    if 0 <= from < functions.len() {
        lemma_first_in_base_library_range(functions, name, from + 1);
    }
}

/// A wrapped function, when found, is one of the list.
pub proof fn lemma_wrapped_index_range(f: FunctionView, functions: Seq<FunctionView>)
    ensures
        wrapped_index(f, functions) matches Some(i) ==> 0 <= i < functions.len(),
{
    if f.is_partial && f.resolved_calls.len() > 0 {
        lemma_first_with_key_range(functions, f.resolved_calls[0], 0);
        lemma_first_in_base_library_range(functions, last_segment(f.resolved_calls[0]), 0);
    }
}

/// Two lists that agree on identity, kind and resolved calls have the same
/// links.
proof fn lemma_wrapped_index_same(
    x: FunctionView,
    y: FunctionView,
    a: Seq<FunctionView>,
    b: Seq<FunctionView>,
)
    requires
        a.len() == b.len(),
        forall|i: int| 0 <= i < a.len() ==> a[i].name == b[i].name && a[i].module == b[i].module,
        x.is_partial == y.is_partial,
        x.resolved_calls == y.resolved_calls,
    ensures
        wrapped_index(x, a) == wrapped_index(y, b),
{
    if x.is_partial && x.resolved_calls.len() > 0 {
        lemma_first_with_key_same(a, b, x.resolved_calls[0], 0);
        lemma_first_in_base_library_same(a, b, last_segment(x.resolved_calls[0]), 0);
    }
}

/// The position that the chain from position `i` reaches: that of its end,
/// or the one reached after `fuel` steps.
pub open spec fn chain_index(i: int, functions: Seq<FunctionView>, fuel: nat) -> int
    decreases fuel,
{
    if fuel == 0 {
        i
    } else {
        match wrapped_index(functions[i], functions) {
            Some(j) => chain_index(j, functions, (fuel - 1) as nat),
            None => i,
        }
    }
}

proof fn lemma_chain_index(i: int, functions: Seq<FunctionView>, fuel: nat)
    requires
        0 <= i < functions.len(),
    ensures
        0 <= chain_index(i, functions, fuel) < functions.len(),
        chain_base(functions[i], functions, fuel) == functions[chain_index(i, functions, fuel)],
    decreases fuel,
{
    lemma_wrapped_index_range(functions[i], functions);
    if fuel > 0 {
        match wrapped_index(functions[i], functions) {
            Some(j) => {
                lemma_chain_index(j, functions, (fuel - 1) as nat);
            },
            None => {},
        }
    }
}

/// In the flattened list a chain passes through the same positions.
proof fn lemma_chain_index_after_flatten(
    functions: Seq<FunctionView>,
    modules: Map<Seq<char>, ModuleView>,
    i: int,
    fuel: nat,
)
    requires
        0 <= i < functions.len(),
    ensures
        chain_index(i, flatten_all(functions, modules), fuel) == chain_index(i, functions, fuel),
    decreases fuel,
{
    let flat = flatten_all(functions, modules);
    lemma_flatten_keeps_links(functions, modules);
    assert(flat[i].is_partial == functions[i].is_partial);
    lemma_wrapped_index_same(flat[i], functions[i], flat, functions);
    lemma_wrapped_index_range(functions[i], functions);
    if fuel > 0 {
        match wrapped_index(functions[i], functions) {
            Some(j) => {
                lemma_chain_index_after_flatten(functions, modules, j, (fuel - 1) as nat);
            },
            None => {},
        }
    }
}

/// In the flattened list a chain fixes the same keywords.
proof fn lemma_chain_overrides_after_flatten(
    functions: Seq<FunctionView>,
    modules: Map<Seq<char>, ModuleView>,
    i: int,
    fuel: nat,
)
    requires
        0 <= i < functions.len(),
    ensures
        chain_overrides(
            flatten_all(functions, modules)[i],
            flatten_all(functions, modules),
            modules,
            fuel,
        ) == chain_overrides(functions[i], functions, modules, fuel),
    decreases fuel,
{
    let flat = flatten_all(functions, modules);
    lemma_flatten_keeps_links(functions, modules);
    assert(flat[i].is_partial == functions[i].is_partial);
    lemma_wrapped_index_same(flat[i], functions[i], flat, functions);
    lemma_wrapped_index_range(functions[i], functions);
    if fuel > 0 {
        match wrapped_index(functions[i], functions) {
            Some(j) => {
                assert(flat[j].is_partial == functions[j].is_partial);
                lemma_chain_overrides_after_flatten(functions, modules, j, (fuel - 1) as nat);
            },
            None => {},
        }
    }
}

/// Idempotence: flattening a flattened list changes nothing, whatever the
/// chains are.
pub proof fn lemma_flatten_is_idempotent(
    functions: Seq<FunctionView>,
    modules: Map<Seq<char>, ModuleView>,
)
    ensures
        flatten_all(flatten_all(functions, modules), modules) == flatten_all(functions, modules),
{
    let limit = CHAIN_DEPTH_LIMIT as nat;
    let flat = flatten_all(functions, modules);
    let twice = flatten_all(flat, modules);
    lemma_flatten_keeps_links(functions, modules);
    assert forall|i: int| 0 <= i < functions.len() implies twice[i] == flat[i] by {
        let f = functions[i];
        assert(flat[i].is_partial == f.is_partial);
        lemma_wrapped_index_same(flat[i], f, flat, functions);
        lemma_chain_index(i, functions, limit);
        lemma_chain_index(i, flat, limit);
        lemma_chain_index_after_flatten(functions, modules, i, limit);
        lemma_chain_overrides_after_flatten(functions, modules, i, limit);
        let end = chain_index(i, functions, limit);
        assert(flat[end].is_partial == functions[end].is_partial);
        lemma_wrapped_index_same(flat[end], functions[end], flat, functions);
        if wrapped_index(functions[end], functions) is None {
            assert(flat[end] == functions[end]);
        }
    }
    assert(twice =~= flat);
}

/// Position of the function that a resolved call names (see `find_wrapped`).
pub fn find_function(functions: &Vec<FunctionInfo>, wrapped: &str) -> (r: Option<usize>)
    ensures
        match r {
            Some(i) => find_wrapped(function_views(functions@), wrapped@) == Some(i as int) && i
                < functions.len(),
            None => find_wrapped(function_views(functions@), wrapped@) is None,
        },
{
    let ghost fv = function_views(functions@);
    let mut i: usize = 0;
    while i < functions.len()
        invariant
            i <= functions.len(),
            fv == function_views(functions@),
            first_with_key(fv, wrapped@, 0) == first_with_key(fv, wrapped@, i as int),
        decreases functions.len() - i,
    {
        proof {
            assert(fv[i as int] == functions@[i as int]@);
        }
        let key = functions[i].key();
        if str_eq(key.as_str(), wrapped) {
            return Some(i);
        }
        i += 1;
    }
    let parts = split_on(wrapped, '.');
    let simple = &parts[parts.len() - 1];
    proof {
        assert(views(parts@).last() == simple@);
        reveal_strlit("gdsfactory");
        assert("gdsfactory"@ =~= base_library());
    }
    let mut k: usize = 0;
    while k < functions.len()
        invariant
            k <= functions.len(),
            fv == function_views(functions@),
            simple@ == last_segment(wrapped@),
            "gdsfactory"@ == base_library(),
            first_with_key(fv, wrapped@, 0) is None,
            first_in_base_library(fv, simple@, 0) == first_in_base_library(fv, simple@, k as int),
        decreases functions.len() - k,
    {
        proof {
            assert(fv[k as int] == functions@[k as int]@);
        }
        if str_eq(functions[k].name.as_str(), simple.as_str()) && starts_with(
            functions[k].module.as_str(),
            "gdsfactory",
        ) {
            return Some(k);
        }
        k += 1;
    }
    None
}

/// Position of the function that `f` wraps, if it wraps one that can be found.
pub fn find_wrapped_function(f: &FunctionInfo, functions: &Vec<FunctionInfo>) -> (r: Option<usize>)
    ensures
        match r {
            Some(i) => wrapped_index(f@, function_views(functions@)) == Some(i as int) && i
                < functions.len(),
            None => wrapped_index(f@, function_views(functions@)) is None,
        },
{
    if !f.is_partial {
        return None;
    }
    match set_get_index(&f.resolved_calls, 0) {
        Some(first) => find_function(functions, first.as_str()),
        None => None,
    }
}

/// Follows the chain of wrappers from the function at `start` for at most
/// `fuel` steps. Returns the position of the end of the chain, or `None`
/// when the chain does not end within these steps.
pub fn find_base_function(start: usize, functions: &Vec<FunctionInfo>, fuel: usize) -> (r: Option<
    usize,
>)
    requires
        start < functions.len(),
    ensures
        match r {
            Some(b) => b < functions.len() && chain_ends(
                functions@[start as int]@,
                function_views(functions@),
                fuel as nat,
            ) && functions@[b as int]@ == chain_base(
                functions@[start as int]@,
                function_views(functions@),
                fuel as nat,
            ),
            None => !chain_ends(
                functions@[start as int]@,
                function_views(functions@),
                fuel as nat,
            ),
        },
{
    let ghost fv = function_views(functions@);
    let mut current: usize = start;
    let mut left: usize = fuel;
    while left > 0
        invariant
            current < functions.len(),
            fv == function_views(functions@),
            chain_base(functions@[start as int]@, fv, fuel as nat) == chain_base(
                functions@[current as int]@,
                fv,
                left as nat,
            ),
        decreases left,
    {
        match find_wrapped_function(&functions[current], functions) {
            Some(next) => {
                proof {
                    assert(fv[next as int] == functions@[next as int]@);
                }
                current = next;
                left -= 1;
            },
            None => {
                return Some(current);
            },
        }
    }
    match find_wrapped_function(&functions[current], functions) {
        Some(next) => None,
        None => Some(current),
    }
}

/// Lays `source` over `target`: every key of `source` takes its value there.
pub fn overlay(target: &mut StrMap<Literal>, source: &StrMap<Literal>)
    ensures
        final(target)@ == old(target)@.union_prefer_right(source@),
{
    let mut i: usize = 0;
    proof {
        assert(source.entries@.take(0) =~= Seq::empty());
        assert(target@ =~= target@.union_prefer_right(entries_map(source.entries@.take(0))));
    }
    while i < source.entries.len()
        invariant
            i <= source.entries.len(),
            target@ == old(target)@.union_prefer_right(entries_map(source.entries@.take(i as int))),
        decreases source.entries.len() - i,
    {
        let k = source.entries[i].0.clone();
        let v = source.entries[i].1.duplicate();
        proof {
            let next = source.entries@.take(i + 1);
            assert(next.drop_last() =~= source.entries@.take(i as int));
            assert(next.last() == source.entries@[i as int]);
            assert(target@.insert(k@, v@) =~= old(target)@.union_prefer_right(entries_map(next)));
        }
        target.insert(k, v);
        i += 1;
    }
    proof {
        assert(source.entries@.take(source.entries.len() as int) =~= source.entries@);
    }
}

/// The keyword arguments that the binding behind `f` fixes.
pub fn bound_keywords_of(f: &FunctionInfo, modules: &StrMap<ModuleInfo>) -> (r: StrMap<Literal>)
    ensures
        r@ == bound_keywords(f@, modules@),
{
    match modules.get(f.module.as_str()) {
        Some(module_info) => {
            match module_info.partials.get(f.name.as_str()) {
                Some(partial) => partial.kwargs.duplicate(),
                None => StrMap::new(),
            }
        },
        None => StrMap::new(),
    }
}

/// The keyword arguments fixed along the chain that starts at the binding
/// `f`, the nearer binding winning.
pub fn collect_overrides(
    f: &FunctionInfo,
    functions: &Vec<FunctionInfo>,
    modules: &StrMap<ModuleInfo>,
    fuel: usize,
) -> (r: StrMap<Literal>)
    ensures
        r@ == chain_overrides(f@, function_views(functions@), modules@, fuel as nat),
    decreases fuel,
{
    let own = bound_keywords_of(f, modules);
    if fuel == 0 {
        return own;
    }
    match find_wrapped_function(f, functions) {
        Some(j) => {
            proof {
                assert(function_views(functions@)[j as int] == functions@[j as int]@);
            }
            if functions[j].is_partial {
                let mut far = collect_overrides(&functions[j], functions, modules, fuel - 1);
                overlay(&mut far, &own);
                far
            } else {
                own
            }
        },
        None => own,
    }
}

/// Lays the keywords fixed along the chain of `func` over its parameter
/// defaults.
pub fn apply_partial_overrides(
    func: &mut FunctionInfo,
    functions: &Vec<FunctionInfo>,
    modules: &StrMap<ModuleInfo>,
)
    ensures
        final(func)@ == (FunctionView {
            parameter_defaults: old(func)@.parameter_defaults.union_prefer_right(
                chain_overrides(
                    old(func)@,
                    function_views(functions@),
                    modules@,
                    CHAIN_DEPTH_LIMIT as nat,
                ),
            ),
            ..old(func)@
        }),
{
    let overrides = collect_overrides(func, functions, modules, CHAIN_DEPTH_LIMIT);
    overlay(&mut func.parameter_defaults, &overrides);
}

/// The decorators of a set other than the markers of a partial application:
/// all of them, as they are, when the set holds no marker.
pub fn copy_without_markers(items: &IndexSet<String>) -> (r: IndexSet<String>)
    ensures
        crate::ordered::set_items(r) == without_markers(crate::ordered::set_items(*items)),
        (forall|i: int|
            0 <= i < crate::ordered::set_items(*items).len() ==> !is_partial_marker(
                #[trigger] crate::ordered::set_items(*items)[i],
            )) ==> crate::ordered::set_items(r) == crate::ordered::set_items(*items),
{
    let ghost all = crate::ordered::set_items(*items);
    let mut out = set_new();
    let n = set_len(items);
    let mut i: usize = 0;
    proof {
        all.lemma_no_dup_set_cardinality();
        reveal_strlit("partial");
        reveal_strlit("functools.partial");
        assert("partial"@ =~= partial_marker());
        assert("functools.partial"@ =~= functools_partial_marker());
        assert(all.take(0) =~= Seq::empty());
    }
    while i < n
        invariant
            i <= n,
            n == all.len(),
            all.no_duplicates(),
            all == crate::ordered::set_items(*items),
            "partial"@ == partial_marker(),
            "functools.partial"@ == functools_partial_marker(),
            crate::ordered::set_items(out) == without_markers(all.take(i as int)),
        decreases n - i,
    {
        match set_get_index(items, i) {
            Some(d) => {
                proof {
                    let next = all.take(i + 1);
                    assert(next.drop_last() =~= all.take(i as int));
                    assert(next.last() == d@);
                }
                if !(str_eq(d.as_str(), "partial") || str_eq(d.as_str(), "functools.partial")) {
                    let _ = set_insert(&mut out, d.clone());
                }
            },
            None => {},
        }
        i += 1;
    }
    proof {
        assert(all.take(n as int) =~= all);
        if forall|i: int| 0 <= i < all.len() ==> !is_partial_marker(#[trigger] all[i]) {
            lemma_without_markers_keeps_plain_lists(all);
        }
    }
    out
}

/// The record `f` flattened against `functions` (see `flatten`).
pub fn flatten_function(
    f: &FunctionInfo,
    functions: &Vec<FunctionInfo>,
    modules: &StrMap<ModuleInfo>,
) -> (r: FunctionInfo)
    ensures
        r@ == flatten(f@, function_views(functions@), modules@),
{
    let mut out = f.duplicate();
    let j = match find_wrapped_function(f, functions) {
        Some(j) => j,
        None => {
            return out;
        },
    };
    proof {
        assert(function_views(functions@)[j as int] == functions@[j as int]@);
    }
    match find_base_function(j, functions, CHAIN_DEPTH_LIMIT - 1) {
        Some(b) => {
            let base = &functions[b];
            out.parameter_defaults = base.parameter_defaults.duplicate();
            apply_partial_overrides(&mut out, functions, modules);
            out.decorators = copy_without_markers(&base.decorators);
            out.resolved_decorators = copy_without_markers(&base.resolved_decorators);
            out.component_gets = set_clone(&base.component_gets);
            out.resolved_component_gets = set_clone(&base.resolved_component_gets);
            out.return_annotation = duplicate_option(&base.return_annotation);
            out.resolved_return_annotation = duplicate_option(&base.resolved_return_annotation);
            out
        },
        None => out,
    }
}

impl CallGraphBuilder {
    /// Gives every partial binding the details of the function at the end of
    /// its chain. All lookups go against the functions as they were before
    /// the call.
    pub fn populate_partial_function_details(&mut self)
        ensures
            final(self)@ == (crate::builder::BuilderView {
                functions: flatten_all(old(self)@.functions, old(self)@.modules),
                ..old(self)@
            }),
    {
        let mut out: Vec<FunctionInfo> = Vec::new();
        let mut i: usize = 0;
        while i < self.functions.len()
            invariant
                i <= self.functions.len(),
                *self == *old(self),
                out@.len() == i,
                forall|k: int|
                    0 <= k < i ==> (#[trigger] out@[k])@ == flatten(
                        self.functions@[k]@,
                        function_views(self.functions@),
                        self.modules@,
                    ),
            decreases self.functions.len() - i,
        {
            let flat = flatten_function(&self.functions[i], &self.functions, &self.modules);
            out.push(flat);
            i += 1;
        }
        proof {
            assert(function_views(out@) =~= flatten_all(old(self)@.functions, old(self)@.modules));
        }
        self.functions = out;
    }
}

} // verus!
