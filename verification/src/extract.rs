//! What one expression or one parameter list contributes: callee names,
//! component references, decorator names, literal defaults and annotation
//! texts.

use crate::ast::{Expr, Keyword, Number, Parameter};
use crate::ordered::{insert_distinct, set_insert, set_items};
use crate::schema::{literal_views, Literal, LiteralView};
use crate::strmap::StrMap;
use crate::text::{glue, decimal, dot_join, dotted, int_text, str_eq, trim_char, trim_matches};
use indexmap::IndexSet;
use vstd::prelude::*;

verus! {

/// The dotted name that an expression spells: a bare name, or an attribute
/// chain with its base name in front. An attribute of anything that spells no
/// name is the attribute alone.
pub open spec fn name_of(e: Expr) -> Option<Seq<char>>
    decreases e,
{
    match e {
        Expr::Name { id } => Some(id@),
        Expr::Attribute { value, attr } => match name_of(*value) {
            Some(base) => Some(dotted(base, attr@)),
            None => Some(attr@),
        },
        _ => None,
    }
}

/// The text of a number literal.
pub open spec fn number_text(n: Number) -> Seq<char> {
    match n {
        Number::Int { value, text } => text@,
        Number::Float { bits, text, json } => text@,
        Number::Complex { re, im } => "("@ + re@ + "+"@ + im@ + "j)"@,
    }
}

/// The text of a type annotation.
///
/// Names and attribute chains are joined by dots, a subscript is
/// `Base[Slice]`, tuples and lists are their elements joined by `, ` inside
/// `(...)` and `[...]`, a string literal is quoted, a binary operator is a
/// union `Left | Right`, and any other shape is `<unknown>`.
pub open spec fn annotation_text(e: Expr) -> Seq<char>
    decreases e, 0nat,
{
    match e {
        Expr::Name { id } => id@,
        Expr::Attribute { value, attr } => dotted(annotation_text(*value), attr@),
        Expr::Subscript { value, slice } => annotation_text(*value) + "["@ + annotation_text(*slice)
            + "]"@,
        Expr::Tuple { elts } => "("@ + joined_annotations(elts@, elts@.len() as int) + ")"@,
        Expr::List { elts } => "["@ + joined_annotations(elts@, elts@.len() as int) + "]"@,
        Expr::StringLiteral { value } => "\""@ + value@ + "\""@,
        Expr::NumberLiteral { value } => number_text(value),
        Expr::BooleanLiteral { value } => if value {
            "true"@
        } else {
            "false"@
        },
        Expr::BinOp { left, right } => annotation_text(*left) + " | "@ + annotation_text(*right),
        _ => "<unknown>"@,
    }
}

/// The annotation texts of the first `n` expressions, joined by `, `.
pub open spec fn joined_annotations(elts: Seq<Expr>, n: int) -> Seq<char>
    decreases elts, n,
{
    if n <= 0 || n > elts.len() {
        Seq::empty()
    } else if n == 1 {
        annotation_text(elts[0])
    } else {
        joined_annotations(elts, n - 1) + ", "@ + annotation_text(elts[n - 1])
    }
}

/// The literal that an expression stands for as a default or a bound
/// argument. An integer too large for 64 bits, a float that JSON cannot hold
/// and a complex number become strings; an expression that is no literal
/// becomes the name it spells, or `<unknown>`.
pub open spec fn literal_of(e: Expr) -> LiteralView {
    match e {
        Expr::StringLiteral { value } => LiteralView::Str(value@),
        Expr::NumberLiteral { value } => match value {
            Number::Int { value, text } => match value {
                Some(i) => LiteralView::Int(i),
                None => LiteralView::Str(text@),
            },
            Number::Float { bits, text, json } => match json {
                Some(j) => LiteralView::Float { bits, text: j@ },
                None => LiteralView::Str(text@),
            },
            Number::Complex { re, im } => LiteralView::Str(number_text(value)),
        },
        Expr::BooleanLiteral { value } => LiteralView::Bool(value),
        Expr::NoneLiteral => LiteralView::Null,
        _ => match name_of(e) {
            Some(name) => LiteralView::Str(name),
            None => LiteralView::Str("<unknown>"@),
        },
    }
}

/// The callee names in an expression, added to `acc` in order of appearance.
///
/// A call contributes its callee name, then what its callee expression and
/// its positional arguments hold; attribute bases, operands of binary
/// operators and elements of lists and tuples are searched too.
pub open spec fn calls_in_expr(e: Expr, acc: Seq<Seq<char>>) -> Seq<Seq<char>>
    decreases e, 0nat,
{
    match e {
        Expr::Call { func, args, keywords } => {
            let named = match name_of(*func) {
                Some(name) => insert_distinct(acc, name),
                None => acc,
            };
            calls_in_exprs(args@, 0, calls_in_expr(*func, named))
        },
        Expr::Attribute { value, attr } => calls_in_expr(*value, acc),
        Expr::BinOp { left, right } => calls_in_expr(*right, calls_in_expr(*left, acc)),
        Expr::List { elts } => calls_in_exprs(elts@, 0, acc),
        Expr::Tuple { elts } => calls_in_exprs(elts@, 0, acc),
        _ => acc,
    }
}

/// The callee names in the expressions from position `from` on.
pub open spec fn calls_in_exprs(es: Seq<Expr>, from: int, acc: Seq<Seq<char>>) -> Seq<Seq<char>>
    decreases es, es.len() - from,
{
    if from < 0 || from >= es.len() {
        acc
    } else {
        calls_in_exprs(es, from + 1, calls_in_expr(es[from], acc))
    }
}

/// The text of a literal default when it is used as a component name.
pub open spec fn literal_text(value: LiteralView) -> Seq<char> {
    match value {
        LiteralView::Null => "null"@,
        LiteralView::Bool(b) => if b {
            "true"@
        } else {
            "false"@
        },
        LiteralView::Int(i) => decimal(i as int),
        LiteralView::Float { bits, text } => trim_char(text, '"'),
        LiteralView::Str(s) => s,
    }
}

/// The component that a parameter default names: a string default is the
/// name; any other default is looked up by its text among the module's
/// constants and taken as it is when it is none of them.
pub open spec fn component_of_default(value: LiteralView, constants: Map<Seq<char>, Seq<char>>)
    -> Seq<char> {
    match value {
        LiteralView::Str(s) => s,
        _ => if constants.contains_key(literal_text(value)) {
            constants[literal_text(value)]
        } else {
            literal_text(value)
        },
    }
}

/// The component that the argument of `get_component` names: a string
/// literal is the name; a name is resolved through the parameter defaults of
/// the function, then through the constants of the module, and else stands
/// for itself; anything else is `unknown`.
pub open spec fn component_argument(
    arg: Expr,
    defaults: Map<Seq<char>, LiteralView>,
    constants: Map<Seq<char>, Seq<char>>,
) -> Seq<char> {
    match arg {
        Expr::StringLiteral { value } => value@,
        _ => match name_of(arg) {
            Some(name) => if defaults.contains_key(name) {
                component_of_default(defaults[name], constants)
            } else if constants.contains_key(name) {
                constants[name]
            } else {
                name
            },
            None => "unknown"@,
        },
    }
}

/// Whether a callee name is that of the component lookup.
pub open spec fn is_get_component(name: Seq<char>) -> bool {
    name == "gf.get_component"@ || name == "get_component"@
}

/// The component references in an expression, added to `acc` in order of
/// appearance; the expression is searched as for callee names.
pub open spec fn gets_in_expr(
    e: Expr,
    acc: Seq<Seq<char>>,
    defaults: Map<Seq<char>, LiteralView>,
    constants: Map<Seq<char>, Seq<char>>,
) -> Seq<Seq<char>>
    decreases e, 0nat,
{
    match e {
        Expr::Call { func, args, keywords } => {
            let found = match name_of(*func) {
                Some(name) => if is_get_component(name) && args@.len() > 0 {
                    insert_distinct(acc, component_argument(args@[0], defaults, constants))
                } else {
                    acc
                },
                None => acc,
            };
            gets_in_exprs(
                args@,
                0,
                gets_in_expr(*func, found, defaults, constants),
                defaults,
                constants,
            )
        },
        Expr::Attribute { value, attr } => gets_in_expr(*value, acc, defaults, constants),
        Expr::BinOp { left, right } => gets_in_expr(
            *right,
            gets_in_expr(*left, acc, defaults, constants),
            defaults,
            constants,
        ),
        Expr::List { elts } => gets_in_exprs(elts@, 0, acc, defaults, constants),
        Expr::Tuple { elts } => gets_in_exprs(elts@, 0, acc, defaults, constants),
        _ => acc,
    }
}

/// The component references in the expressions from position `from` on.
pub open spec fn gets_in_exprs(
    es: Seq<Expr>,
    from: int,
    acc: Seq<Seq<char>>,
    defaults: Map<Seq<char>, LiteralView>,
    constants: Map<Seq<char>, Seq<char>>,
) -> Seq<Seq<char>>
    decreases es, es.len() - from,
{
    if from < 0 || from >= es.len() {
        acc
    } else {
        gets_in_exprs(
            es,
            from + 1,
            gets_in_expr(es[from], acc, defaults, constants),
            defaults,
            constants,
        )
    }
}

/// The name under which a decorator is recorded: the dotted name of a bare
/// decorator, the dotted name followed by `(...)` for a decorator written as
/// a call, nothing for any other expression.
pub open spec fn decorator_name(e: Expr) -> Option<Seq<char>> {
    match e {
        Expr::Name { id } => name_of(e),
        Expr::Attribute { value, attr } => name_of(e),
        Expr::Call { func, args, keywords } => match name_of(*func) {
            Some(name) => Some(name + "(...)"@),
            None => None,
        },
        _ => None,
    }
}

/// The decorator names of the expressions from position `from` on, added to
/// `acc`.
pub open spec fn decorators_from(es: Seq<Expr>, from: int, acc: Seq<Seq<char>>) -> Seq<Seq<char>>
    decreases es.len() - from,
{
    if from < 0 || from >= es.len() {
        acc
    } else {
        decorators_from(
            es,
            from + 1,
            match decorator_name(es[from]) {
                Some(name) => insert_distinct(acc, name),
                None => acc,
            },
        )
    }
}

/// The defaults of the parameters from position `from` on, added to `acc`.
pub open spec fn defaults_from(
    params: Seq<Parameter>,
    from: int,
    acc: Map<Seq<char>, LiteralView>,
) -> Map<Seq<char>, LiteralView>
    decreases params.len() - from,
{
    if from < 0 || from >= params.len() {
        acc
    } else {
        defaults_from(
            params,
            from + 1,
            match params[from].default {
                Some(e) => acc.insert(params[from].name@, literal_of(e)),
                None => acc,
            },
        )
    }
}

/// The literal defaults of a parameter list: those of the positional
/// parameters, then those of the keyword-only parameters.
pub open spec fn parameter_defaults(args: Seq<Parameter>, kwonlyargs: Seq<Parameter>) -> Map<
    Seq<char>,
    LiteralView,
> {
    defaults_from(kwonlyargs, 0, defaults_from(args, 0, Map::empty()))
}

/// The bare names among the expressions from position `from` on.
pub open spec fn names_from(es: Seq<Expr>, from: int) -> Seq<Seq<char>>
    decreases es.len() - from,
{
    if from < 0 || from >= es.len() {
        Seq::empty()
    } else {
        match es[from] {
            Expr::Name { id } => seq![id@] + names_from(es, from + 1),
            _ => names_from(es, from + 1),
        }
    }
}

/// The names that an assignment target binds: the name itself, or the bare
/// names in a tuple or list; `None` when there is none.
pub open spec fn target_names(target: Expr) -> Option<Seq<Seq<char>>> {
    match target {
        Expr::Name { id } => Some(seq![id@]),
        Expr::Tuple { elts } => if names_from(elts@, 0).len() == 0 {
            None
        } else {
            Some(names_from(elts@, 0))
        },
        Expr::List { elts } => if names_from(elts@, 0).len() == 0 {
            None
        } else {
            Some(names_from(elts@, 0))
        },
        _ => None,
    }
}

/// The literals of the expressions from position `from` on.
pub open spec fn literals_from(es: Seq<Expr>, from: int) -> Seq<LiteralView>
    decreases es.len() - from,
{
    if from < 0 || from >= es.len() {
        Seq::empty()
    } else {
        seq![literal_of(es[from])] + literals_from(es, from + 1)
    }
}

/// The named keyword arguments from position `from` on as literals, added to
/// `acc`.
pub open spec fn keywords_from(
    keywords: Seq<Keyword>,
    from: int,
    acc: Map<Seq<char>, LiteralView>,
) -> Map<Seq<char>, LiteralView>
    decreases keywords.len() - from,
{
    if from < 0 || from >= keywords.len() {
        acc
    } else {
        keywords_from(
            keywords,
            from + 1,
            match keywords[from].arg {
                Some(name) => acc.insert(name@, literal_of(keywords[from].value)),
                None => acc,
            },
        )
    }
}

/// The dotted name that an expression spells (see `name_of`).
pub fn get_function_name(expr: &Expr) -> (r: Option<String>)
    ensures
        crate::schema::option_view(r) == name_of(*expr),
    decreases expr,
{
    match expr {
        Expr::Name { id } => Some(id.clone()),
        Expr::Attribute { value, attr } => {
            match get_function_name(value) {
                Some(base) => Some(dot_join(base.as_str(), attr.as_str())),
                None => Some(attr.clone()),
            }
        },
        _ => None,
    }
}

/// The name that a variable expression spells: a bare name or an attribute
/// chain.
pub fn get_variable_name(expr: &Expr) -> (r: Option<String>)
    ensures
        crate::schema::option_view(r) == name_of(*expr),
{
    get_function_name(expr)
}

/// The value of a string literal.
pub fn get_string_literal(expr: &Expr) -> (r: Option<String>)
    ensures
        crate::schema::option_view(r) == (match *expr {
            Expr::StringLiteral { value } => Some(value@),
            _ => None,
        }),
{
    match expr {
        Expr::StringLiteral { value } => Some(value.clone()),
        _ => None,
    }
}

fn number_to_string(n: &Number) -> (r: String)
    ensures
        r@ == number_text(*n),
{
    match n {
        Number::Int { value, text } => text.clone(),
        Number::Float { bits, text, json } => text.clone(),
        Number::Complex { re, im } => {
            let mut out = "(".to_owned();
            out.append(re.as_str());
            out.append("+");
            out.append(im.as_str());
            out.append("j)");
            out
        },
    }
}

/// The text of a type annotation (see `annotation_text`).
pub fn expr_to_string(expr: &Expr) -> (r: String)
    ensures
        r@ == annotation_text(*expr),
    decreases expr, 0nat,
{
    match expr {
        Expr::Name { id } => id.clone(),
        Expr::Attribute { value, attr } => {
            let base = expr_to_string(value);
            dot_join(base.as_str(), attr.as_str())
        },
        Expr::Subscript { value, slice } => {
            let mut out = expr_to_string(value);
            let inner = expr_to_string(slice);
            out.append("[");
            out.append(inner.as_str());
            out.append("]");
            out
        },
        Expr::Tuple { elts } => {
            let mut out = "(".to_owned();
            let inner = join_annotations(elts);
            out.append(inner.as_str());
            out.append(")");
            out
        },
        Expr::List { elts } => {
            let mut out = "[".to_owned();
            let inner = join_annotations(elts);
            out.append(inner.as_str());
            out.append("]");
            out
        },
        Expr::StringLiteral { value } => {
            let mut out = "\"".to_owned();
            out.append(value.as_str());
            out.append("\"");
            out
        },
        Expr::NumberLiteral { value } => number_to_string(value),
        Expr::BooleanLiteral { value } => {
            if *value {
                "true".to_owned()
            } else {
                "false".to_owned()
            }
        },
        Expr::BinOp { left, right } => {
            let mut out = expr_to_string(left);
            let rhs = expr_to_string(right);
            out.append(" | ");
            out.append(rhs.as_str());
            out
        },
        _ => "<unknown>".to_owned(),
    }
}

fn join_annotations(elts: &Vec<Expr>) -> (r: String)
    ensures
        r@ == joined_annotations(elts@, elts@.len() as int),
    decreases elts, 1nat,
{
    let mut out = String::new();
    let mut i: usize = 0;
    while i < elts.len()
        invariant
            i <= elts.len(),
            out@ == joined_annotations(elts@, i as int),
        decreases elts.len() - i,
    {
        let text = expr_to_string(&elts[i]);
        if i > 0 {
            out.append(", ");
        }
        out.append(text.as_str());
        i += 1;
    }
    out
}

/// The text of the return annotation, if there is one.
pub fn extract_return_annotation(returns: &Option<Expr>) -> (r: Option<String>)
    ensures
        crate::schema::option_view(r) == (match *returns {
            Some(e) => Some(annotation_text(e)),
            None => None,
        }),
{
    match returns {
        Some(e) => Some(expr_to_string(e)),
        None => None,
    }
}

/// The literal that an expression stands for (see `literal_of`).
pub fn expr_to_json_value(expr: &Expr) -> (r: Literal)
    ensures
        r@ == literal_of(*expr),
{
    match expr {
        Expr::StringLiteral { value } => Literal::Str(value.clone()),
        Expr::NumberLiteral { value } => {
            match value {
                Number::Int { value, text } => {
                    match value {
                        Some(i) => Literal::Int(*i),
                        None => Literal::Str(text.clone()),
                    }
                },
                Number::Float { bits, text, json } => {
                    match json {
                        Some(j) => Literal::Float { bits: *bits, text: j.clone() },
                        None => Literal::Str(text.clone()),
                    }
                },
                Number::Complex { re, im } => Literal::Str(number_to_string(value)),
            }
        },
        Expr::BooleanLiteral { value } => Literal::Bool(*value),
        Expr::NoneLiteral => Literal::Null,
        _ => {
            match get_variable_name(expr) {
                Some(name) => Literal::Str(name),
                None => Literal::Str("<unknown>".to_owned()),
            }
        },
    }
}

/// Adds the callee names in `expr` to `calls` (see `calls_in_expr`).
pub fn extract_calls_from_expr(expr: &Expr, calls: &mut IndexSet<String>)
    ensures
        set_items(*final(calls)) == calls_in_expr(*expr, set_items(*old(calls))),
    decreases expr, 0nat,
{
    match expr {
        Expr::Call { func, args, keywords } => {
            match get_function_name(func) {
                Some(name) => {
                    let _ = set_insert(calls, name);
                },
                None => {},
            }
            extract_calls_from_expr(func, calls);
            extract_calls_from_exprs(args, calls);
        },
        Expr::Attribute { value, attr } => {
            extract_calls_from_expr(value, calls);
        },
        Expr::BinOp { left, right } => {
            extract_calls_from_expr(left, calls);
            extract_calls_from_expr(right, calls);
        },
        Expr::List { elts } => {
            extract_calls_from_exprs(elts, calls);
        },
        Expr::Tuple { elts } => {
            extract_calls_from_exprs(elts, calls);
        },
        _ => {},
    }
}

fn extract_calls_from_exprs(exprs: &Vec<Expr>, calls: &mut IndexSet<String>)
    ensures
        set_items(*final(calls)) == calls_in_exprs(exprs@, 0, set_items(*old(calls))),
    decreases exprs, 1nat,
{
    let mut i: usize = 0;
    while i < exprs.len()
        invariant
            i <= exprs.len(),
            calls_in_exprs(exprs@, 0, set_items(*old(calls))) == calls_in_exprs(
                exprs@,
                i as int,
                set_items(*calls),
            ),
        decreases exprs.len() - i,
    {
        extract_calls_from_expr(&exprs[i], calls);
        i += 1;
    }
}

/// The text of a literal default when it is used as a component name.
fn literal_to_text(value: &Literal) -> (r: String)
    ensures
        r@ == literal_text(value@),
{
    match value {
        Literal::Null => "null".to_owned(),
        Literal::Bool(b) => {
            if *b {
                "true".to_owned()
            } else {
                "false".to_owned()
            }
        },
        Literal::Int(i) => int_text(*i),
        Literal::Float { bits, text } => trim_matches(text.as_str(), '"'),
        Literal::Str(s) => s.clone(),
    }
}

/// The component that a parameter default names (see
/// `component_of_default`).
pub fn resolve_component_argument_recursively(value: &Literal, constants: &StrMap<String>) -> (r:
    String)
    ensures
        r@ == component_of_default(value@, constants@),
{
    match value {
        Literal::Str(s) => s.clone(),
        _ => {
            let text = literal_to_text(value);
            match constants.get(text.as_str()) {
                Some(constant) => constant.clone(),
                None => text,
            }
        },
    }
}

/// The component that the argument of `get_component` names (see
/// `component_argument`).
pub fn resolve_component_argument(
    arg_expr: &Expr,
    defaults: &StrMap<Literal>,
    constants: &StrMap<String>,
) -> (r: String)
    ensures
        r@ == component_argument(*arg_expr, defaults@, constants@),
{
    match get_string_literal(arg_expr) {
        Some(literal) => {
            return literal;
        },
        None => {},
    }
    match get_variable_name(arg_expr) {
        Some(name) => {
            match defaults.get(name.as_str()) {
                Some(value) => {
                    return resolve_component_argument_recursively(value, constants);
                },
                None => {},
            }
            match constants.get(name.as_str()) {
                Some(constant) => {
                    return constant.clone();
                },
                None => {},
            }
            name
        },
        None => "unknown".to_owned(),
    }
}

/// Adds the component references in `expr` to `gets` (see `gets_in_expr`).
pub fn extract_component_gets_from_expr(
    expr: &Expr,
    gets: &mut IndexSet<String>,
    defaults: &StrMap<Literal>,
    constants: &StrMap<String>,
)
    ensures
        set_items(*final(gets)) == gets_in_expr(
            *expr,
            set_items(*old(gets)),
            defaults@,
            constants@,
        ),
    decreases expr, 0nat,
{
    match expr {
        Expr::Call { func, args, keywords } => {
            match get_function_name(func) {
                Some(name) => {
                    if (str_eq(name.as_str(), "gf.get_component") || str_eq(
                        name.as_str(),
                        "get_component",
                    )) && args.len() > 0 {
                        let component = resolve_component_argument(&args[0], defaults, constants);
                        let _ = set_insert(gets, component);
                    }
                },
                None => {},
            }
            extract_component_gets_from_expr(func, gets, defaults, constants);
            extract_component_gets_from_exprs(args, gets, defaults, constants);
        },
        Expr::Attribute { value, attr } => {
            extract_component_gets_from_expr(value, gets, defaults, constants);
        },
        Expr::BinOp { left, right } => {
            extract_component_gets_from_expr(left, gets, defaults, constants);
            extract_component_gets_from_expr(right, gets, defaults, constants);
        },
        Expr::List { elts } => {
            extract_component_gets_from_exprs(elts, gets, defaults, constants);
        },
        Expr::Tuple { elts } => {
            extract_component_gets_from_exprs(elts, gets, defaults, constants);
        },
        _ => {},
    }
}

fn extract_component_gets_from_exprs(
    exprs: &Vec<Expr>,
    gets: &mut IndexSet<String>,
    defaults: &StrMap<Literal>,
    constants: &StrMap<String>,
)
    ensures
        set_items(*final(gets)) == gets_in_exprs(
            exprs@,
            0,
            set_items(*old(gets)),
            defaults@,
            constants@,
        ),
    decreases exprs, 1nat,
{
    let mut i: usize = 0;
    while i < exprs.len()
        invariant
            i <= exprs.len(),
            gets_in_exprs(exprs@, 0, set_items(*old(gets)), defaults@, constants@) == gets_in_exprs(
                exprs@,
                i as int,
                set_items(*gets),
                defaults@,
                constants@,
            ),
        decreases exprs.len() - i,
    {
        extract_component_gets_from_expr(&exprs[i], gets, defaults, constants);
        i += 1;
    }
}

/// The name under which a decorator is recorded (see `decorator_name`).
pub fn get_decorator_name(decorator: &Expr) -> (r: Option<String>)
    ensures
        crate::schema::option_view(r) == decorator_name(*decorator),
{
    match decorator {
        Expr::Name { id } => get_function_name(decorator),
        Expr::Attribute { value, attr } => get_function_name(decorator),
        Expr::Call { func, args, keywords } => {
            match get_function_name(func) {
                Some(name) => Some(glue(name.as_str(), "(...)")),
                None => None,
            }
        },
        _ => None,
    }
}

/// The decorator names of a decorator list, in order.
pub fn extract_decorators(decorator_list: &Vec<Expr>) -> (r: IndexSet<String>)
    ensures
        set_items(r) == decorators_from(decorator_list@, 0, Seq::empty()),
{
    let mut out = crate::ordered::set_new();
    let mut i: usize = 0;
    while i < decorator_list.len()
        invariant
            i <= decorator_list.len(),
            decorators_from(decorator_list@, 0, Seq::empty()) == decorators_from(
                decorator_list@,
                i as int,
                set_items(out),
            ),
        decreases decorator_list.len() - i,
    {
        match get_decorator_name(&decorator_list[i]) {
            Some(name) => {
                let _ = set_insert(&mut out, name);
            },
            None => {},
        }
        i += 1;
    }
    out
}

fn add_defaults(params: &Vec<Parameter>, defaults: &mut StrMap<Literal>)
    ensures
        final(defaults)@ == defaults_from(params@, 0, old(defaults)@),
{
    let mut i: usize = 0;
    while i < params.len()
        invariant
            i <= params.len(),
            defaults_from(params@, 0, old(defaults)@) == defaults_from(
                params@,
                i as int,
                defaults@,
            ),
        decreases params.len() - i,
    {
        match &params[i].default {
            Some(e) => {
                let value = expr_to_json_value(e);
                defaults.insert(params[i].name.clone(), value);
            },
            None => {},
        }
        i += 1;
    }
}

/// The literal defaults of a parameter list (see `parameter_defaults`).
pub fn extract_parameter_defaults(args: &Vec<Parameter>, kwonlyargs: &Vec<Parameter>) -> (r:
    StrMap<Literal>)
    ensures
        r@ == parameter_defaults(args@, kwonlyargs@),
{
    let mut defaults = StrMap::new();
    add_defaults(args, &mut defaults);
    add_defaults(kwonlyargs, &mut defaults);
    defaults
}

fn bare_names(elts: &Vec<Expr>) -> (r: Vec<String>)
    ensures
        crate::text::views(r@) == names_from(elts@, 0),
{
    let mut names: Vec<String> = Vec::new();
    let mut i: usize = 0;
    proof {
        assert(crate::text::views(names@) =~= Seq::empty());
        assert(crate::text::views(names@) + names_from(elts@, 0) =~= names_from(elts@, 0));
    }
    while i < elts.len()
        invariant
            i <= elts.len(),
            names_from(elts@, 0) == crate::text::views(names@) + names_from(elts@, i as int),
        decreases elts.len() - i,
    {
        match &elts[i] {
            Expr::Name { id } => {
                proof {
                    crate::text::lemma_views_push(names@, *id);
                    assert(crate::text::views(names@).push(id@) + names_from(elts@, i + 1)
                        =~= crate::text::views(names@) + (seq![id@] + names_from(elts@, i + 1)));
                }
                names.push(id.clone());
            },
            _ => {},
        }
        i += 1;
    }
    proof {
        assert(crate::text::views(names@) + names_from(elts@, elts@.len() as int)
            =~= crate::text::views(names@));
    }
    names
}

/// The names that an assignment target binds (see `target_names`).
pub fn extract_assignment_targets(target: &Expr) -> (r: Option<Vec<String>>)
    ensures
        match r {
            Some(names) => Some(crate::text::views(names@)) == target_names(*target),
            None => target_names(*target) is None,
        },
{
    match target {
        Expr::Name { id } => {
            let names = vec![id.clone()];
            proof {
                assert(crate::text::views(names@) =~= seq![id@]);
            }
            Some(names)
        },
        Expr::Tuple { elts } => {
            let names = bare_names(elts);
            if names.len() == 0 {
                None
            } else {
                Some(names)
            }
        },
        Expr::List { elts } => {
            let names = bare_names(elts);
            if names.len() == 0 {
                None
            } else {
                Some(names)
            }
        },
        _ => None,
    }
}

/// The literals of the expressions from position `from` on.
pub fn literals_of(exprs: &Vec<Expr>, from: usize) -> (r: Vec<Literal>)
    ensures
        literal_views(r@) == literals_from(exprs@, from as int),
{
    let mut out: Vec<Literal> = Vec::new();
    let mut i: usize = from;
    proof {
        assert(literal_views(out@) + literals_from(exprs@, from as int) =~= literals_from(
            exprs@,
            from as int,
        ));
    }
    while i < exprs.len()
        invariant
            from <= i,
            literals_from(exprs@, from as int) == literal_views(out@) + literals_from(
                exprs@,
                i as int,
            ),
        decreases exprs.len() - i,
    {
        let value = expr_to_json_value(&exprs[i]);
        proof {
            assert(literal_views(out@.push(value)) =~= literal_views(out@).push(value@));
            assert(literal_views(out@).push(value@) + literals_from(exprs@, i + 1)
                =~= literal_views(out@) + (seq![value@] + literals_from(exprs@, i + 1)));
        }
        out.push(value);
        i += 1;
    }
    proof {
        assert(literal_views(out@) + literals_from(exprs@, i as int) =~= literal_views(out@));
    }
    out
}

/// The named keyword arguments as literals.
pub fn keyword_literals(keywords: &Vec<Keyword>) -> (r: StrMap<Literal>)
    ensures
        r@ == keywords_from(keywords@, 0, Map::empty()),
{
    let mut out = StrMap::new();
    let mut i: usize = 0;
    while i < keywords.len()
        invariant
            i <= keywords.len(),
            keywords_from(keywords@, 0, Map::empty()) == keywords_from(keywords@, i as int, out@),
        decreases keywords.len() - i,
    {
        match &keywords[i].arg {
            Some(name) => {
                let value = expr_to_json_value(&keywords[i].value);
                out.insert(name.clone(), value);
            },
            None => {},
        }
        i += 1;
    }
    out
}

} // verus!
