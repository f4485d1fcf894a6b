//! Declarative instance files.
//!
//! A `.pic.yml` file is a YAML mapping with an `instances` mapping; each
//! instance may name a `component`. The file becomes one pseudo-function
//! whose raw calls are the components named.

use crate::analyzer::FileAnalyzer;
use crate::builder::{relative_path, strip_root, trim_suffix, under_prefix, BuilderView, CallGraphBuilder, PATH_SEPARATOR};
use crate::ordered::{insert_distinct, set_insert, set_items, set_new};
use crate::schema::{FunctionInfo, FunctionView};
use crate::text::{
    dot_join, join_first, replace, replace_all, replace_char, split_on, str_eq, views,
    without_suffix,
};
use indexmap::IndexSet;
use vstd::prelude::*;

verus! {

/// A YAML value.
#[derive(Debug, PartialEq)]
pub enum YamlValue {
    Null,
    Bool(bool),
    /// A number, as its YAML text.
    Number(String),
    String(String),
    Sequence(Vec<YamlValue>),
    /// The entries of a mapping, in document order.
    Mapping(Vec<(YamlValue, YamlValue)>),
    Tagged { tag: String, value: Box<YamlValue> },
}

/// `serde_yaml::Value`, as an opaque type.
#[verifier::external_type_specification]
#[verifier::external_body]
pub struct ExYamlDocument(serde_yaml::Value);

/// `serde_yaml::Error`, as an opaque type.
#[verifier::external_type_specification]
#[verifier::external_body]
pub struct ExYamlError(serde_yaml::Error);

/// What parsing a YAML text gives: its value, or the message of the failure.
pub uninterp spec fn yaml_parse(text: Seq<char>) -> Result<YamlValue, Seq<char>>;

/// What a parsed YAML document holds.
pub uninterp spec fn yaml_contents(v: serde_yaml::Value) -> YamlValue;

/// The message of a parse failure.
pub uninterp spec fn yaml_error_text(e: serde_yaml::Error) -> Seq<char>;

/// What `Path::file_stem` makes of a path: the file name without its last
/// extension, empty for a path without a file name.
pub uninterp spec fn path_file_stem(path: Seq<char>) -> Seq<char>;

/// `serde_yaml::from_str` for a whole document. The outcome depends on the
/// text alone and is named `yaml_parse`; nothing else is claimed of it.
#[verifier::external_body]
fn yaml_from_str(content: &str) -> (r: Result<serde_yaml::Value, serde_yaml::Error>)
    ensures
        match r {
            Ok(v) => yaml_parse(content@) == Ok::<YamlValue, Seq<char>>(yaml_contents(v)),
            Err(e) => yaml_parse(content@) == Err::<YamlValue, Seq<char>>(yaml_error_text(e)),
        },
{
    serde_yaml::from_str::<serde_yaml::Value>(content)
}

/// Takes a `serde_yaml::Value` apart, variant by variant, into a `YamlValue`
/// with the same contents. A number is kept as the text that its `Display`
/// gives, a tag likewise.
#[verifier::external_body]
fn yaml_tree(v: serde_yaml::Value) -> (r: YamlValue)
    ensures
        r == yaml_contents(v),
{
    match v {
        serde_yaml::Value::Null => YamlValue::Null,
        serde_yaml::Value::Bool(b) => YamlValue::Bool(b),
        serde_yaml::Value::Number(n) => YamlValue::Number(n.to_string()),
        serde_yaml::Value::String(s) => YamlValue::String(s),
        serde_yaml::Value::Sequence(s) => YamlValue::Sequence(s.into_iter().map(yaml_tree).collect()),
        serde_yaml::Value::Mapping(m) => YamlValue::Mapping(
            m.into_iter().map(|(k, v)| (yaml_tree(k), yaml_tree(v))).collect(),
        ),
        serde_yaml::Value::Tagged(t) => YamlValue::Tagged {
            tag: t.tag.to_string(),
            value: Box::new(yaml_tree(t.value)),
        },
    }
}

/// The `Display` text of a `serde_yaml::Error`.
#[verifier::external_body]
fn yaml_error_message(e: &serde_yaml::Error) -> (r: String)
    ensures
        r@ == yaml_error_text(*e),
{
    e.to_string()
}

/// `std::path::Path::file_stem` on a path given as text, empty where the
/// path has no file name. The result is a function of the path alone and is
/// named `path_file_stem`; nothing else is claimed of it.
#[verifier::external_body]
fn file_stem(file_path: &str) -> (r: String)
    ensures
        r@ == path_file_stem(file_path@),
{
    std::path::Path::new(file_path).file_stem().and_then(|n| n.to_str()).unwrap_or("").to_string()
}

/// Parses a YAML document.
pub fn parse_yaml(content: &str) -> (r: Result<YamlValue, String>)
    ensures
        match r {
            Ok(v) => yaml_parse(content@) == Ok::<YamlValue, Seq<char>>(v),
            Err(e) => yaml_parse(content@) == Err::<YamlValue, Seq<char>>(e@),
        },
{
    match yaml_from_str(content) {
        Ok(v) => Ok(yaml_tree(v)),
        Err(e) => Err(yaml_error_message(&e)),
    }
}

/// A value without the tags around it.
pub open spec fn untagged(v: YamlValue) -> YamlValue
    decreases v,
{
    match v {
        YamlValue::Tagged { tag, value } => untagged(*value),
        _ => v,
    }
}

/// The value of the first entry, from position `from` on, whose key is the
/// string `key`.
pub open spec fn entry_for(entries: Seq<(YamlValue, YamlValue)>, key: Seq<char>, from: int)
    -> Option<YamlValue>
    decreases entries.len() - from,
{
    if from < 0 || from >= entries.len() {
        None
    } else {
        match entries[from].0 {
            YamlValue::String(s) => if s@ == key {
                Some(entries[from].1)
            } else {
                entry_for(entries, key, from + 1)
            },
            _ => entry_for(entries, key, from + 1),
        }
    }
}

/// The value stored under the string `key` when `v` is a mapping.
pub open spec fn member(v: YamlValue, key: Seq<char>) -> Option<YamlValue> {
    match untagged(v) {
        YamlValue::Mapping(entries) => entry_for(entries@, key, 0),
        _ => None,
    }
}

/// The text of a value that is a string.
pub open spec fn text_of(v: YamlValue) -> Option<Seq<char>> {
    match untagged(v) {
        YamlValue::String(s) => Some(s@),
        _ => None,
    }
}

/// The component that an instance names, if it names one by a string.
pub open spec fn component_of(instance: YamlValue) -> Option<Seq<char>> {
    match member(instance, "component"@) {
        Some(c) => text_of(c),
        None => None,
    }
}

/// The components named by the instances from position `from` on, added to
/// `acc`.
pub open spec fn components_from(
    entries: Seq<(YamlValue, YamlValue)>,
    from: int,
    acc: Seq<Seq<char>>,
) -> Seq<Seq<char>>
    decreases entries.len() - from,
{
    if from < 0 || from >= entries.len() {
        acc
    } else {
        components_from(
            entries,
            from + 1,
            match component_of(entries[from].1) {
                Some(name) => insert_distinct(acc, name),
                None => acc,
            },
        )
    }
}

/// The components that the instances of a document name, in document order
/// and each once.
pub open spec fn instance_components(doc: YamlValue) -> Seq<Seq<char>> {
    match member(doc, "instances"@) {
        Some(instances) => match untagged(instances) {
            YamlValue::Mapping(entries) => components_from(entries@, 0, Seq::empty()),
            _ => Seq::empty(),
        },
        None => Seq::empty(),
    }
}

fn untag(v: &YamlValue) -> (r: &YamlValue)
    ensures
        *r == untagged(*v),
    decreases v,
{
    match v {
        YamlValue::Tagged { tag, value } => untag(value),
        _ => v,
    }
}

fn get_member<'a>(v: &'a YamlValue, key: &str) -> (r: Option<&'a YamlValue>)
    ensures
        match r {
            Some(found) => member(*v, key@) == Some(*found),
            None => member(*v, key@) is None,
        },
{
    match untag(v) {
        YamlValue::Mapping(entries) => {
            let mut i: usize = 0;
            while i < entries.len()
                invariant
                    i <= entries.len(),
                    member(*v, key@) == entry_for(entries@, key@, 0),
                    entry_for(entries@, key@, 0) == entry_for(entries@, key@, i as int),
                decreases entries.len() - i,
            {
                match &entries[i].0 {
                    YamlValue::String(s) => {
                        if str_eq(s.as_str(), key) {
                            return Some(&entries[i].1);
                        }
                    },
                    _ => {},
                }
                i += 1;
            }
            None
        },
        _ => None,
    }
}

/// The components that the instances of a document name (see
/// `instance_components`).
pub fn extract_instance_components(doc: &YamlValue) -> (r: IndexSet<String>)
    ensures
        set_items(r) == instance_components(*doc),
{
    let mut calls = set_new();
    match get_member(doc, "instances") {
        Some(instances) => {
            match untag(instances) {
                YamlValue::Mapping(entries) => {
                    let mut i: usize = 0;
                    while i < entries.len()
                        invariant
                            i <= entries.len(),
                            instance_components(*doc) == components_from(
                                entries@,
                                0,
                                Seq::empty(),
                            ),
                            components_from(entries@, 0, Seq::empty()) == components_from(
                                entries@,
                                i as int,
                                set_items(calls),
                            ),
                        decreases entries.len() - i,
                    {
                        match get_member(&entries[i].1, "component") {
                            Some(component) => {
                                match untag(component) {
                                    YamlValue::String(name) => {
                                        let _ = set_insert(&mut calls, name.clone());
                                    },
                                    _ => {},
                                }
                            },
                            None => {},
                        }
                        i += 1;
                    }
                },
                _ => {},
            }
        },
        None => {},
    }
    calls
}

/// The module name of an instance file at `relative` below its library
/// root: separators become dots, `.pic.yml` becomes `_picyml`, and the
/// root's prefix comes in front.
pub open spec fn yaml_module_of_relative(relative: Seq<char>, prefix: Seq<char>) -> Seq<char> {
    under_prefix(
        prefix,
        replace_all(replace_char(relative, PATH_SEPARATOR, '.'), ".pic.yml"@, "_picyml"@),
    )
}

/// The module name of an instance file: that of its path relative to the
/// root, or the path itself when the file does not lie below the root.
pub open spec fn yaml_module_of(
    relative: Option<Seq<char>>,
    file_path: Seq<char>,
    prefix: Seq<char>,
) -> Seq<char> {
    match relative {
        Some(rel) => yaml_module_of_relative(rel, prefix),
        None => file_path,
    }
}

/// The module name for a path relative to a library root, when there is one,
/// and for the file path itself otherwise.
pub fn yaml_module_from_relative(relative: Option<&str>, file_path: &str, prefix: &str) -> (r:
    String)
    ensures
        r@ == yaml_module_of(
            match relative {
                Some(rel) => Some(rel@),
                None => None,
            },
            file_path@,
            prefix@,
        ),
{
    let rel = match relative {
        Some(rel) => rel,
        None => {
            return file_path.to_owned();
        },
    };
    proof {
        reveal_strlit(".");
        assert("."@ =~= seq!['.']);
        crate::text::lemma_join_split_replaces(rel@, PATH_SEPARATOR, '.');
    }
    let pieces = split_on(rel, PATH_SEPARATOR);
    let dotted_path = join_first(&pieces, pieces.len(), ".");
    proof {
        assert(views(pieces@).take(pieces.len() as int) =~= views(pieces@));
    }
    let dotted_module = replace(dotted_path.as_str(), ".pic.yml", "_picyml");
    if dotted_module.as_str().unicode_len() == 0 {
        prefix.to_owned()
    } else {
        dot_join(prefix, dotted_module.as_str())
    }
}

/// The dotted module name of an instance file below a library root.
pub fn derive_yaml_module(file_path: &str, lib_root: &str, prefix: &str) -> (r: String)
    ensures
        r@ == yaml_module_of(relative_path(file_path@, lib_root@), file_path@, prefix@),
{
    match strip_root(file_path, lib_root) {
        Some(rel) => yaml_module_from_relative(Some(rel.as_str()), file_path, prefix),
        None => yaml_module_from_relative(None, file_path, prefix),
    }
}

/// The record of the pseudo-function that an instance file makes.
pub open spec fn yaml_record(name: Seq<char>, module: Seq<char>, calls: Seq<Seq<char>>)
    -> FunctionView {
    FunctionView {
        name,
        module,
        line: 1,
        calls,
        decorators: seq!["yaml"@],
        resolved_calls: Seq::empty(),
        resolved_decorators: Seq::empty(),
        parameter_defaults: Map::empty(),
        component_gets: Seq::empty(),
        resolved_component_gets: Seq::empty(),
        is_partial: false,
        return_annotation: None,
        resolved_return_annotation: None,
    }
}

/// The message for an instance file that is no valid YAML.
pub open spec fn yaml_failure(file_path: Seq<char>, error: Seq<char>) -> Seq<char> {
    "Failed to parse YAML file "@ + file_path + ": "@ + error
}

/// What an instance file adds: its pseudo-function, under its module, with
/// the components named as raw calls; for a file that is no valid YAML, the
/// pseudo-function without calls and the failure among the module's errors.
pub open spec fn record_yaml(
    b: BuilderView,
    file_path: Seq<char>,
    module: Seq<char>,
    name: Seq<char>,
    parsed: Result<YamlValue, Seq<char>>,
) -> BuilderView {
    match parsed {
        Ok(doc) => b.add_function(module, name).push_function(
            yaml_record(name, module, instance_components(doc)),
        ),
        Err(e) => b.add_function(module, name).add_error(
            module,
            yaml_failure(file_path, e),
        ).push_function(yaml_record(name, module, Seq::empty())),
    }
}

/// A file that is no valid YAML is still recorded: its module holds an
/// error, and its pseudo-function is the last record of the list and has no
/// calls.
pub proof fn lemma_malformed_yaml_is_recorded(
    b: BuilderView,
    file_path: Seq<char>,
    module: Seq<char>,
    name: Seq<char>,
    error: Seq<char>,
)
    ensures
        ({
            let after = record_yaml(b, file_path, module, name, Err(error));
            &&& after.modules.contains_key(module)
            &&& after.modules[module].errors.len() > 0
            &&& after.modules[module].errors.contains(yaml_failure(file_path, error))
            &&& after.modules[module].functions.contains(name)
            &&& after.functions.len() == b.functions.len() + 1
            &&& after.functions.last().name == name
            &&& after.functions.last().module == module
            &&& after.functions.last().calls.len() == 0
        }),
{
    let named = b.add_function(module, name);
    let m = named.module(module);
    let message = yaml_failure(file_path, error);
    let functions = insert_distinct(b.module(module).functions, name);
    if b.module(module).functions.contains(name) {
    } else {
        assert(functions.last() == name);
    }
    assert(m.functions == functions);
    let errors = insert_distinct(m.errors, message);
    if m.errors.contains(message) {
    } else {
        assert(errors.last() == message);
    }
}

/// The name of the pseudo-function of an instance file: the file's stem
/// without a trailing `.pic`.
pub open spec fn yaml_function_name(file_path: Seq<char>) -> Seq<char> {
    trim_suffix(path_file_stem(file_path), ".pic"@)
}

/// The model of a parse outcome.
pub open spec fn parsed_view(parsed: Result<YamlValue, String>) -> Result<YamlValue, Seq<char>> {
    match parsed {
        Ok(v) => Ok(v),
        Err(e) => Err(e@),
    }
}

/// Records the outcome of parsing one instance file (see `record_yaml`).
/// The call fails exactly when parsing failed, with the message that went
/// into the module's errors.
pub fn record_yaml_document(
    builder: &mut CallGraphBuilder,
    file_path: &str,
    module_name: &str,
    func_name: &str,
    parsed: &Result<YamlValue, String>,
) -> (r: Result<(), String>)
    ensures
        final(builder)@ == record_yaml(
            old(builder)@,
            file_path@,
            module_name@,
            func_name@,
            parsed_view(*parsed),
        ),
        match r {
            Ok(_) => *parsed is Ok,
            Err(message) => *parsed matches Err(e) && message@ == yaml_failure(file_path@, e@),
        },
{
    let mut record = FunctionInfo::new(func_name.to_owned(), module_name.to_owned(), 1);
    proof {
        assert(Seq::<Seq<char>>::empty().push("yaml"@) =~= seq!["yaml"@]);
    }
    let _ = set_insert(&mut record.decorators, "yaml".to_owned());
    match parsed {
        Ok(doc) => {
            record.calls = extract_instance_components(doc);
            builder.add_function_to_module(module_name, func_name);
            builder.push_function(record);
            Ok(())
        },
        Err(e) => {
            let mut message = "Failed to parse YAML file ".to_owned();
            message.append(file_path);
            message.append(": ");
            message.append(e.as_str());
            builder.add_function_to_module(module_name, func_name);
            builder.add_error_to_module(module_name, message.as_str());
            builder.push_function(record);
            Err(message)
        },
    }
}

/// The analyzer of declarative instance files; its source is the text of the
/// file.
pub struct YamlAnalyzer;

impl FileAnalyzer for YamlAnalyzer {
    type Source = String;

    open spec fn extended(
        b: BuilderView,
        file_path: Seq<char>,
        lib_root: Seq<char>,
        prefix: Seq<char>,
        source: String,
    ) -> BuilderView {
        record_yaml(
            b,
            file_path,
            yaml_module_of(relative_path(file_path, lib_root), file_path, prefix),
            yaml_function_name(file_path),
            yaml_parse(source@),
        )
    }

    open spec fn failure(file_path: Seq<char>, source: String) -> Option<Seq<char>> {
        match yaml_parse(source@) {
            Ok(doc) => None,
            Err(e) => Some(yaml_failure(file_path, e)),
        }
    }

    fn analyze_file(
        builder: &mut CallGraphBuilder,
        file_path: &str,
        lib_root: &str,
        prefix: &str,
        source: &String,
    ) -> (r: Result<(), String>) {
        let stem = file_stem(file_path);
        let func_name = match without_suffix(stem.as_str(), ".pic") {
            Some(s) => s,
            None => stem,
        };
        let module_name = derive_yaml_module(file_path, lib_root, prefix);
        let parsed = parse_yaml(source.as_str());
        record_yaml_document(
            builder,
            file_path,
            module_name.as_str(),
            func_name.as_str(),
            &parsed,
        )
    }
}

} // verus!
