use callgraph::analyzer::FileAnalyzer;
use callgraph::builder::CallGraphBuilder;
use callgraph::yaml::{
    extract_instance_components, parse_yaml, record_yaml_document, YamlAnalyzer, YamlValue,
};
use indexmap::IndexMap;

fn string(s: &str) -> YamlValue {
    YamlValue::String(s.to_string())
}

fn mapping(entries: Vec<(&str, YamlValue)>) -> YamlValue {
    YamlValue::Mapping(entries.into_iter().map(|(k, v)| (string(k), v)).collect())
}

#[test]
fn yaml_text_becomes_a_tree() {
    let doc = parse_yaml("name: mzi\ncount: 3\nflag: true\nnothing: ~\nitems: [a, 1.5]\n").unwrap();
    let entries = match doc {
        YamlValue::Mapping(entries) => entries,
        _ => panic!("expected a mapping"),
    };
    assert_eq!(entries.len(), 5);
    assert!(matches!(&entries[0], (YamlValue::String(k), YamlValue::String(v)) if k == "name" && v == "mzi"));
    assert!(matches!(&entries[1], (YamlValue::String(k), YamlValue::Number(n)) if k == "count" && n == "3"));
    assert!(matches!(&entries[2], (_, YamlValue::Bool(true))));
    assert!(matches!(&entries[3], (_, YamlValue::Null)));
    match &entries[4].1 {
        YamlValue::Sequence(items) => {
            assert_eq!(items.len(), 2);
            assert!(matches!(&items[0], YamlValue::String(s) if s == "a"));
            assert!(matches!(&items[1], YamlValue::Number(n) if n == "1.5"));
        }
        _ => panic!("expected a sequence"),
    }
}

#[test]
fn tagged_values_keep_their_tag() {
    let doc = parse_yaml("!ring\ncomponent: r\n").unwrap();
    match doc {
        YamlValue::Tagged { tag, value } => {
            assert_eq!(tag, "!ring");
            assert!(matches!(*value, YamlValue::Mapping(_)));
        }
        _ => panic!("expected a tagged value"),
    }
}

#[test]
fn malformed_yaml_is_an_error_with_a_message() {
    let error = parse_yaml("instances: [unclosed\n").unwrap_err();
    assert!(!error.is_empty());
    assert!(parse_yaml("a: 1\na: 2\n").is_err());
}

#[test]
fn components_of_instances() {
    let text = "instances:\n  i1: {component: ring_double}\n  i2: {component: mzi, settings: {x: 1}}\n  i3: {settings: {}}\n  i4: {component: ring_double}\n  i5: {component: 7}\n  i6: plain\nroutes: {}\n";
    let doc = parse_yaml(text).unwrap();
    let calls = extract_instance_components(&doc);
    assert_eq!(calls.iter().collect::<Vec<_>>(), vec!["ring_double", "mzi"]);
}

#[test]
fn documents_without_instances_have_no_components() {
    for text in ["routes: {}\n", "instances: [a, b]\n", "instances: text\n", "- a\n- b\n", "", "3"] {
        let doc = parse_yaml(text).unwrap();
        assert!(extract_instance_components(&doc).is_empty(), "for {text:?}");
    }
}

#[test]
fn tags_around_instances_are_looked_through() {
    let doc = YamlValue::Tagged {
        tag: "!pic".to_string(),
        value: Box::new(mapping(vec![(
            "instances",
            YamlValue::Tagged {
                tag: "!set".to_string(),
                value: Box::new(mapping(vec![(
                    "i1",
                    mapping(vec![(
                        "component",
                        YamlValue::Tagged { tag: "!name".to_string(), value: Box::new(string("ring")) },
                    )]),
                )])),
            },
        )])),
    };
    let calls = extract_instance_components(&doc);
    assert_eq!(calls.iter().collect::<Vec<_>>(), vec!["ring"]);
}

#[test]
fn keys_that_are_not_strings_do_not_match() {
    let doc = YamlValue::Mapping(vec![
        (YamlValue::Number("1".to_string()), mapping(vec![("i", mapping(vec![("component", string("no"))]))])),
        (string("instances"), mapping(vec![("i", mapping(vec![("component", string("yes"))]))])),
    ]);
    let calls = extract_instance_components(&doc);
    assert_eq!(calls.iter().collect::<Vec<_>>(), vec!["yes"]);
}

#[test]
fn instance_file_becomes_a_pseudo_function() {
    let mut b = CallGraphBuilder::new(IndexMap::new());
    b.current_file = "/libs/lib/mzi.pic.yml".to_string();
    let text = "instances:\n  i1:\n    component: ring_double\n".to_string();
    let result = YamlAnalyzer::analyze_file(&mut b, "/libs/lib/mzi.pic.yml", "/libs/lib", "lib", &text);
    assert_eq!(result, Ok(()));
    assert_eq!(b.functions.len(), 1);
    let f = &b.functions[0];
    assert_eq!(f.name, "mzi");
    assert_eq!(f.module, "lib.mzi_picyml");
    assert_eq!(f.line, 1);
    assert_eq!(f.calls.iter().collect::<Vec<_>>(), vec!["ring_double"]);
    assert_eq!(f.decorators.iter().collect::<Vec<_>>(), vec!["yaml"]);
    assert!(!f.is_partial);
    let m = b.modules.get("lib.mzi_picyml").unwrap();
    assert_eq!(m.functions.iter().collect::<Vec<_>>(), vec!["mzi"]);
    assert!(m.errors.is_empty());
    assert_eq!(m.path, "/libs/lib/mzi.pic.yml");
}

#[test]
fn malformed_instance_file_still_makes_its_entries() {
    let mut b = CallGraphBuilder::new(IndexMap::new());
    let text = "instances: {i1: {component: ring\n".to_string();
    let result = YamlAnalyzer::analyze_file(&mut b, "/libs/lib/bad.pic.yml", "/libs/lib", "lib", &text);
    let message = result.unwrap_err();
    assert!(message.starts_with("Failed to parse YAML file /libs/lib/bad.pic.yml: "));
    assert!(message.len() > "Failed to parse YAML file /libs/lib/bad.pic.yml: ".len());
    assert_eq!(b.functions.len(), 1);
    assert_eq!(b.functions[0].name, "bad");
    assert!(b.functions[0].calls.is_empty());
    assert_eq!(b.functions[0].decorators.iter().collect::<Vec<_>>(), vec!["yaml"]);
    let m = b.modules.get("lib.bad_picyml").unwrap();
    assert_eq!(m.errors.iter().collect::<Vec<_>>(), vec![&message]);
    assert_eq!(m.functions.iter().collect::<Vec<_>>(), vec!["bad"]);
}

#[test]
fn function_name_is_the_stem_without_pic() {
    let mut b = CallGraphBuilder::new(IndexMap::new());
    let text = String::new();
    let _ = YamlAnalyzer::analyze_file(&mut b, "/libs/lib/deep/ring.pic.yml", "/libs/lib", "lib", &text);
    let _ = YamlAnalyzer::analyze_file(&mut b, "/libs/lib/plain.yml", "/libs/lib", "lib", &text);
    let _ = YamlAnalyzer::analyze_file(&mut b, "/libs/lib/a.b.pic.yml", "/libs/lib", "lib", &text);
    let names: Vec<&str> = b.functions.iter().map(|f| f.name.as_str()).collect();
    assert_eq!(names, vec!["ring", "plain", "a.b"]);
    let modules: Vec<&str> = b.functions.iter().map(|f| f.module.as_str()).collect();
    assert_eq!(modules, vec!["lib.deep.ring_picyml", "lib.plain.yml", "lib.a.b_picyml"]);
}

#[test]
fn recording_a_given_parse_outcome() {
    let mut b = CallGraphBuilder::new(IndexMap::new());
    let parsed = Ok(mapping(vec![("instances", mapping(vec![("a", mapping(vec![("component", string("c1"))]))]))]));
    assert_eq!(record_yaml_document(&mut b, "p.pic.yml", "lib.p_picyml", "p", &parsed), Ok(()));
    let failed = Err("line 3: oops".to_string());
    assert_eq!(
        record_yaml_document(&mut b, "q.pic.yml", "lib.q_picyml", "q", &failed),
        Err("Failed to parse YAML file q.pic.yml: line 3: oops".to_string())
    );
    assert_eq!(b.functions.len(), 2);
    assert_eq!(b.functions[0].calls.iter().collect::<Vec<_>>(), vec!["c1"]);
    assert!(b.functions[1].calls.is_empty());
    let q = b.modules.get("lib.q_picyml").unwrap();
    assert_eq!(
        q.errors.iter().collect::<Vec<_>>(),
        vec!["Failed to parse YAML file q.pic.yml: line 3: oops"]
    );
}
