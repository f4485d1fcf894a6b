use callgraph::builder::{module_from_relative, step_up_and_append, CallGraphBuilder};
use callgraph::yaml::{derive_yaml_module, yaml_module_from_relative};
use indexmap::IndexMap;

fn empty_builder() -> CallGraphBuilder {
    CallGraphBuilder::new(IndexMap::new())
}

#[test]
fn module_of_a_file_below_the_root() {
    let b = empty_builder();
    assert_eq!(b.derive_module("/libs/pkg/a.py", "/libs/pkg", "pkg"), "pkg.a");
    assert_eq!(b.derive_module("/libs/pkg/sub/mod.py", "/libs/pkg", "pkg"), "pkg.sub.mod");
    assert_eq!(b.derive_module("/libs/pkg/sub/mod.py", "/libs/pkg/", "pkg"), "pkg.sub.mod");
}

#[test]
fn init_files_stand_for_their_package() {
    let b = empty_builder();
    assert_eq!(b.derive_module("/libs/pkg/sub/__init__.py", "/libs/pkg", "pkg"), "pkg.sub");
    assert_eq!(b.derive_module("/libs/pkg/__init__.py", "/libs/pkg", "pkg"), "pkg");
    assert_eq!(b.derive_module("/libs/pkg/my__init__.py", "/libs/pkg", "pkg"), "pkg.my__init__");
}

#[test]
fn file_outside_the_root_keeps_its_path() {
    let b = empty_builder();
    assert_eq!(b.derive_module("/other/a.py", "/libs/pkg", "pkg"), "/other/a.py");
    assert_eq!(b.derive_module("/libs/pkgx/a.py", "/libs/pkg", "pkg"), "/libs/pkgx/a.py");
}

#[test]
fn only_a_trailing_extension_is_stripped() {
    assert_eq!(module_from_relative(Some("a.pyx/b.py"), "x", "lib"), "lib.a.pyx.b");
    assert_eq!(module_from_relative(Some("tool.pyi"), "x", "lib"), "lib.tool.pyi");
    assert_eq!(module_from_relative(Some("a/b"), "x", "lib"), "lib.a.b");
    assert_eq!(module_from_relative(Some(""), "x", "lib"), "lib");
    assert_eq!(module_from_relative(None, "x/y.py", "lib"), "x/y.py");
}

#[test]
fn module_names_keep_the_directory_structure() {
    let cases = [
        ("a.py", "a"),
        ("a/b/c.py", "a/b/c"),
        ("a/__init__.py", "a"),
        ("__init__.py", ""),
        ("a/b/__init__.py", "a/b"),
    ];
    for (relative, expected) in cases {
        let module = module_from_relative(Some(relative), relative, "lib");
        let rest = if module.len() > "lib".len() { &module["lib".len() + 1..] } else { "" };
        assert_eq!(rest.replace('.', "/"), expected, "for {relative}");
    }
}

#[test]
fn relative_import_level_arithmetic() {
    let b = empty_builder();
    assert_eq!(b.resolve_relative_import_with_level("x", "pkg.sub.mod", 1), "pkg.sub.mod.x");
    assert_eq!(b.resolve_relative_import_with_level("x", "pkg.sub.mod", 2), "pkg.sub.x");
    assert_eq!(b.resolve_relative_import_with_level("x", "pkg.sub.mod", 3), "pkg.x");
    assert_eq!(b.resolve_relative_import_with_level("x", "pkg.sub.mod", 0), "x");
    assert_eq!(step_up_and_append("cells", "pkg.a", 1), "pkg.a.cells");
}

#[test]
fn relative_import_beyond_the_top_keeps_its_dots() {
    let b = empty_builder();
    assert_eq!(b.resolve_relative_import_with_level("x", "pkg.sub.mod", 4), "....x");
    assert_eq!(b.resolve_relative_import_with_level("x", "pkg", 2), "..x");
    assert_eq!(b.resolve_relative_import_with_level("x", "", 2), "..x");
}

#[test]
fn relative_import_from_an_empty_module_path() {
    let b = empty_builder();
    assert_eq!(b.resolve_relative_import_with_level("x", "", 1), "x");
    assert_eq!(step_up_and_append("x", "", 1), "x");
    assert_eq!(step_up_and_append("x", "pkg.sub.mod", 4), "....x");
    assert_eq!(step_up_and_append("x", "pkg.sub.mod", 0), "x");
}

#[test]
fn import_written_with_leading_dots() {
    let b = empty_builder();
    assert_eq!(b.resolve_relative_import(".cells", "pkg.a"), "pkg.a.cells");
    assert_eq!(b.resolve_relative_import(".", "pkg.a"), "pkg.a");
    assert_eq!(b.resolve_relative_import("..cband", "pkg.sub.mod"), "pkg.sub.cband");
    assert_eq!(b.resolve_relative_import("..", "pkg.sub.mod"), "pkg.sub");
    assert_eq!(b.resolve_relative_import("...x", "pkg.sub.mod"), "pkg.x");
    assert_eq!(b.resolve_relative_import("....x", "pkg.sub.mod"), "....x");
    assert_eq!(b.resolve_relative_import("numpy.linalg", "pkg.a"), "numpy.linalg");
}

#[test]
fn module_of_an_instance_file() {
    assert_eq!(derive_yaml_module("/libs/lib/mzi.pic.yml", "/libs/lib", "lib"), "lib.mzi_picyml");
    assert_eq!(
        derive_yaml_module("/libs/lib/cells/ring.pic.yml", "/libs/lib", "lib"),
        "lib.cells.ring_picyml"
    );
    assert_eq!(derive_yaml_module("/else/mzi.pic.yml", "/libs/lib", "lib"), "/else/mzi.pic.yml");
    assert_eq!(yaml_module_from_relative(Some(""), "x", "lib"), "lib");
    assert_eq!(yaml_module_from_relative(Some("a/b.yml"), "x", "lib"), "lib.a.b.yml");
}

#[test]
fn dotted_form_of_a_path() {
    let b = empty_builder();
    assert_eq!(b.derive_module_path("pkg/sub/mod.py"), "pkg.sub.mod");
    assert_eq!(b.derive_module_path("pkg\\sub\\mod.py"), "pkg.sub.mod");
    assert_eq!(b.derive_module_path("cells/mzi.pic.yml"), "cells.mzi");
    assert_eq!(b.derive_module_path("notes/readme.txt"), "notes.readme.txt");
    assert_eq!(b.derive_module_path("a.py.py"), "a.py");
    assert_eq!(b.derive_module_path(""), "");
}
