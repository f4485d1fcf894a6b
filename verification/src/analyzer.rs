//! The contract shared by the analyzers of the two file formats.

use crate::builder::{module_of, relative_path, BuilderView, CallGraphBuilder};
use crate::py::{ParsedPython, PythonAnalyzer};
use crate::text::ends_with;
use crate::yaml::{yaml_module_of, YamlAnalyzer};
use vstd::prelude::*;

verus! {

/// An analyzer takes what was read from one file and extends the builder
/// with what the file declares. A failure is reported as a message; what
/// could still be made of the file is in the builder all the same.
pub trait FileAnalyzer {
    /// What the analyzer needs of a file besides its path.
    type Source;

    /// The builder after the file has been analyzed.
    spec fn extended(
        b: BuilderView,
        file_path: Seq<char>,
        lib_root: Seq<char>,
        prefix: Seq<char>,
        source: Self::Source,
    ) -> BuilderView;

    /// The failure that the analysis of the file reports, if any.
    spec fn failure(file_path: Seq<char>, source: Self::Source) -> Option<Seq<char>>;

    fn analyze_file(
        builder: &mut CallGraphBuilder,
        file_path: &str,
        lib_root: &str,
        prefix: &str,
        source: &Self::Source,
    ) -> (r: Result<(), String>)
        ensures
            final(builder)@ == Self::extended(
                old(builder)@,
                file_path@,
                lib_root@,
                prefix@,
                *source,
            ),
            match r {
                Ok(_) => Self::failure(file_path@, *source) is None,
                Err(message) => Self::failure(file_path@, *source) == Some(message@),
            },
    ;
}

/// The kinds of file that the analysis knows.
#[derive(PartialEq, Eq, Clone, Copy, Debug)]
pub enum FileKind {
    /// A declarative instance file: the name ends in `.pic.yml`.
    Yaml,
    /// A Python file: the name ends in `.py`.
    Python,
    Other,
}

/// The kind of a file, by the end of its name.
pub open spec fn kind_of(file_path: Seq<char>) -> FileKind {
    if ".pic.yml"@.is_suffix_of(file_path) {
        FileKind::Yaml
    } else if ".py"@.is_suffix_of(file_path) {
        FileKind::Python
    } else {
        FileKind::Other
    }
}

/// The kind of a file, by the end of its name.
pub fn file_kind(file_path: &str) -> (r: FileKind)
    ensures
        r == kind_of(file_path@),
{
    if ends_with(file_path, ".pic.yml") {
        FileKind::Yaml
    } else if ends_with(file_path, ".py") {
        FileKind::Python
    } else {
        FileKind::Other
    }
}

/// What was read from one file, by kind.
#[derive(Debug, PartialEq)]
pub enum FileSource {
    /// What the parser made of a Python file.
    Python { parsed: ParsedPython },
    /// The text of a declarative instance file.
    Yaml { content: String },
    /// A file that could not be read: the message of the failure.
    Unreadable { message: String },
    /// A file of another kind, which adds nothing.
    Other,
}

/// Whether a file is filed by the rule for instance files: a YAML source,
/// or an unreadable file whose name is that of an instance file.
pub open spec fn filed_as_yaml(file_path: Seq<char>, source: FileSource) -> bool {
    match source {
        FileSource::Yaml { content } => true,
        FileSource::Unreadable { message } => kind_of(file_path) == FileKind::Yaml,
        _ => false,
    }
}

/// The module that owns a file: by the rule for instance files or by the
/// rule for Python files.
pub open spec fn owning_module(
    file_path: Seq<char>,
    lib_root: Seq<char>,
    prefix: Seq<char>,
    source: FileSource,
) -> Seq<char> {
    if filed_as_yaml(file_path, source) {
        yaml_module_of(relative_path(file_path, lib_root), file_path, prefix)
    } else {
        module_of(relative_path(file_path, lib_root), file_path, prefix)
    }
}

/// The builder after the analyzer of the file's kind has run, and the
/// failure that it reported.
pub open spec fn analyzed(
    b: BuilderView,
    file_path: Seq<char>,
    lib_root: Seq<char>,
    prefix: Seq<char>,
    source: FileSource,
) -> (BuilderView, Option<Seq<char>>) {
    match source {
        FileSource::Python { parsed } => (
            PythonAnalyzer::extended(b, file_path, lib_root, prefix, parsed),
            PythonAnalyzer::failure(file_path, parsed),
        ),
        FileSource::Yaml { content } => (
            YamlAnalyzer::extended(b, file_path, lib_root, prefix, content),
            YamlAnalyzer::failure(file_path, content),
        ),
        FileSource::Unreadable { message } => (b, Some(message@)),
        FileSource::Other => (b, None),
    }
}

/// What one file adds to the builder. The file becomes the current file;
/// its analyzer runs; a failure that the analyzer reports, or the failure
/// to read the file, is recorded among the errors of the module that owns
/// the file.
pub open spec fn analyze(
    b: BuilderView,
    file_path: Seq<char>,
    lib_root: Seq<char>,
    prefix: Seq<char>,
    source: FileSource,
) -> BuilderView {
    let started = BuilderView { current_file: file_path, current_prefix: prefix, ..b };
    let (after, failure) = analyzed(started, file_path, lib_root, prefix, source);
    match failure {
        Some(message) => after.add_error(
            owning_module(file_path, lib_root, prefix, source),
            message,
        ),
        None => after,
    }
}

impl CallGraphBuilder {
    /// Analyzes one file of the library `prefix` rooted at `lib_root`. The
    /// call fails exactly when the file could not be read or its analyzer
    /// failed, with the message; the builder holds what could be made of the
    /// file either way.
    pub fn analyze_file(
        &mut self,
        file_path: &str,
        lib_root: &str,
        prefix: &str,
        source: &FileSource,
    ) -> (r: Result<(), String>)
        ensures
            final(self)@ == analyze(old(self)@, file_path@, lib_root@, prefix@, *source),
            match r {
                Ok(_) => analyzed(
                    BuilderView {
                        current_file: file_path@,
                        current_prefix: prefix@,
                        ..old(self)@
                    },
                    file_path@,
                    lib_root@,
                    prefix@,
                    *source,
                ).1 is None,
                Err(message) => analyzed(
                    BuilderView {
                        current_file: file_path@,
                        current_prefix: prefix@,
                        ..old(self)@
                    },
                    file_path@,
                    lib_root@,
                    prefix@,
                    *source,
                ).1 == Some(message@),
            },
    {
        self.current_file = file_path.to_owned();
        self.current_prefix = prefix.to_owned();
        let result = match source {
            FileSource::Python { parsed } => PythonAnalyzer::analyze_file(
                self,
                file_path,
                lib_root,
                prefix,
                parsed,
            ),
            FileSource::Yaml { content } => YamlAnalyzer::analyze_file(
                self,
                file_path,
                lib_root,
                prefix,
                content,
            ),
            FileSource::Unreadable { message } => Err(message.clone()),
            FileSource::Other => Ok(()),
        };
        match &result {
            Ok(_) => {},
            Err(message) => {
                let as_yaml = match source {
                    FileSource::Yaml { content } => true,
                    FileSource::Unreadable { message } => match file_kind(file_path) {
                        FileKind::Yaml => true,
                        _ => false,
                    },
                    _ => false,
                };
                let module_name = if as_yaml {
                    crate::yaml::derive_yaml_module(file_path, lib_root, prefix)
                } else {
                    self.derive_module(file_path, lib_root, prefix)
                };
                self.add_error_to_module(module_name.as_str(), message.as_str());
            },
        }
        result
    }
}

} // verus!
