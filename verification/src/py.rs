//! Python files: recovery from files that do not parse as a whole, and the
//! analyzer that feeds parsed statements to the builder.
//!
//! Parsing itself is not done here. The caller parses the file; when that
//! fails it cuts the text into blocks with `split_into_blocks`, parses each
//! block on its own, and hands over the outcome of every block.

use crate::analyzer::FileAnalyzer;
use crate::ast::Stmt;
use crate::builder::{module_of, relative_path, BuilderView, CallGraphBuilder};
use crate::strmap::StrMap;
use crate::text::{chars_of, digits, index_of, lemma_index_of_is, nat_text, slice, views};
use crate::visit::visit;
use vstd::prelude::*;

verus! {

/// Whether a character is white space.
pub open spec fn is_whitespace(c: char) -> bool {
    let u = c as u32;
    (0x9 <= u <= 0xD) || u == 0x20 || u == 0x85 || u == 0xA0 || u == 0x1680 || (0x2000 <= u
        <= 0x200A) || u == 0x2028 || u == 0x2029 || u == 0x202F || u == 0x205F || u == 0x3000
}

/// The number of white space characters that `s` begins with: the
/// indentation of a line.
pub open spec fn leading_spaces(s: Seq<char>) -> nat
    decreases s.len(),
{
    if s.len() > 0 && is_whitespace(s[0]) {
        1 + leading_spaces(s.skip(1))
    } else {
        0
    }
}

/// `s` without its indentation.
pub open spec fn trim_start(s: Seq<char>) -> Seq<char> {
    s.skip(leading_spaces(s) as int)
}

/// Whether `s` holds nothing but white space.
pub open spec fn is_blank(s: Seq<char>) -> bool {
    leading_spaces(s) == s.len()
}

/// `s` without a carriage return at its end.
pub open spec fn strip_cr(s: Seq<char>) -> Seq<char> {
    if s.len() > 0 && s.last() == '\r' {
        s.drop_last()
    } else {
        s
    }
}

/// The lines of a text. A line ends at a line feed, which is not part of
/// it, nor is a carriage return just before the line feed; text after the
/// last line feed is a line of its own.
pub open spec fn lines_of(s: Seq<char>) -> Seq<Seq<char>>
    decreases s.len(),
{
    let i = index_of(s, '\n');
    if s.len() == 0 {
        Seq::empty()
    } else if 0 <= i < s.len() {
        seq![strip_cr(s.take(i))] + lines_of(s.skip(i + 1))
    } else {
        seq![s]
    }
}

/// Whether a line without its indentation begins a definition or an import.
pub open spec fn opens_block(trimmed: Seq<char>) -> bool {
    "def "@.is_prefix_of(trimmed) || "class "@.is_prefix_of(trimmed) || "import "@.is_prefix_of(
        trimmed,
    ) || "from "@.is_prefix_of(trimmed)
}

/// The state of the scan that cuts a text into blocks.
pub struct BlockScan {
    /// The finished blocks, each with the number of its first line.
    pub blocks: Seq<(Seq<char>, nat)>,
    /// The text of the block that is open.
    pub current: Seq<char>,
    /// The number of the first line of the open block.
    pub start: nat,
    pub in_block: bool,
    /// The indentation of the first line of the open block.
    pub indent: nat,
    /// Whether the open block is a run of decorators still waiting for its
    /// definition.
    pub in_decorators: bool,
}

/// The finished blocks together with the open one, unless that is blank.
pub open spec fn closed(s: BlockScan) -> Seq<(Seq<char>, nat)> {
    if is_blank(s.current) {
        s.blocks
    } else {
        s.blocks.push((s.current, s.start))
    }
}

/// The scan after one more line.
///
/// A line that is blank, or indented more deeply than the first line of the
/// open block, belongs to that block whatever it begins with. Of the other
/// lines, a decorator line opens a block, or goes on with a run of
/// decorators, and the definition that follows a run joins it; a line that
/// begins a definition or an import closes the open block and opens its
/// own; any other line closes the open block and, when it is not blank, is a
/// block of its own.
pub open spec fn scan_line(s: BlockScan, line: Seq<char>, number: nat) -> BlockScan {
    let trimmed = trim_start(line);
    let indent = leading_spaces(line);
    let extended = s.current + line + seq!['\n'];
    if s.in_block && (indent > s.indent || is_blank(line)) {
        BlockScan { current: extended, ..s }
    } else if "@"@.is_prefix_of(trimmed) {
        if s.in_decorators {
            BlockScan { current: extended, ..s }
        } else {
            BlockScan {
                blocks: closed(s),
                current: line + seq!['\n'],
                start: number,
                in_block: true,
                indent,
                in_decorators: true,
            }
        }
    } else if opens_block(trimmed) {
        if s.in_decorators {
            BlockScan { current: extended, in_decorators: false, ..s }
        } else {
            BlockScan {
                blocks: closed(s),
                current: line + seq!['\n'],
                start: number,
                in_block: true,
                indent,
                in_decorators: false,
            }
        }
    } else if s.in_block {
        BlockScan {
            blocks: closed(s).push((line, number)),
            current: Seq::empty(),
            in_block: false,
            in_decorators: false,
            ..s
        }
    } else if !is_blank(line) {
        BlockScan { blocks: s.blocks.push((line, number)), ..s }
    } else {
        s
    }
}

/// The scan after the first `n` lines; lines are numbered from 1.
pub open spec fn scan(lines: Seq<Seq<char>>, n: int) -> BlockScan
    decreases n,
{
    if n <= 0 {
        BlockScan {
            blocks: Seq::empty(),
            current: Seq::empty(),
            start: 1,
            in_block: false,
            indent: 0,
            in_decorators: false,
        }
    } else {
        scan_line(scan(lines, n - 1), lines[n - 1], n as nat)
    }
}

/// The blocks of a text, each with the number of its first line.
pub open spec fn blocks_of(content: Seq<char>) -> Seq<(Seq<char>, nat)> {
    closed(scan(lines_of(content), lines_of(content).len() as int))
}

/// The models of a list of blocks.
pub open spec fn block_views(v: Seq<(String, usize)>) -> Seq<(Seq<char>, nat)> {
    Seq::new(v.len(), |i: int| (v[i].0@, v[i].1 as nat))
}

/// Whether a character is white space.
pub fn is_space(c: char) -> (r: bool)
    ensures
        r == is_whitespace(c),
{
    let u = c as u32;
    (0x9 <= u && u <= 0xD) || u == 0x20 || u == 0x85 || u == 0xA0 || u == 0x1680 || (0x2000 <= u
        && u <= 0x200A) || u == 0x2028 || u == 0x2029 || u == 0x202F || u == 0x205F || u == 0x3000
}

fn count_leading_spaces(cv: &Vec<char>) -> (r: usize)
    ensures
        r == leading_spaces(cv@),
        r <= cv.len(),
{
    let mut k: usize = 0;
    proof {
        assert(cv@.skip(0) =~= cv@);
    }
    while k < cv.len() && is_space(cv[k])
        invariant
            k <= cv.len(),
            leading_spaces(cv@) == k + leading_spaces(cv@.skip(k as int)),
        decreases cv.len() - k,
    {
        proof {
            assert(cv@.skip(k as int).skip(1) =~= cv@.skip(k + 1));
        }
        k += 1;
    }
    k
}

/// Whether a text holds nothing but white space.
fn blank(s: &str) -> (r: bool)
    ensures
        r == is_blank(s@),
{
    let cv = chars_of(s);
    count_leading_spaces(&cv) == cv.len()
}

fn has_prefix_at(cv: &Vec<char>, k: usize, pattern: &str) -> (r: bool)
    requires
        k <= cv.len(),
    ensures
        r == pattern@.is_prefix_of(cv@.skip(k as int)),
{
    let pv = chars_of(pattern);
    if pv.len() > cv.len() - k {
        return false;
    }
    let ghost rest = cv@.skip(k as int);
    let mut i: usize = 0;
    while i < pv.len()
        invariant
            i <= pv.len() <= cv.len() - k,
            pv@ == pattern@,
            rest == cv@.skip(k as int),
            forall|j: int| 0 <= j < i ==> cv[k + j] == pv[j],
        decreases pv.len() - i,
    {
        if cv[k + i] != pv[i] {
            proof {
                assert(rest.subrange(0, pattern@.len() as int)[i as int] == cv[k + i]);
            }
            return false;
        }
        i += 1;
    }
    proof {
        assert(pattern@ =~= rest.subrange(0, pattern@.len() as int));
    }
    true
}

/// The lines of a text (see `lines_of`).
pub fn lines(content: &str) -> (r: Vec<String>)
    ensures
        views(r@) == lines_of(content@),
{
    let cv = chars_of(content);
    let mut out: Vec<String> = Vec::new();
    let mut start: usize = 0;
    let mut i: usize = 0;
    proof {
        assert(content@.skip(0) =~= content@);
        assert(views(out@) + lines_of(content@) =~= lines_of(content@));
    }
    while i < cv.len()
        invariant
            start <= i <= cv.len(),
            cv@ == content@,
            forall|j: int| start <= j < i ==> cv[j] != '\n',
            lines_of(content@) == views(out@) + lines_of(content@.skip(start as int)),
        decreases cv.len() - i,
    {
        if cv[i] == '\n' {
            let end = if i > start && cv[i - 1] == '\r' {
                i - 1
            } else {
                i
            };
            let line = slice(content, start, end);
            proof {
                let rest = content@.skip(start as int);
                assert forall|j: int| 0 <= j < i - start implies rest[j] != '\n' by {
                    assert(rest[j] == cv[start + j]);
                }
                lemma_index_of_is(rest, '\n', i - start);
                let piece = rest.take(i - start);
                if i > start {
                    assert(piece.last() == cv[i - 1]);
                }
                assert(strip_cr(piece) =~= line@);
                assert(rest.skip(i - start + 1) =~= content@.skip(i + 1));
                crate::text::lemma_views_push(out@, line);
                assert(views(out@).push(line@) + lines_of(content@.skip(i + 1)) =~= views(out@) + (
                seq![line@] + lines_of(content@.skip(i + 1))));
            }
            out.push(line);
            start = i + 1;
        }
        i += 1;
    }
    if start < cv.len() {
        let line = slice(content, start, cv.len());
        proof {
            let rest = content@.skip(start as int);
            assert forall|j: int| 0 <= j < rest.len() implies rest[j] != '\n' by {
                assert(rest[j] == cv[start + j]);
            }
            lemma_index_of_is(rest, '\n', rest.len() as int);
            assert(rest =~= line@);
            crate::text::lemma_views_push(out@, line);
            assert(views(out@).push(line@) =~= views(out@) + seq![line@]);
        }
        out.push(line);
    } else {
        proof {
            assert(views(out@) + lines_of(content@.skip(start as int)) =~= views(out@));
        }
    }
    out
}

/// Cuts a text that does not parse as a whole into blocks that can be
/// parsed one by one (see `scan_line`). Each block comes with the number of
/// its first line.
pub fn split_into_blocks(content: &str) -> (r: Vec<(String, usize)>)
    ensures
        block_views(r@) == blocks_of(content@),
{
    let all = lines(content);
    let ghost model = lines_of(content@);
    let mut blocks: Vec<(String, usize)> = Vec::new();
    let mut current = String::new();
    let mut start: usize = 1;
    let mut in_block = false;
    let mut indent: usize = 0;
    let mut in_decorators = false;
    let mut i: usize = 0;
    proof {
        assert(block_views(blocks@) =~= Seq::empty());
        reveal_strlit("\n");
        assert("\n"@ =~= seq!['\n']);
    }
    while i < all.len()
        invariant
            i <= all.len(),
            model == views(all@),
            "\n"@ == seq!['\n'],
            block_views(blocks@) == scan(model, i as int).blocks,
            current@ == scan(model, i as int).current,
            start == scan(model, i as int).start,
            in_block == scan(model, i as int).in_block,
            indent == scan(model, i as int).indent,
            in_decorators == scan(model, i as int).in_decorators,
        decreases all.len() - i,
    {
        let line = all[i].as_str();
        let number: usize = i + 1;
        let cv = chars_of(line);
        let k = count_leading_spaces(&cv);
        let ghost before = scan(model, i as int);
        proof {
            assert(model[i as int] == line@);
            assert(trim_start(line@) == cv@.skip(k as int));
        }
        let decorator = has_prefix_at(&cv, k, "@");
        let opens = has_prefix_at(&cv, k, "def ") || has_prefix_at(&cv, k, "class ")
            || has_prefix_at(&cv, k, "import ") || has_prefix_at(&cv, k, "from ");
        if in_block && (k > indent || k == cv.len()) {
            current.append(line);
            current.append("\n");
        } else if (decorator && in_decorators) || (!decorator && opens && in_decorators) {
            current.append(line);
            current.append("\n");
            if !decorator {
                in_decorators = false;
            }
        } else if decorator || opens {
            if !blank(current.as_str()) {
                proof {
                    assert(block_views(blocks@.push((current, start))) =~= block_views(
                        blocks@,
                    ).push((current@, start as nat)));
                }
                blocks.push((current, start));
            }
            current = line.to_owned();
            current.append("\n");
            start = number;
            in_block = true;
            indent = k;
            in_decorators = decorator;
        } else if in_block {
            if !blank(current.as_str()) {
                proof {
                    assert(block_views(blocks@.push((current, start))) =~= block_views(
                        blocks@,
                    ).push((current@, start as nat)));
                }
                blocks.push((current, start));
            }
            proof {
                assert(block_views(blocks@.push((all@[i as int], number))) =~= block_views(
                    blocks@,
                ).push((line@, number as nat)));
            }
            blocks.push((line.to_owned(), number));
            current = String::new();
            in_block = false;
            in_decorators = false;
        } else if k != cv.len() {
            proof {
                assert(block_views(blocks@.push((all@[i as int], number))) =~= block_views(
                    blocks@,
                ).push((line@, number as nat)));
            }
            blocks.push((line.to_owned(), number));
        }
        i += 1;
    }
    if !blank(current.as_str()) {
        proof {
            assert(block_views(blocks@.push((current, start))) =~= block_views(blocks@).push(
                (current@, start as nat),
            ));
        }
        blocks.push((current, start));
    }
    blocks
}

/// The outcome of parsing one block: its statements, or the parser's
/// message. `line` is the number of the block's first line.
#[derive(Debug, PartialEq)]
pub struct ParsedBlock {
    pub line: usize,
    pub result: Result<Vec<Stmt>, String>,
}

/// What the parser made of a Python file.
#[derive(Debug, PartialEq)]
pub enum ParsedPython {
    /// The file parsed as a whole.
    Whole { body: Vec<Stmt> },
    /// The file did not parse as a whole: the parser's message, and the
    /// outcome for every block of `split_into_blocks`, in order (see
    /// `recovered_blocks`).
    Partial { error: String, blocks: Vec<ParsedBlock> },
}

/// The builder after the statements from position `from` on.
pub open spec fn visit_all(b: BuilderView, stmts: Seq<Stmt>, from: int, module: Seq<char>)
    -> BuilderView
    decreases stmts.len() - from,
{
    if from < 0 || from >= stmts.len() {
        b
    } else {
        visit_all(visit(b, stmts[from], module), stmts, from + 1, module)
    }
}

/// The builder after the statements of the blocks that parsed, from
/// position `from` on.
pub open spec fn visit_blocks(
    b: BuilderView,
    blocks: Seq<ParsedBlock>,
    from: int,
    module: Seq<char>,
) -> BuilderView
    decreases blocks.len() - from,
{
    if from < 0 || from >= blocks.len() {
        b
    } else {
        visit_blocks(
            match blocks[from].result {
                Ok(stmts) => visit_all(b, stmts@, 0, module),
                Err(e) => b,
            },
            blocks,
            from + 1,
            module,
        )
    }
}

/// The error recorded for a block that did not parse.
pub open spec fn block_failure(line: usize, error: Seq<char>) -> Seq<char> {
    "Parse error at line "@ + digits(line as nat) + ": "@ + error
}

/// The builder after one error for every block that did not parse, from
/// position `from` on.
pub open spec fn add_block_errors(
    b: BuilderView,
    blocks: Seq<ParsedBlock>,
    from: int,
    module: Seq<char>,
) -> BuilderView
    decreases blocks.len() - from,
{
    if from < 0 || from >= blocks.len() {
        b
    } else {
        add_block_errors(
            match blocks[from].result {
                Ok(stmts) => b,
                Err(e) => b.add_error(module, block_failure(blocks[from].line, e@)),
            },
            blocks,
            from + 1,
            module,
        )
    }
}

/// The number of statements in the first `n` blocks.
pub open spec fn recovered(blocks: Seq<ParsedBlock>, n: int) -> nat
    decreases n,
{
    if n <= 0 {
        0
    } else {
        recovered(blocks, n - 1) + match blocks[n - 1].result {
            Ok(stmts) => stmts@.len(),
            Err(e) => 0,
        }
    }
}

/// Whether one of the first `n` blocks did not parse.
pub open spec fn any_failed(blocks: Seq<ParsedBlock>, n: int) -> bool
    decreases n,
{
    if n <= 0 {
        false
    } else {
        any_failed(blocks, n - 1) || blocks[n - 1].result is Err
    }
}

/// The message for a Python file of which some block did not parse.
pub open spec fn python_failure(file_path: Seq<char>, error: Seq<char>, statements: nat) -> Seq<
    char,
> {
    "Failed to parse Python file "@ + file_path + ": "@ + error
        + " (partial parsing recovered "@ + digits(statements) + " statements)"@
}

/// What a Python file adds. The import aliases of the previous file are
/// forgotten. A file that parsed as a whole adds its statements; any other
/// adds the statements of the blocks that parsed, filed under
/// `module`, and one error for every block that did not, filed under
/// `error_module`.
pub open spec fn analyze_python(
    b: BuilderView,
    module: Seq<char>,
    error_module: Seq<char>,
    source: ParsedPython,
) -> BuilderView {
    let fresh = BuilderView { imports: Map::empty(), ..b };
    match source {
        ParsedPython::Whole { body } => visit_all(fresh, body@, 0, module),
        ParsedPython::Partial { error, blocks } => add_block_errors(
            visit_blocks(fresh, blocks@, 0, module),
            blocks@,
            0,
            error_module,
        ),
    }
}

/// The failure that analysing a Python file reports, if any: none for a
/// file that parsed as a whole or whose blocks all parsed.
pub open spec fn python_outcome(file_path: Seq<char>, source: ParsedPython) -> Option<Seq<char>> {
    match source {
        ParsedPython::Whole { body } => None,
        ParsedPython::Partial { error, blocks } => if any_failed(blocks@, blocks@.len() as int) {
            Some(python_failure(file_path, error@, recovered(blocks@, blocks@.len() as int)))
        } else {
            None
        },
    }
}

impl CallGraphBuilder {
    /// Takes in a list of top-level statements of the file for module
    /// `module`.
    pub fn visit_statements(&mut self, stmts: &Vec<Stmt>, module: &str)
        ensures
            final(self)@ == visit_all(old(self)@, stmts@, 0, module@),
    {
        let mut i: usize = 0;
        while i < stmts.len()
            invariant
                i <= stmts.len(),
                visit_all(old(self)@, stmts@, 0, module@) == visit_all(
                    self@,
                    stmts@,
                    i as int,
                    module@,
                ),
            decreases stmts.len() - i,
        {
            self.visit_stmt_in(&stmts[i], module);
            i += 1;
        }
    }
}

/// The analyzer of Python files; its source is what the parser made of the
/// file.
pub struct PythonAnalyzer;

impl FileAnalyzer for PythonAnalyzer {
    type Source = ParsedPython;

    /// The statements are filed under the module of the builder's current
    /// file, the errors under the module of `file_path`.
    open spec fn extended(
        b: BuilderView,
        file_path: Seq<char>,
        lib_root: Seq<char>,
        prefix: Seq<char>,
        source: ParsedPython,
    ) -> BuilderView {
        analyze_python(
            b,
            module_of(relative_path(b.current_file, lib_root), b.current_file, prefix),
            module_of(relative_path(file_path, lib_root), file_path, prefix),
            source,
        )
    }

    open spec fn failure(file_path: Seq<char>, source: ParsedPython) -> Option<Seq<char>> {
        python_outcome(file_path, source)
    }

    fn analyze_file(
        builder: &mut CallGraphBuilder,
        file_path: &str,
        lib_root: &str,
        prefix: &str,
        source: &ParsedPython,
    ) -> (r: Result<(), String>) {
        builder.imports = StrMap::new();
        let module = builder.derive_module(builder.current_file.as_str(), lib_root, prefix);
        match source {
            ParsedPython::Whole { body } => {
                builder.visit_statements(body, module.as_str());
                Ok(())
            },
            ParsedPython::Partial { error, blocks } => {
                let ghost fresh = builder@;
                let mut statements: u128 = 0;
                let mut failed = false;
                let mut i: usize = 0;
                while i < blocks.len()
                    invariant
                        i <= blocks.len(),
                        statements == recovered(blocks@, i as int),
                        statements <= i * 0xFFFF_FFFF_FFFF_FFFF,
                        failed == any_failed(blocks@, i as int),
                        visit_blocks(fresh, blocks@, 0, module@) == visit_blocks(
                            builder@,
                            blocks@,
                            i as int,
                            module@,
                        ),
                    decreases blocks.len() - i,
                {
                    match &blocks[i].result {
                        Ok(stmts) => {
                            builder.visit_statements(stmts, module.as_str());
                            statements = statements + stmts.len() as u128;
                        },
                        Err(e) => {
                            failed = true;
                        },
                    }
                    i += 1;
                }
                let error_module = builder.derive_module(file_path, lib_root, prefix);
                let ghost visited = builder@;
                let mut k: usize = 0;
                while k < blocks.len()
                    invariant
                        k <= blocks.len(),
                        add_block_errors(visited, blocks@, 0, error_module@) == add_block_errors(
                            builder@,
                            blocks@,
                            k as int,
                            error_module@,
                        ),
                    decreases blocks.len() - k,
                {
                    match &blocks[k].result {
                        Ok(stmts) => {},
                        Err(e) => {
                            let mut message = "Parse error at line ".to_owned();
                            let number = nat_text(blocks[k].line as u128);
                            message.append(number.as_str());
                            message.append(": ");
                            message.append(e.as_str());
                            builder.add_error_to_module(error_module.as_str(), message.as_str());
                        },
                    }
                    k += 1;
                }
                if failed {
                    let mut message = "Failed to parse Python file ".to_owned();
                    let count = nat_text(statements);
                    message.append(file_path);
                    message.append(": ");
                    message.append(error.as_str());
                    message.append(" (partial parsing recovered ");
                    message.append(count.as_str());
                    message.append(" statements)");
                    Err(message)
                } else {
                    Ok(())
                }
            },
        }
    }
}

/// The number of line feeds among the first `n` bytes.
pub open spec fn line_feeds(bytes: Seq<u8>, n: int) -> nat
    decreases n,
{
    if n <= 0 {
        0
    } else {
        line_feeds(bytes, n - 1) + if bytes[n - 1] == 10u8 {
            1nat
        } else {
            0nat
        }
    }
}

/// The number of the line that holds the byte at `offset`, counted from 1;
/// an offset past the end counts as the end.
pub open spec fn line_at(bytes: Seq<u8>, offset: nat) -> nat {
    1 + line_feeds(
        bytes,
        if offset <= bytes.len() {
            offset as int
        } else {
            bytes.len() as int
        },
    )
}

/// The number of the line that holds the byte at `offset` of a text (see
/// `line_at`), held to the largest number that fits.
pub fn line_of_offset(content: &str, offset: usize) -> (r: usize)
    ensures
        r as nat == if line_at(vstd::utf8::encode_utf8(content@), offset as nat) <= usize::MAX {
            line_at(vstd::utf8::encode_utf8(content@), offset as nat)
        } else {
            usize::MAX as nat
        },
{
    let bytes = content.as_bytes();
    let end = if offset <= bytes.len() {
        offset
    } else {
        bytes.len()
    };
    let mut count: usize = 0;
    let mut i: usize = 0;
    while i < end
        invariant
            i <= end <= bytes.len(),
            count == line_feeds(bytes@, i as int),
            count <= i,
        decreases end - i,
    {
        if bytes[i] == 10u8 {
            count += 1;
        }
        i += 1;
    }
    if count == usize::MAX {
        count
    } else {
        count + 1
    }
}

/// Whether the blocks of a partial parse are those of `content`, one outcome
/// for every block, each under the number of the block's first line.
pub open spec fn follows_blocks(blocks: Seq<ParsedBlock>, content: Seq<char>) -> bool {
    &&& blocks.len() == blocks_of(content).len()
    &&& forall|i: int| 0 <= i < blocks.len() ==> (#[trigger] blocks[i]).line == blocks_of(content)[i].1
}

/// Puts the outcomes of parsing the blocks of `content`, given in the order
/// of `split_into_blocks`, under the line numbers of their blocks. `None`
/// when the number of outcomes is not the number of blocks.
pub fn recovered_blocks(content: &str, outcomes: Vec<Result<Vec<Stmt>, String>>) -> (r: Option<
    Vec<ParsedBlock>,
>)
    ensures
        match r {
            Some(blocks) => follows_blocks(blocks@, content@) && blocks@.len() == outcomes@.len()
                && forall|i: int|
                0 <= i < blocks@.len() ==> (#[trigger] blocks@[i]).result == outcomes@[i],
            None => outcomes@.len() != blocks_of(content@).len(),
        },
{
    let cut = split_into_blocks(content);
    if cut.len() != outcomes.len() {
        return None;
    }
    let ghost all = outcomes@;
    let n = cut.len();
    let mut rest = outcomes;
    let mut reversed: Vec<ParsedBlock> = Vec::new();
    while rest.len() > 0
        invariant
            n == cut.len(),
            n == all.len(),
            rest@ == all.take(rest.len() as int),
            reversed.len() + rest.len() == n,
            forall|k: int|
                0 <= k < reversed.len() ==> (#[trigger] reversed@[k]).line == cut@[n - 1 - k].1
                    && reversed@[k].result == all[n - 1 - k],
        decreases rest.len(),
    {
        let i = rest.len() - 1;
        match rest.pop() {
            Some(outcome) => {
                reversed.push(ParsedBlock { line: cut[i].1, result: outcome });
            },
            None => {},
        }
    }
    let mut blocks: Vec<ParsedBlock> = Vec::new();
    let ghost turned = reversed@;
    while reversed.len() > 0
        invariant
            turned.len() == n,
            reversed@ == turned.take(reversed.len() as int),
            blocks.len() + reversed.len() == n,
            forall|k: int| 0 <= k < blocks.len() ==> #[trigger] blocks@[k] == turned[n - 1 - k],
        decreases reversed.len(),
    {
        match reversed.pop() {
            Some(b) => {
                blocks.push(b);
            },
            None => {},
        }
    }
    proof {
        assert forall|i: int| 0 <= i < blocks@.len() implies (#[trigger] blocks@[i]).line
            == blocks_of(content@)[i].1 && blocks@[i].result == all[i] by {
            assert(blocks@[i] == turned[n - 1 - i]);
            assert(block_views(cut@)[i].1 == cut@[i].1);
        }
    }
    Some(blocks)
}

} // verus!
