//! Scripts that a Python interpreter runs: telling them from other files, and giving them back the
//! placeholder shebang that they have in a wheel.

use std::ops::Range;
use std::path::PathBuf;

use vstd::prelude::*;

use crate::bytes;
use crate::outside;
use crate::outside::{PeError, ZipProbe};
use crate::version::PythonVersion;

verus! {

/// A file that a Python interpreter runs.
#[derive(Debug, PartialEq, Eq)]
pub enum PythonScript {
    /// A text file that starts with a shebang.
    Posix {
        /// The file.
        path: PathBuf,
        /// The index of the first byte past the interpreter's name.
        shebang_end: usize,
        /// The script runs without a console window.
        is_windowed: bool,
        /// What else belongs to the shebang: the part that has `/bin/sh` start the interpreter.
        extra_shebang_content: Option<Range<usize>>,
    },
    /// A Windows executable with a zip archive behind it that holds the script.
    Windows {
        /// The file.
        path: PathBuf,
        /// The script runs without a console window.
        is_windowed: bool,
    },
}

/// Why a file cannot be told to be a script or not.
#[derive(Clone, Copy, Debug, PartialEq, Eq, Structural)]
pub enum DetectError {
    /// The file is shorter than the mark of a shebang.
    UnexpectedEof,
    /// A line that has to be read is not UTF-8.
    InvalidUtf8,
    /// The part that has `/bin/sh` start the interpreter has no closing line.
    Unterminated,
    /// The executable in front of the zip archive cannot be read.
    BadExecutable(PeError),
}

/// What the first lines of a script say: where the interpreter's name ends, whether the script runs
/// without a console window, and from where to where the rest of the shebang goes.
pub struct Shebang {
    pub end: int,
    pub windowed: bool,
    pub extra: Option<(int, int)>,
}

/// The index of the first byte past the interpreter's name: the name follows the `#!` and goes up
/// to white space or the end of the file.
pub open spec fn interpreter_end(contents: Seq<u8>) -> int {
    bytes::whitespace_from(contents, 2)
}

/// The interpreter's name in lower case.
pub open spec fn interpreter(contents: Seq<u8>) -> Seq<u8> {
    bytes::lowercase(contents.subrange(2, interpreter_end(contents)))
}

/// The interpreter is a Python with no version in its name or with that version.
pub open spec fn names_python(interpreter: Seq<u8>, version: PythonVersion) -> bool {
    ||| bytes::has_suffix(interpreter, bytes::ascii_bytes("/python"@))
    ||| bytes::has_suffix(interpreter, bytes::ascii_bytes("pypy"@))
    ||| bytes::has_suffix(interpreter, version.major_name("/python"@))
    ||| bytes::has_suffix(interpreter, version.major_name("/pypy"@))
    ||| bytes::has_suffix(interpreter, version.minor_name("/python"@))
    ||| bytes::has_suffix(interpreter, version.minor_name("/pypy"@))
}

/// The line of `contents` that starts at `from`, with its line feed.
pub open spec fn line_at(contents: Seq<u8>, from: int) -> Seq<u8> {
    contents.subrange(from, bytes::line_end(contents, from))
}

/// The line is text that declares an encoding.
pub open spec fn is_coding_line(line: Seq<u8>) -> bool {
    vstd::utf8::valid_utf8(line) && outside::declares_coding(vstd::utf8::decode_utf8(line))
}

/// The line opens a part that has `/bin/sh` start a Python interpreter.
pub open spec fn is_opening_line(line: Seq<u8>) -> bool {
    ||| line == bytes::ascii_bytes("'''': pshprs\n"@)
    ||| outside::execs_python(vstd::utf8::decode_utf8(line))
}

/// The index just past the first closing line among the lines from `from` on.
pub open spec fn closing_end(contents: Seq<u8>, from: int) -> Result<int, DetectError>
    decreases contents.len() - from,
    when 0 <= from
{
    if from >= contents.len() {
        Err(DetectError::Unterminated)
    } else if !vstd::utf8::valid_utf8(line_at(contents, from)) {
        Err(DetectError::InvalidUtf8)
    } else if line_at(contents, from) == bytes::ascii_bytes("'''\n"@) {
        Ok(bytes::line_end(contents, from))
    } else {
        proof {
            if from < contents.len() {
                bytes::lemma_line_end(contents, from);
            }
        }
        closing_end(contents, bytes::line_end(contents, from))
    }
}

/// The lines of a `/bin/sh` script that start the Python interpreter: from the opening line, which
/// follows the shebang line or an encoding declared after it, through the closing line.
pub open spec fn redirector_lines(contents: Seq<u8>) -> Result<Option<(int, int)>, DetectError> {
    let first = bytes::line_end(contents, 2);
    let opening = if is_coding_line(line_at(contents, first)) {
        bytes::line_end(contents, first)
    } else {
        first
    };
    if !vstd::utf8::valid_utf8(line_at(contents, first)) || !vstd::utf8::valid_utf8(
        line_at(contents, opening),
    ) {
        Err(DetectError::InvalidUtf8)
    } else if !is_opening_line(line_at(contents, opening)) {
        Ok(None)
    } else {
        match closing_end(contents, bytes::line_end(contents, opening)) {
            Err(e) => Err(e),
            Ok(end) => Ok(Some((opening, end))),
        }
    }
}

/// How many bytes the shebang line goes on for behind the interpreter's name, with its line feed.
pub open spec fn rest_of_line(contents: Seq<u8>) -> int {
    bytes::line_end(contents, 2) - interpreter_end(contents)
}

/// The part of a `/bin/sh` script that counts as the rest of its shebang: as long as the lines that
/// start the interpreter, and as far behind the interpreter's name as these are behind the shebang
/// line. Where only a line feed follows the name, the last line feed of those lines then ends the
/// line before them.
pub open spec fn redirector(contents: Seq<u8>) -> Result<Option<(int, int)>, DetectError> {
    let back = rest_of_line(contents);
    match redirector_lines(contents) {
        Err(e) => Err(e),
        Ok(None) => Ok(None),
        Ok(Some((opening, closing))) => Ok(Some((opening - back, closing - back))),
    }
}

/// What `contents` is as a script of a Python of that version: a shebang with the placeholder
/// `python` or `pythonw`, with `/bin/sh` and a part that starts Python, or with a Python.
pub open spec fn shebang(contents: Seq<u8>, version: PythonVersion) -> Result<
    Option<Shebang>,
    DetectError,
> {
    let end = interpreter_end(contents);
    let name = interpreter(contents);
    if contents.len() < 2 {
        Err(DetectError::UnexpectedEof)
    } else if contents.subrange(0, 2) != bytes::ascii_bytes("#!"@) {
        Ok(None)
    } else if name == bytes::ascii_bytes("python"@) {
        Ok(Some(Shebang { end, windowed: false, extra: None }))
    } else if name == bytes::ascii_bytes("pythonw"@) {
        Ok(Some(Shebang { end, windowed: true, extra: None }))
    } else if name == bytes::ascii_bytes("/bin/sh"@) {
        match redirector(contents) {
            Err(e) => Err(e),
            Ok(None) => Ok(None),
            Ok(Some(extra)) => Ok(Some(Shebang { end, windowed: false, extra: Some(extra) })),
        }
    } else if names_python(name, version) {
        Ok(Some(Shebang { end, windowed: false, extra: None }))
    } else {
        Ok(None)
    }
}

/// The script at `path` with that shebang.
pub open spec fn posix_script(path: PathBuf, shebang: Shebang) -> PythonScript {
    PythonScript::Posix {
        path,
        shebang_end: shebang.end as usize,
        is_windowed: shebang.windowed,
        extra_shebang_content: match shebang.extra {
            None => None,
            Some((start, end)) => Some(Range { start: start as usize, end: end as usize }),
        },
    }
}

/// What the file at `path` is as a text file that a Python of that version runs: what its shebang
/// says.
pub open spec fn posix_detection(
    path: PathBuf,
    contents: Seq<u8>,
    version: PythonVersion,
) -> Result<Option<PythonScript>, DetectError> {
    match shebang(contents, version) {
        Err(e) => Err(e),
        Ok(None) => Ok(None),
        Ok(Some(s)) => Ok(Some(posix_script(path, s))),
    }
}

/// The subsystem of a Windows executable that runs without a console window.
pub const WINDOWS_GUI: u16 = 2;

/// The member of the zip archive that holds a Windows script.
pub const MAIN_MEMBER: &'static str = "__main__.py";

/// The bytes that are read as the executable of a Windows script: as many as the zip archive takes
/// up, as far as there are, from the position on that the archive's reader was left at.
pub open spec fn executable_image(contents: Seq<u8>, offset: int, position: int) -> Seq<u8> {
    let past = position + (contents.len() - offset);
    if position >= contents.len() {
        Seq::empty()
    } else if past >= contents.len() {
        contents.subrange(position, contents.len() as int)
    } else {
        contents.subrange(position, past)
    }
}

/// What the script at `path` is, given the subsystem that its executable asks for.
pub open spec fn windows_outcome(path: PathBuf, subsystem: Result<u16, PeError>) -> Result<
    Option<PythonScript>,
    DetectError,
> {
    match subsystem {
        Ok(s) => Ok(Some(PythonScript::Windows { path, is_windowed: s == WINDOWS_GUI })),
        Err(e) => Err(DetectError::BadExecutable(e)),
    }
}

/// What the file at `path` is as a Windows script: none where it is not executable or holds no
/// archive with the script, else what its executable says, which is read from where the archive's
/// reader was left.
pub open spec fn windows_detection(path: PathBuf, is_executable: bool, contents: Seq<u8>) -> Result<
    Option<PythonScript>,
    DetectError,
> {
    if is_executable && outside::zip_holds(contents, MAIN_MEMBER@) {
        windows_outcome(
            path,
            outside::pe_subsystem(
                executable_image(
                    contents,
                    outside::zip_offset(contents) as int,
                    outside::zip_position(contents, MAIN_MEMBER@) as int,
                ),
            ),
        )
    } else {
        Ok(None)
    }
}

/// What the file at `path` is as a script of a Python of that version: what it is as a text file, or
/// where that is nothing, what it is as a Windows script.
pub open spec fn detection(
    path: PathBuf,
    contents: Seq<u8>,
    version: PythonVersion,
    is_executable: bool,
) -> Result<Option<PythonScript>, DetectError> {
    match posix_detection(path, contents, version) {
        Ok(None) => windows_detection(path, is_executable, contents),
        found => found,
    }
}

/// A script that was found is one that can be given its placeholder shebang.
pub open spec fn is_wf_result(script: Result<Option<PythonScript>, DetectError>) -> bool {
    script matches Ok(Some(found)) ==> found.wf()
}

/// The shebang that a script has in a wheel.
pub open spec fn placeholder(is_windowed: bool) -> Seq<u8> {
    if is_windowed {
        bytes::ascii_bytes("#!pythonw"@)
    } else {
        bytes::ascii_bytes("#!python"@)
    }
}

/// The bytes of `contents` from index `from` up to index `to`, as far as there are.
pub open spec fn clipped(contents: Seq<u8>, from: int, to: int) -> Seq<u8> {
    if from >= contents.len() {
        Seq::empty()
    } else if to >= contents.len() {
        contents.subrange(from, contents.len() as int)
    } else {
        contents.subrange(from, to)
    }
}

/// The bytes of `contents` from index `from` on.
pub open spec fn tail(contents: Seq<u8>, from: int) -> Seq<u8> {
    clipped(contents, from, contents.len() as int)
}

/// A text file with the placeholder for its shebang: what follows the interpreter's name stays, less
/// the rest of the shebang.
pub open spec fn posix_re_written(
    contents: Seq<u8>,
    is_windowed: bool,
    end: int,
    extra: Option<(int, int)>,
) -> Seq<u8> {
    placeholder(is_windowed) + match extra {
        None => tail(contents, end),
        Some((from, to)) => clipped(contents, end, from) + tail(contents, to),
    }
}

/// Why a script cannot be given its placeholder shebang.
#[derive(Debug)]
pub enum RewriteError {
    /// The file cannot be read.
    Unreadable,
    /// The zip archive of a Windows script or the script in it cannot be read.
    BadArchive(zip::result::ZipError),
}

impl PythonScript {
    /// The rest of the shebang does not start before the interpreter's name ends.
    pub open spec fn wf(self) -> bool {
        match self {
            PythonScript::Posix { shebang_end, extra_shebang_content, .. } =>
                extra_shebang_content matches Some(range) ==> shebang_end <= range.start,
            PythonScript::Windows { .. } => true,
        }
    }

    /// The script with its placeholder shebang, where `contents` is what its file holds; none where
    /// the archive of a Windows script cannot be read.
    pub open spec fn re_written(self, contents: Seq<u8>) -> Option<Seq<u8>> {
        match self {
            PythonScript::Posix { shebang_end, is_windowed, extra_shebang_content, .. } => Some(
                posix_re_written(
                    contents,
                    is_windowed,
                    shebang_end as int,
                    match extra_shebang_content {
                        None => None,
                        Some(range) => Some((range.start as int, range.end as int)),
                    },
                ),
            ),
            PythonScript::Windows { is_windowed, .. } => match outside::zip_member(
                contents,
                MAIN_MEMBER@,
            ) {
                None => None,
                Some(main) => Some(placeholder(is_windowed) + main),
            },
        }
    }

    /// The script runs without a console window.
    pub open spec fn windowed(self) -> bool {
        match self {
            PythonScript::Posix { is_windowed, .. } => is_windowed,
            PythonScript::Windows { is_windowed, .. } => is_windowed,
        }
    }
}

/// The interpreter's name ends within its line.
pub proof fn lemma_interpreter_end(contents: Seq<u8>)
    requires
        2 <= contents.len(),
    ensures
        2 <= interpreter_end(contents) <= bytes::line_end(contents, 2) <= contents.len(),
        bytes::line_end(contents, 2) < contents.len() ==> interpreter_end(contents)
            < bytes::line_end(contents, 2),
{
    bytes::lemma_whitespace_from(contents, 2);
    bytes::lemma_line_end(contents, 2);
}

/// The closing line comes after where the search starts.
pub proof fn lemma_closing_end(contents: Seq<u8>, from: int)
    requires
        0 <= from <= contents.len(),
    ensures
        closing_end(contents, from) matches Ok(end) ==> from < end <= contents.len()
            && contents[end - 1] == 0x0a,
    decreases contents.len() - from,
{
    if from < contents.len() {
        bytes::lemma_line_end(contents, from);
        if line_at(contents, from) == bytes::ascii_bytes("'''\n"@) {
            reveal_strlit("'''\n");
            let end = bytes::line_end(contents, from);
            assert(line_at(contents, from)[3] == contents[end - 1]);
        }
        lemma_closing_end(contents, bytes::line_end(contents, from));
    }
}

/// The part that starts the interpreter lies within the file, behind the interpreter's name.
pub proof fn lemma_redirector(contents: Seq<u8>)
    requires
        2 <= contents.len(),
    ensures
        redirector(contents) matches Ok(Some((start, end))) ==> interpreter_end(contents) <= start
            < end < contents.len(),
        redirector_lines(contents) matches Ok(Some((opening, closing))) ==> bytes::line_end(
            contents,
            2,
        ) <= opening < closing <= contents.len() && contents[opening - 1] == 0x0a
            && contents[closing - 1] == 0x0a,
{
    let first = bytes::line_end(contents, 2);
    lemma_interpreter_end(contents);
    bytes::lemma_line_end(contents, 2);
    bytes::lemma_line_end(contents, first);
    let second = bytes::line_end(contents, first);
    bytes::lemma_line_end(contents, second);
    lemma_closing_end(contents, second);
    lemma_closing_end(contents, bytes::line_end(contents, second));
}

/// A shebang lies within the file: the rest of it starts no earlier than the interpreter's name
/// ends, and is not empty.
pub proof fn lemma_shebang(contents: Seq<u8>, version: PythonVersion)
    ensures
        shebang(contents, version) matches Ok(Some(s)) ==> {
            &&& 2 <= s.end <= contents.len()
            &&& s.end < contents.len() ==> bytes::is_whitespace(contents[s.end])
            &&& s.extra matches Some((from, to)) ==> s.end <= from < to < contents.len()
        },
{
    if 2 <= contents.len() {
        bytes::lemma_whitespace_from(contents, 2);
        lemma_redirector(contents);
    }
}

/// The text of the line from `from` to `to`, where it is UTF-8.
fn line_text(contents: &[u8], from: usize, to: usize) -> (text: Result<&str, DetectError>)
    requires
        from <= to <= contents@.len(),
        to == bytes::line_end(contents@, from as int),
    ensures
        match text {
            Ok(s) => vstd::utf8::valid_utf8(line_at(contents@, from as int)) && s@
                == vstd::utf8::decode_utf8(line_at(contents@, from as int)),
            Err(e) => !vstd::utf8::valid_utf8(line_at(contents@, from as int)) && e
                == DetectError::InvalidUtf8,
        },
{
    match outside::utf8_text(vstd::slice::slice_subrange(contents, from, to)) {
        Some(text) => Ok(text),
        None => Err(DetectError::InvalidUtf8),
    }
}

/// The index just past the first closing line from `from` on.
fn find_closing_end(contents: &[u8], from: usize) -> (end: Result<usize, DetectError>)
    requires
        from <= contents@.len(),
    ensures
        match closing_end(contents@, from as int) {
            Ok(e) => end matches Ok(found) && found == e,
            Err(e) => end matches Err(found) && found == e,
        },
{
    let mut at: usize = from;
    while at < contents.len()
        invariant
            at <= contents@.len(),
            closing_end(contents@, from as int) == closing_end(contents@, at as int),
        decreases contents@.len() - at,
    {
        let end: usize = bytes::find_line_end(contents, at);
        proof {
            bytes::lemma_line_end(contents@, at as int);
        }
        match line_text(contents, at, end) {
            Err(e) => {
                return Err(e);
            },
            Ok(_) => {},
        }
        proof {
            reveal_strlit("'''\n");
        }
        if bytes::same(
            vstd::slice::slice_subrange(contents, at, end),
            bytes::literal("'''\n"),
        ) {
            return Ok(end);
        }
        at = end;
    }
    Err(DetectError::Unterminated)
}

/// The part of a `/bin/sh` script that starts the Python interpreter.
fn find_redirector(contents: &[u8], shebang_end: usize) -> (found: Result<
    Option<Range<usize>>,
    DetectError,
>)
    requires
        2 <= contents@.len(),
        shebang_end == interpreter_end(contents@),
    ensures
        match redirector(contents@) {
            Err(e) => found matches Err(f) && f == e,
            Ok(None) => found matches Ok(None),
            Ok(Some((start, end))) => found matches Ok(Some(range)) && range.start == start
                && range.end == end,
        },
{
    proof {
        lemma_interpreter_end(contents@);
        lemma_redirector(contents@);
    }
    let first: usize = bytes::find_line_end(contents, 2);
    let mut start: usize = shebang_end;
    let mut opening: usize = first;
    let mut opening_end: usize = bytes::find_line_end(contents, first);
    proof {
        bytes::lemma_line_end(contents@, first as int);
        bytes::lemma_line_end(contents@, opening_end as int);
    }
    let mut text: &str = match line_text(contents, first, opening_end) {
        Err(e) => {
            return Err(e);
        },
        Ok(text) => text,
    };
    if outside::regex_is_match(outside::CODING_LINE, text) {
        start = shebang_end + (opening_end - first);
        opening = opening_end;
        opening_end = bytes::find_line_end(contents, opening);
        text = match line_text(contents, opening, opening_end) {
            Err(e) => {
                return Err(e);
            },
            Ok(text) => text,
        };
    }
    proof {
        reveal_strlit("'''': pshprs\n");
    }
    if !bytes::same(
        vstd::slice::slice_subrange(contents, opening, opening_end),
        bytes::literal("'''': pshprs\n"),
    ) && !outside::regex_is_match(outside::EXEC_LINE, text) {
        return Ok(None);
    }
    match find_closing_end(contents, opening_end) {
        Err(e) => Err(e),
        Ok(end) => Ok(Some(Range { start, end: start + (end - opening) })),
    }
}

/// Whether an interpreter's name is that of a Python of that version.
fn is_python(name: &[u8], version: PythonVersion) -> (r: bool)
    ensures
        r == names_python(name@, version),
{
    proof {
        reveal_strlit("/python");
        reveal_strlit("/pypy");
        reveal_strlit("pypy");
    }
    if bytes::ends_with(name, bytes::literal("/python")) || bytes::ends_with(
        name,
        bytes::literal("pypy"),
    ) {
        return true;
    }
    let python: Vec<u8> = version.with_major("/python");
    let pypy: Vec<u8> = version.with_major("/pypy");
    if bytes::ends_with(name, python.as_slice()) || bytes::ends_with(name, pypy.as_slice()) {
        return true;
    }
    let python: Vec<u8> = version.with_minor("/python");
    let pypy: Vec<u8> = version.with_minor("/pypy");
    bytes::ends_with(name, python.as_slice()) || bytes::ends_with(name, pypy.as_slice())
}

/// The shebang of a text file.
struct PosixShebang {
    shebang_end: usize,
    is_windowed: bool,
    extra_shebang_content: Option<Range<usize>>,
}

impl PosixShebang {
    /// The script at `path` with this shebang.
    spec fn script(self, path: PathBuf) -> PythonScript {
        PythonScript::Posix {
            path,
            shebang_end: self.shebang_end,
            is_windowed: self.is_windowed,
            extra_shebang_content: self.extra_shebang_content,
        }
    }

    /// The script at `path` with this shebang.
    fn at(self, path: PathBuf) -> (script: PythonScript)
        ensures
            script == self.script(path),
    {
        PythonScript::Posix {
            path,
            shebang_end: self.shebang_end,
            is_windowed: self.is_windowed,
            extra_shebang_content: self.extra_shebang_content,
        }
    }
}

/// The shebang of a text file that a Python of that version runs.
fn find_shebang(contents: &[u8], version: PythonVersion) -> (found: Result<
    Option<PosixShebang>,
    DetectError,
>)
    ensures
        match shebang(contents@, version) {
            Err(e) => found matches Err(f) && f == e,
            Ok(None) => found matches Ok(None),
            Ok(Some(s)) => found matches Ok(Some(f)) && forall|path: PathBuf| #[trigger]
                f.script(path) == posix_script(path, s),
        },
{
    if contents.len() < 2 {
        return Err(DetectError::UnexpectedEof);
    }
    proof {
        reveal_strlit("#!");
        reveal_strlit("python");
        reveal_strlit("pythonw");
        reveal_strlit("/bin/sh");
        lemma_interpreter_end(contents@);
    }
    if !bytes::same(vstd::slice::slice_subrange(contents, 0, 2), bytes::literal("#!")) {
        return Ok(None);
    }
    let shebang_end: usize = bytes::find_whitespace(contents, 2);
    let name: Vec<u8> = bytes::to_lowercase(
        vstd::slice::slice_subrange(contents, 2, shebang_end),
    );
    let mut extra_shebang_content: Option<Range<usize>> = None;
    let mut is_windowed = false;
    if !bytes::same(name.as_slice(), bytes::literal("python")) {
        if bytes::same(name.as_slice(), bytes::literal("pythonw")) {
            is_windowed = true;
        } else if bytes::same(name.as_slice(), bytes::literal("/bin/sh")) {
            match find_redirector(contents, shebang_end) {
                Err(e) => {
                    return Err(e);
                },
                Ok(None) => {
                    return Ok(None);
                },
                Ok(Some(range)) => {
                    extra_shebang_content = Some(range);
                },
            }
        } else if !is_python(name.as_slice(), version) {
            return Ok(None);
        }
    }
    Ok(Some(PosixShebang { shebang_end, is_windowed, extra_shebang_content }))
}

impl PythonScript {
    /// Tells whether the file at `path`, which holds `contents`, is a text file that a Python of
    /// that version runs.
    pub fn detect_posix(path: PathBuf, contents: &[u8], version: PythonVersion) -> (script: Result<
        Option<PythonScript>,
        DetectError,
    >)
        ensures
            script == posix_detection(path, contents@, version),
            is_wf_result(script),
    {
        proof {
            lemma_shebang(contents@, version);
            assert(contents@.len() == contents.len());
        }
        match find_shebang(contents, version) {
            Err(e) => Err(e),
            Ok(None) => Ok(None),
            Ok(Some(found)) => Ok(Some(found.at(path))),
        }
    }

    /// Tells whether the file at `path`, which holds `contents`, is an executable with a Python
    /// script in a zip archive behind it.
    pub fn detect_windows(path: PathBuf, is_executable: bool, contents: &[u8]) -> (script: Result<
        Option<PythonScript>,
        DetectError,
    >)
        ensures
            script == windows_detection(path, is_executable, contents@),
            is_wf_result(script),
    {
        if !is_executable {
            return Ok(None);
        }
        match outside::zip_probe(contents, MAIN_MEMBER) {
            None => Ok(None),
            Some(probe) => windows_script(
                path,
                read_subsystem(find_executable_image(contents, probe)),
            ),
        }
    }

    /// Tells whether the file at `path`, which holds `contents`, is a script that a Python of that
    /// version runs: first as a text file, then as an executable.
    pub fn detect(
        path: PathBuf,
        contents: &[u8],
        version: PythonVersion,
        is_executable: bool,
    ) -> (script: Result<Option<PythonScript>, DetectError>)
        ensures
            script == detection(path, contents@, version, is_executable),
            is_wf_result(script),
    {
        proof {
            lemma_shebang(contents@, version);
            assert(contents@.len() == contents.len());
        }
        match find_shebang(contents, version) {
            Err(e) => Err(e),
            Ok(None) => Self::detect_windows(path, is_executable, contents),
            Ok(Some(found)) => Ok(Some(found.at(path))),
        }
    }

    /// Writes the script with its placeholder shebang at the end of `sink`, where `contents` is what
    /// its file holds, or none where the file cannot be read. The placeholder comes first and stays
    /// there where the rest fails, and so does what was read of a script in an archive by then.
    pub fn re_write(&self, contents: Option<&[u8]>, sink: &mut Vec<u8>) -> (done: Result<
        (),
        RewriteError,
    >)
        requires
            self.wf(),
        ensures
            match contents {
                None => done matches Err(RewriteError::Unreadable) && final(sink)@ == old(sink)@
                    + placeholder(self.windowed()),
                Some(c) => match self.re_written(c@) {
                    Some(written) => done is Ok && final(sink)@ == old(sink)@ + written,
                    None => {
                        &&& done matches Err(RewriteError::BadArchive(_))
                        &&& (old(sink)@ + placeholder(self.windowed())).is_prefix_of(final(sink)@)
                        &&& !outside::zip_holds(c@, MAIN_MEMBER@) ==> final(sink)@ == old(sink)@
                            + placeholder(self.windowed())
                    },
                },
            },
    {
        match self {
            PythonScript::Posix { shebang_end, is_windowed, extra_shebang_content, .. } => {
                write_placeholder(*is_windowed, sink);
                let contents: &[u8] = match contents {
                    None => {
                        return Err(RewriteError::Unreadable);
                    },
                    Some(contents) => contents,
                };
                match extra_shebang_content {
                    None => {
                        bytes::append(sink, clip(contents, *shebang_end, contents.len()));
                    },
                    Some(skip) => {
                        bytes::append(sink, clip(contents, *shebang_end, skip.start));
                        bytes::append(sink, clip(contents, skip.end, contents.len()));
                    },
                }
                assert(sink@ =~= old(sink)@ + self.re_written(contents@)->0);
                Ok(())
            },
            PythonScript::Windows { is_windowed, .. } => {
                write_placeholder(*is_windowed, sink);
                let contents: &[u8] = match contents {
                    None => {
                        return Err(RewriteError::Unreadable);
                    },
                    Some(contents) => contents,
                };
                match outside::zip_copy(contents, MAIN_MEMBER, sink) {
                    Err(e) => Err(RewriteError::BadArchive(e)),
                    Ok(()) => {
                        assert(sink@ =~= old(sink)@ + self.re_written(contents@)->0);
                        Ok(())
                    },
                }
            },
        }
    }
}

/// The bytes from index `from` up to index `to`, as far as there are.
fn clip(contents: &[u8], from: usize, to: usize) -> (part: &[u8])
    requires
        from <= to || contents@.len() <= to,
    ensures
        part@ == clipped(contents@, from as int, to as int),
{
    let len: usize = contents.len();
    let from: usize = if from < len { from } else { len };
    let to: usize = if to < len { to } else { len };
    let part = vstd::slice::slice_subrange(contents, from, to);
    assert(from == len ==> part@ =~= Seq::<u8>::empty());
    part
}

/// Writes the placeholder shebang at the end of `sink`.
fn write_placeholder(is_windowed: bool, sink: &mut Vec<u8>)
    ensures
        final(sink)@ == old(sink)@ + placeholder(is_windowed),
{
    proof {
        reveal_strlit("#!pythonw");
        reveal_strlit("#!python");
    }
    if is_windowed {
        bytes::append(sink, bytes::literal("#!pythonw"));
    } else {
        bytes::append(sink, bytes::literal("#!python"));
    }
}

/// The bytes to read as the executable of a Windows script, given what was found of its archive.
pub fn find_executable_image(contents: &[u8], probe: ZipProbe) -> (image: &[u8])
    requires
        probe.offset <= contents@.len(),
    ensures
        image@ == executable_image(contents@, probe.offset as int, probe.position as int),
{
    let len: usize = contents.len();
    if probe.position >= len as u64 {
        let image = vstd::slice::slice_subrange(contents, len, len);
        assert(image@ =~= Seq::<u8>::empty());
        return image;
    }
    let position: usize = probe.position as usize;
    let offset: usize = probe.offset as usize;
    let past: usize = if position >= offset {
        len
    } else {
        len - (offset - position)
    };
    vstd::slice::slice_subrange(contents, position, past)
}

/// The subsystem that an executable asks for.
fn read_subsystem(image: &[u8]) -> (subsystem: Result<u16, PeError>)
    ensures
        subsystem == outside::pe_subsystem(image@),
{
    let lead: usize = if image.len() > 60 && image[60] % 8 == 4 {
        4
    } else {
        0
    };
    outside::pe_read_subsystem(image, lead)
}

/// The script at `path`, given the subsystem that its executable asks for.
pub fn windows_script(path: PathBuf, subsystem: Result<u16, PeError>) -> (script: Result<
    Option<PythonScript>,
    DetectError,
>)
    ensures
        script == windows_outcome(path, subsystem),
{
    match subsystem {
        Ok(subsystem) => Ok(
            Some(PythonScript::Windows { path, is_windowed: subsystem == WINDOWS_GUI }),
        ),
        Err(e) => Err(DetectError::BadExecutable(e)),
    }
}

} // verus!
