//! What holds of telling scripts from other files: the results of the functions, said of the bytes
//! of the file.

use std::ops::Range;
use std::path::PathBuf;

use vstd::prelude::*;

use crate::byte_laws::{
    lemma_is_numeral, lemma_line, lemma_lowercase, lemma_numeral, lemma_spells, lemma_spells_at,
    lemma_word,
};
use crate::bytes;
use crate::outside;
use crate::outside::{PeError, ZipProbe};
use crate::script;
use crate::script::{DetectError, PythonScript, RewriteError};
use crate::terms::{
    folds_to, is_line, is_major, is_major_minor, is_numeral, is_word, reads, spells_at,
};
use crate::version::PythonVersion;

verus! {

/// The bytes from `from` up to `end` end with the text, whatever the case of its letters, and then
/// with nothing, the major version, or the major and minor version.
pub open spec fn ends_as(
    s: Seq<u8>,
    from: int,
    end: int,
    text: Seq<char>,
    version: PythonVersion,
) -> bool {
    exists|at: int|
        {
            &&& from <= at
            &&& at + text.len() <= end
            &&& #[trigger] reads(s, at, at + text.len(), text)
            &&& {
                ||| at + text.len() == end
                ||| is_major(s, at + text.len(), end, version)
                ||| is_major_minor(s, at + text.len(), end, version)
            }
        }
}

/// The interpreter's name, which ends at `end`, is that of a Python: a file `python` or `pypy` in
/// some directory, with nothing, the major version or the whole version behind; or anything that
/// ends with `pypy`.
pub open spec fn is_python_name(contents: Seq<u8>, end: int, version: PythonVersion) -> bool {
    ||| ends_as(contents, 2, end, "/python"@, version)
    ||| ends_as(contents, 2, end, "/pypy"@, version)
    ||| end >= 6 && reads(contents, end - 4, end, "pypy"@)
}

/// The text file at that path, with nothing more in its shebang than the interpreter's name.
pub open spec fn is_one_line_script(
    script: Result<Option<PythonScript>, DetectError>,
    path: PathBuf,
    end: int,
    windowed: bool,
) -> bool {
    &&& script matches Ok(Some(PythonScript::Posix {
        path: p,
        shebang_end,
        is_windowed,
        extra_shebang_content: None,
    }))
    &&& p == path
    &&& shebang_end == end
    &&& is_windowed == windowed
}

/// What lower case bytes end with, in terms of the bytes.
proof fn lemma_tail(s: Seq<u8>, from: int, end: int, text: Seq<char>, t: Seq<u8>)
    requires
        0 <= from <= end <= s.len(),
        forall|i: int| 0 <= i < text.len() ==> !(0x41 <= #[trigger] text[i] as u8 <= 0x5a),
        forall|i: int| 0 <= i < t.len() ==> #[trigger] t[i] <= 0x39,
    ensures
        ({
            let at = end - t.len() - text.len();
            bytes::has_suffix(
                bytes::lowercase(s.subrange(from, end)),
                bytes::ascii_bytes(text) + t,
            ) <==> from <= at && reads(s, at, at + text.len(), text) && s.subrange(
                at + text.len(),
                end,
            ) == t
        }),
{
    let low = bytes::lowercase(s.subrange(from, end));
    let suffix = bytes::ascii_bytes(text) + t;
    let at = end - t.len() - text.len();
    let mid = at + text.len();
    if from <= at {
        let tail = low.subrange(low.len() - suffix.len(), low.len() as int);
        lemma_lowercase(s, at, mid, text);
        let low_name = bytes::lowercase(s.subrange(at, mid));
        let low_rest = bytes::lowercase(s.subrange(mid, end));
        assert(tail =~= low_name + low_rest);
        if tail == suffix {
            assert(tail.subrange(0, text.len() as int) =~= low_name);
            assert(suffix.subrange(0, text.len() as int) =~= bytes::ascii_bytes(text));
            assert(tail.subrange(text.len() as int, tail.len() as int) =~= low_rest);
            assert(suffix.subrange(text.len() as int, suffix.len() as int) =~= t);
            assert forall|i: int| 0 <= i < t.len() implies s.subrange(mid, end)[i] == t[i] by {
                assert(low_rest[i] == t[i]);
                assert(low_rest[i] == bytes::lower(s.subrange(mid, end)[i]));
            }
            assert(s.subrange(mid, end) =~= t);
        }
        if reads(s, at, mid, text) && s.subrange(mid, end) == t {
            assert(low_rest =~= t);
            assert(tail =~= suffix);
        }
    }
}

/// Names with versions, in terms of the bytes.
proof fn lemma_ends_as(contents: Seq<u8>, end: int, text: Seq<char>, version: PythonVersion)
    requires
        2 <= end <= contents.len(),
        forall|i: int| 0 <= i < text.len() ==> !(0x41 <= #[trigger] text[i] as u8 <= 0x5a),
    ensures
        ({
            let low = bytes::lowercase(contents.subrange(2, end));
            ends_as(contents, 2, end, text, version) <==> {
                ||| bytes::has_suffix(low, bytes::ascii_bytes(text))
                ||| bytes::has_suffix(low, version.major_name(text))
                ||| bytes::has_suffix(low, version.minor_name(text))
            }
        }),
{
    let s = contents;
    let low = bytes::lowercase(s.subrange(2, end));
    let none = Seq::<u8>::empty();
    let major = bytes::decimal(version.major as nat);
    let minor = bytes::decimal(version.minor as nat);
    let both = major + bytes::ascii_bytes("."@) + minor;
    reveal_strlit(".");
    crate::byte_laws::lemma_decimal(version.major as nat);
    crate::byte_laws::lemma_decimal(version.minor as nat);
    assert forall|i: int| 0 <= i < both.len() implies #[trigger] both[i] <= 0x39 by {
        if i < major.len() {
            assert(both[i] == major[i]);
        } else if i > major.len() {
            assert(both[i] == minor[i - major.len() - 1]);
        }
    }
    lemma_tail(s, 2, end, text, none);
    lemma_tail(s, 2, end, text, major);
    lemma_tail(s, 2, end, text, both);
    assert(bytes::ascii_bytes(text) + none =~= bytes::ascii_bytes(text));
    assert(version.minor_name(text) =~= bytes::ascii_bytes(text) + both);
    let n = text.len() as int;
    if bytes::has_suffix(low, bytes::ascii_bytes(text)) {
        assert(reads(s, end - n, end - n + n, text));
    }
    if bytes::has_suffix(low, version.major_name(text)) {
        let at = end - major.len() - n;
        assert(reads(s, at, at + n, text));
        lemma_is_numeral(s, at + n, end, version.major as nat);
    }
    if bytes::has_suffix(low, version.minor_name(text)) {
        let at = end - both.len() - n;
        let mid = at + n;
        let dot = mid + major.len();
        assert(reads(s, at, at + n, text));
        let part = s.subrange(mid, end);
        assert(s.subrange(mid, dot) =~= part.subrange(0, major.len() as int));
        assert(both.subrange(0, major.len() as int) =~= major);
        lemma_is_numeral(s, mid, dot, version.major as nat);
        assert(part[major.len() as int] == s[dot]);
        assert(both[major.len() as int] == 0x2e);
        assert(s.subrange(dot + 1, end) =~= part.subrange((major.len() + 1) as int, part.len() as int));
        assert(both.subrange((major.len() + 1) as int, both.len() as int) =~= minor);
        lemma_is_numeral(s, dot + 1, end, version.minor as nat);
        assert(is_major_minor(s, mid, end, version));
    }
    if ends_as(s, 2, end, text, version) {
        let at = choose|at: int|
            {
                &&& 2 <= at
                &&& at + text.len() <= end
                &&& #[trigger] reads(s, at, at + text.len(), text)
                &&& {
                    ||| at + text.len() == end
                    ||| is_major(s, at + text.len(), end, version)
                    ||| is_major_minor(s, at + text.len(), end, version)
                }
            };
        let mid = at + n;
        if mid == end {
            assert(s.subrange(mid, end) =~= none);
        } else if is_major(s, mid, end, version) {
            lemma_numeral(s, mid, end, version.major as nat);
            assert(s.subrange(mid, end).len() == major.len());
        } else {
            let dot = choose|dot: int|
                {
                    &&& #[trigger] is_numeral(s, mid, dot, version.major as int)
                    &&& dot < s.len()
                    &&& s[dot] == 0x2e
                    &&& is_numeral(s, dot + 1, end, version.minor as int)
                };
            lemma_numeral(s, mid, dot, version.major as nat);
            lemma_numeral(s, dot + 1, end, version.minor as nat);
            assert(bytes::ascii_bytes("."@) =~= seq![0x2eu8]);
            assert(s.subrange(mid, end) =~= s.subrange(mid, dot) + seq![s[dot]] + s.subrange(
                dot + 1,
                end,
            ));
            assert(s.subrange(mid, end) == both);
            assert(s.subrange(mid, end).len() == both.len());
        }
    }
}

/// The names that are looked for have no upper case letters.
proof fn lemma_names()
    ensures
        forall|i: int| 0 <= i < "/python"@.len() ==> !(0x41 <= #[trigger] "/python"@[i] as u8 <= 0x5a),
        forall|i: int| 0 <= i < "/pypy"@.len() ==> !(0x41 <= #[trigger] "/pypy"@[i] as u8 <= 0x5a),
        forall|i: int| 0 <= i < "pypy"@.len() ==> !(0x41 <= #[trigger] "pypy"@[i] as u8 <= 0x5a),
        forall|i: int| 0 <= i < "python"@.len() ==> !(0x41 <= #[trigger] "python"@[i] as u8 <= 0x5a),
        forall|i: int|
            0 <= i < "pythonw"@.len() ==> !(0x41 <= #[trigger] "pythonw"@[i] as u8 <= 0x5a),
        forall|i: int|
            0 <= i < "/bin/sh"@.len() ==> !(0x41 <= #[trigger] "/bin/sh"@[i] as u8 <= 0x5a),
        "/python"@.len() == 7,
        "/pypy"@.len() == 5,
        "pypy"@.len() == 4,
        "python"@.len() == 6,
        "pythonw"@.len() == 7,
        "/bin/sh"@.len() == 7,
{
    reveal_strlit("/python");
    reveal_strlit("/pypy");
    reveal_strlit("pypy");
    reveal_strlit("python");
    reveal_strlit("pythonw");
    reveal_strlit("/bin/sh");
}

/// The names of Pythons, in terms of the bytes.
proof fn lemma_names_python(contents: Seq<u8>, end: int, version: PythonVersion)
    requires
        2 <= end <= contents.len(),
    ensures
        script::names_python(bytes::lowercase(contents.subrange(2, end)), version)
            <==> is_python_name(contents, end, version),
{
    lemma_names();
    reveal_strlit("/pypy");
    reveal_strlit("pypy");
    let low = bytes::lowercase(contents.subrange(2, end));
    lemma_ends_as(contents, end, "/python"@, version);
    lemma_ends_as(contents, end, "/pypy"@, version);
    let none = Seq::<u8>::empty();
    lemma_tail(contents, 2, end, "pypy"@, none);
    assert(bytes::ascii_bytes("pypy"@) + none =~= bytes::ascii_bytes("pypy"@));
    lemma_tail(contents, 2, end, "/pypy"@, none);
    assert(bytes::ascii_bytes("/pypy"@) + none =~= bytes::ascii_bytes("/pypy"@));
    assert(contents.subrange(end, end) =~= none);
    if bytes::has_suffix(low, bytes::ascii_bytes("/pypy"@)) {
        let at = end - 5;
        assert forall|i: int| 0 <= i < 4 implies folds_to(
            #[trigger] contents[end - 4 + i],
            "pypy"@[i],
        ) by {
            assert(folds_to(contents[at + (i + 1)], "/pypy"@[i + 1]));
        }
        assert(reads(contents, end - 4, end, "pypy"@));
    }
}

/// A file of less than two bytes cannot be told to be a script or not, and one that does not start
/// with `#!` is none.
pub proof fn law_scripts_start_with_a_shebang(
    path: PathBuf,
    contents: &[u8],
    version: PythonVersion,
    found: Result<Option<PythonScript>, DetectError>,
)
    requires
        call_ensures(PythonScript::detect_posix, (path, contents, version), found),
    ensures
        contents@.len() < 2 <==> found == Err::<Option<PythonScript>, DetectError>(
            DetectError::UnexpectedEof,
        ),
        contents@.len() >= 2 && !(contents@[0] == 0x23 && contents@[1] == 0x21) ==> found matches Ok(
            None,
        ),
{
    reveal_strlit("#!");
    assert(contents@.len() == contents.len());
    if contents@.len() >= 2 {
        assert(contents@.subrange(0, 2)[0] == contents@[0]);
        assert(contents@.subrange(0, 2)[1] == contents@[1]);
        assert(bytes::ascii_bytes("#!"@)[0] == 0x23);
        assert(bytes::ascii_bytes("#!"@)[1] == 0x21);
        lemma_sh_errors(contents@);
    }
}

/// Why a `/bin/sh` script cannot be told to be one of Python.
proof fn lemma_sh_errors(contents: Seq<u8>)
    requires
        2 <= contents.len(),
    ensures
        script::redirector(contents) matches Err(e) ==> e == DetectError::InvalidUtf8 || e
            == DetectError::Unterminated,
{
    let first = bytes::line_end(contents, 2);
    bytes::lemma_line_end(contents, 2);
    bytes::lemma_line_end(contents, first);
    let second = bytes::line_end(contents, first);
    bytes::lemma_line_end(contents, second);
    lemma_closing_errors(contents, second);
    lemma_closing_errors(contents, bytes::line_end(contents, second));
}

/// Why no closing line is found.
proof fn lemma_closing_errors(contents: Seq<u8>, from: int)
    requires
        0 <= from <= contents.len(),
    ensures
        script::closing_end(contents, from) matches Err(e) ==> e == DetectError::InvalidUtf8 || e
            == DetectError::Unterminated,
    decreases contents.len() - from,
{
    if from < contents.len() {
        bytes::lemma_line_end(contents, from);
        lemma_closing_errors(contents, bytes::line_end(contents, from));
    }
}

/// Which interpreters make a script. Of a file that starts with `#!` and an interpreter's name: the
/// placeholders `python` and `pythonw` do, the latter for one without a console window, and so does
/// a Python with no version in its name or with that version. In each of these cases nothing but the
/// name is replaced. No other name does but `/bin/sh`.
pub proof fn law_scripts_are_told_by_their_interpreter(
    path: PathBuf,
    contents: &[u8],
    version: PythonVersion,
    found: Result<Option<PythonScript>, DetectError>,
    end: int,
)
    requires
        call_ensures(PythonScript::detect_posix, (path, contents, version), found),
        contents@.len() >= 2,
        contents@[0] == 0x23,
        contents@[1] == 0x21,
        is_word(contents@, 2, end),
    ensures
        reads(contents@, 2, end, "python"@) ==> is_one_line_script(found, path, end, false),
        reads(contents@, 2, end, "pythonw"@) ==> is_one_line_script(found, path, end, true),
        !reads(contents@, 2, end, "python"@) && !reads(contents@, 2, end, "pythonw"@) && !reads(
            contents@,
            2,
            end,
            "/bin/sh"@,
        ) ==> if is_python_name(contents@, end, version) {
            is_one_line_script(found, path, end, false)
        } else {
            found matches Ok(None)
        },
{
    let s = contents@;
    assert(s.len() == contents.len());
    reveal_strlit("#!");
    lemma_names();
    assert(s.subrange(0, 2) =~= bytes::ascii_bytes("#!"@));
    lemma_word(s, 2, end);
    lemma_lowercase(s, 2, end, "python"@);
    lemma_lowercase(s, 2, end, "pythonw"@);
    lemma_lowercase(s, 2, end, "/bin/sh"@);
    lemma_names_python(s, end, version);
}


/// The characters from index `at` on are those of the text.
pub open spec fn says_at(line: Seq<char>, at: int, text: Seq<char>) -> bool {
    &&& 0 <= at
    &&& at + text.len() <= line.len()
    &&& forall|i: int| 0 <= i < text.len() ==> #[trigger] line[at + i] == text[i]
}

/// The line declares an encoding by a comment at `hash`, the word `coding` at `word` and the name of
/// the encoding at `name`: before the comment stand only blanks, tabs and form feeds, behind the word
/// a colon or an equals sign and then only blanks and tabs, and the name starts with a letter, a
/// digit, a hyphen, an underscore or a dot.
pub open spec fn declares_encoding_at(line: Seq<char>, hash: int, word: int, name: int) -> bool {
    &&& 0 <= hash < word
    &&& forall|i: int|
        0 <= i < hash ==> {
            ||| #[trigger] line[i] == ' '
            ||| line[i] == '\t'
            ||| line[i] == '\x0c'
        }
    &&& line[hash] == '#'
    &&& forall|i: int| hash < i < word ==> #[trigger] line[i] != '\n'
    &&& says_at(line, word, "coding:"@) || says_at(line, word, "coding="@)
    &&& word + 7 <= name < line.len()
    &&& forall|i: int| word + 7 <= i < name ==> (#[trigger] line[i] == ' ' || line[i] == '\t')
    &&& {
        ||| 'a' <= line[name] <= 'z'
        ||| 'A' <= line[name] <= 'Z'
        ||| '0' <= line[name] <= '9'
        ||| line[name] == '-'
        ||| line[name] == '_'
        ||| line[name] == '.'
    }
}

/// The line declares an encoding.
pub open spec fn declares_encoding(line: Seq<char>) -> bool {
    exists|hash: int, word: int, name: int| #[trigger]
        declares_encoding_at(line, hash, word, name)
}

/// The line has `/bin/sh` start a Python: it starts with `'''exec' ` and names `python` or `pypy`
/// after that.
pub open spec fn starts_python(line: Seq<char>) -> bool {
    &&& says_at(line, 0, "'''exec' "@)
    &&& exists|at: int|
        {
            &&& 9 <= at
            &&& forall|i: int| 9 <= i < at ==> #[trigger] line[i] != '\n'
            &&& #[trigger] says_at(line, at, "python"@) || says_at(line, at, "pypy"@)
        }
}

/// Characters that say a text somewhere hold that text there.
proof fn lemma_says_at(line: Seq<char>, at: int, text: Seq<char>)
    ensures
        says_at(line, at, text) <==> outside::holds_at(line, at, text),
{
    if 0 <= at && at + text.len() <= line.len() {
        let part = line.subrange(at, at + text.len());
        if says_at(line, at, text) {
            assert forall|i: int| 0 <= i < part.len() implies part[i] == text[i] by {
                assert(line[at + i] == text[i]);
            }
            assert(part =~= text);
        }
        if part == text {
            assert forall|i: int| 0 <= i < text.len() implies #[trigger] line[at + i] == text[i] by {
                assert(part[i] == line[at + i]);
            }
        }
    }
}

/// The lines that declare an encoding.
pub proof fn law_coding_lines(line: Seq<char>)
    ensures
        outside::declares_coding(line) <==> declares_encoding(line),
{
    reveal_strlit("coding");
    reveal_strlit("coding:");
    reveal_strlit("coding=");
    if outside::declares_coding(line) {
        let (hash, word, name) = choose|hash: int, word: int, name: int| #[trigger]
            outside::declares_coding_at(line, hash, word, name);
        let part = line.subrange(word, word + 6);
        assert forall|i: int| 0 <= i < 6 implies #[trigger] line[word + i] == "coding"@[i] by {
            assert(part[i] == line[word + i]);
        }
        if line[word + 6] == ':' {
            assert(says_at(line, word, "coding:"@));
        } else {
            assert(says_at(line, word, "coding="@));
        }
        assert(outside::is_encoding_char(line[name]));
        assert(declares_encoding_at(line, hash, word, name));
    }
    if declares_encoding(line) {
        let (hash, word, name) = choose|hash: int, word: int, name: int| #[trigger]
            declares_encoding_at(line, hash, word, name);
        let part = line.subrange(word, word + 6);
        if says_at(line, word, "coding:"@) {
            assert(line[word + 6] == "coding:"@[6]);
            assert forall|i: int| 0 <= i < 6 implies part[i] == "coding"@[i] by {
                assert(line[word + i] == "coding:"@[i]);
            }
        } else {
            assert(line[word + 6] == "coding="@[6]);
            assert forall|i: int| 0 <= i < 6 implies part[i] == "coding"@[i] by {
                assert(line[word + i] == "coding="@[i]);
            }
        }
        assert(part =~= "coding"@);
        assert(outside::declares_coding_at(line, hash, word, name));
    }
}

/// The lines that have `/bin/sh` start a Python.
pub proof fn law_exec_lines(line: Seq<char>)
    ensures
        outside::execs_python(line) <==> starts_python(line),
{
    reveal_strlit("'''exec' ");
    lemma_says_at(line, 0, "'''exec' "@);
    if outside::execs_python(line) {
        let at = choose|at: int|
            {
                &&& "'''exec' "@.len() <= at
                &&& forall|i: int| "'''exec' "@.len() <= i < at ==> #[trigger] line[i] != '\n'
                &&& #[trigger] outside::holds_at(line, at, "python"@) || outside::holds_at(
                    line,
                    at,
                    "pypy"@,
                )
            };
        lemma_says_at(line, at, "python"@);
        lemma_says_at(line, at, "pypy"@);
        assert(says_at(line, at, "python"@) || says_at(line, at, "pypy"@));
    }
    if starts_python(line) {
        let at = choose|at: int|
            {
                &&& 9 <= at
                &&& forall|i: int| 9 <= i < at ==> #[trigger] line[i] != '\n'
                &&& #[trigger] says_at(line, at, "python"@) || says_at(line, at, "pypy"@)
            };
        lemma_says_at(line, at, "python"@);
        lemma_says_at(line, at, "pypy"@);
        assert(outside::holds_at(line, at, "python"@) || outside::holds_at(line, at, "pypy"@));
    }
}

/// A line starts at `i`, given that one starts at `after`.
pub open spec fn starts_line(s: Seq<u8>, after: int, i: int) -> bool {
    i == after || (i > after && s[i - 1] == 0x0a)
}

/// No line that starts at or after `after` and before `to` is `'''`.
pub open spec fn none_closes(s: Seq<u8>, after: int, to: int) -> bool {
    forall|i: int|
        after <= i < to && starts_line(s, after, i) ==> !#[trigger] spells_at(s, i, "'''\n"@)
}

/// Every line that starts at or after `after` and ends at or before `to` is UTF-8.
pub open spec fn are_text(s: Seq<u8>, after: int, to: int) -> bool {
    forall|a: int, b: int|
        after <= a < b <= to && starts_line(s, after, a) && #[trigger] is_line(s, a, b)
            ==> vstd::utf8::valid_utf8(s.subrange(a, b))
}

/// The first line `'''` from `after` on ends at `closing`, and every line up to it is UTF-8.
pub open spec fn closes(s: Seq<u8>, after: int, closing: int) -> bool {
    &&& after <= closing - 4
    &&& starts_line(s, after, closing - 4)
    &&& spells_at(s, closing - 4, "'''\n"@)
    &&& none_closes(s, after, closing - 4)
    &&& are_text(s, after, closing)
}

/// The line from `a` up to `b` is not UTF-8, and those before it from `after` on are, none of them
/// being `'''`.
pub open spec fn breaks_off(s: Seq<u8>, after: int, a: int, b: int) -> bool {
    &&& after <= a < b
    &&& starts_line(s, after, a)
    &&& is_line(s, a, b)
    &&& !vstd::utf8::valid_utf8(s.subrange(a, b))
    &&& none_closes(s, after, a)
    &&& are_text(s, after, a)
}

/// The line at `from` is `'''` if and only if the bytes there are.
proof fn lemma_closing_line(s: Seq<u8>, from: int)
    requires
        0 <= from < s.len(),
    ensures
        script::line_at(s, from) == bytes::ascii_bytes("'''\n"@) <==> spells_at(s, from, "'''\n"@),
        spells_at(s, from, "'''\n"@) ==> bytes::line_end(s, from) == from + 4,
{
    reveal_strlit("'''\n");
    bytes::lemma_line_end(s, from);
    let e = bytes::line_end(s, from);
    if script::line_at(s, from) == bytes::ascii_bytes("'''\n"@) {
        assert(script::line_at(s, from).len() == e - from);
        assert(bytes::ascii_bytes("'''\n"@).len() == 4);
        lemma_spells_at(s, from, "'''\n"@);
    }
    if spells_at(s, from, "'''\n"@) {
        assert(s[from + 0] == 0x27);
        assert(s[from + 1] == 0x27);
        assert(s[from + 2] == 0x27);
        assert(s[from + 3] == 0x0a);
        assert(is_line(s, from, from + 4));
        lemma_line(s, from, from + 4);
        lemma_spells_at(s, from, "'''\n"@);
    }
}

/// Where lines start behind a line.
proof fn lemma_line_before(s: Seq<u8>, from: int, e: int)
    requires
        0 <= from < s.len(),
        is_line(s, from, e),
    ensures
        forall|i: int| from < i < e ==> !starts_line(s, from, i),
        forall|i: int| e <= i < s.len() ==> (starts_line(s, from, i) <==> starts_line(s, e, i)),
{
}

/// What the search for the closing line finds.
proof fn lemma_closing(s: Seq<u8>, from: int)
    requires
        0 <= from <= s.len(),
    ensures
        match script::closing_end(s, from) {
            Ok(closing) => closes(s, from, closing),
            Err(DetectError::Unterminated) => none_closes(s, from, s.len() as int) && are_text(
                s,
                from,
                s.len() as int,
            ),
            Err(DetectError::InvalidUtf8) => exists|a: int, b: int| breaks_off(s, from, a, b),
            Err(_) => false,
        },
    decreases s.len() - from,
{
    reveal_strlit("'''\n");
    if from < s.len() {
        bytes::lemma_line_end(s, from);
        let e = bytes::line_end(s, from);
        lemma_closing_line(s, from);
        assert(is_line(s, from, e));
        lemma_line_before(s, from, e);
        assert forall|b: int| #[trigger] is_line(s, from, b) implies b == e by {
            lemma_line(s, from, b);
        }
        if !vstd::utf8::valid_utf8(script::line_at(s, from)) {
            assert(breaks_off(s, from, from, e));
        } else if script::line_at(s, from) == bytes::ascii_bytes("'''\n"@) {
            assert(closes(s, from, e));
        } else {
            lemma_closing(s, e);
            assert(vstd::utf8::valid_utf8(s.subrange(from, e)));
            match script::closing_end(s, e) {
                Ok(closing) => {
                    assert(starts_line(s, from, closing - 4));
                    assert(closes(s, from, closing));
                },
                Err(DetectError::Unterminated) => {
                    assert(none_closes(s, from, s.len() as int));
                },
                Err(_) => {
                    let (a, b) = choose|a: int, b: int| breaks_off(s, e, a, b);
                    assert(starts_line(s, from, a));
                    assert(breaks_off(s, from, a, b));
                },
            }
        }
    }
}

/// The closing line that comes first is the one that is found.
proof fn lemma_closes(s: Seq<u8>, from: int, closing: int)
    requires
        0 <= from <= s.len(),
        closes(s, from, closing),
    ensures
        script::closing_end(s, from) == Ok::<int, DetectError>(closing),
    decreases s.len() - from,
{
    reveal_strlit("'''\n");
    bytes::lemma_line_end(s, from);
    let e = bytes::line_end(s, from);
    lemma_closing_line(s, from);
    assert(is_line(s, from, e));
    lemma_line_before(s, from, e);
    if closing - 4 != from {
        assert(!spells_at(s, from, "'''\n"@));
        assert(closing - 4 >= e);
        assert forall|a: int, b: int|
            e <= a < b <= closing && starts_line(s, e, a) && #[trigger] is_line(s, a, b) implies
            vstd::utf8::valid_utf8(s.subrange(a, b)) by {
            assert(starts_line(s, from, a));
        }
        assert forall|i: int| e <= i < closing - 4 && starts_line(s, e, i) implies
            !#[trigger] spells_at(s, i, "'''\n"@) by {
            assert(starts_line(s, from, i));
        }
        assert(closes(s, e, closing));
        lemma_closes(s, e, closing);
    }
}

/// Which of the outcomes of the search for the closing line there is.
proof fn lemma_closing_is(s: Seq<u8>, from: int)
    requires
        0 <= from <= s.len(),
    ensures
        forall|c: int|
            script::closing_end(s, from) == Ok::<int, DetectError>(c) <==> #[trigger] closes(
                s,
                from,
                c,
            ),
        script::closing_end(s, from) == Err::<int, DetectError>(DetectError::Unterminated)
            <==> none_closes(s, from, s.len() as int) && are_text(s, from, s.len() as int),
        script::closing_end(s, from) == Err::<int, DetectError>(DetectError::InvalidUtf8)
            <==> exists|a: int, b: int| breaks_off(s, from, a, b),
{
    reveal_strlit("'''\n");
    lemma_closing(s, from);
    assert forall|c: int| #[trigger] closes(s, from, c) implies script::closing_end(s, from) == Ok::<
        int,
        DetectError,
    >(c) by {
        lemma_closes(s, from, c);
    }
    if none_closes(s, from, s.len() as int) && are_text(s, from, s.len() as int) {
        if script::closing_end(s, from) is Ok {
            let c = script::closing_end(s, from)->Ok_0;
            assert(closes(s, from, c));
            assert(spells_at(s, c - 4, "'''\n"@));
        }
        if exists|a: int, b: int| breaks_off(s, from, a, b) {
            let (a, b) = choose|a: int, b: int| breaks_off(s, from, a, b);
            assert(is_line(s, a, b));
        }
    }
    if exists|a: int, b: int| breaks_off(s, from, a, b) {
        let (a, b) = choose|a: int, b: int| breaks_off(s, from, a, b);
        assert(is_line(s, a, b));
        if script::closing_end(s, from) is Ok {
            let c = script::closing_end(s, from)->Ok_0;
            assert(closes(s, from, c));
            assert(spells_at(s, c - 4, "'''\n"@));
            if c - 4 == a {
                lemma_closing_line(s, a);
                lemma_line(s, a, b);
            } else {
                assert(c - 4 > a);
                assert(s[c - 5] == 0x0a);
                if b > c - 4 {
                    assert(s[c - 5] != 0x0a);
                }
            }
            assert(b <= c);
        }
    }
}

/// The line from `a` up to `b` opens the part that has `/bin/sh` start a Python.
pub open spec fn opens(s: Seq<u8>, a: int, b: int) -> bool {
    ||| b == a + 13 && spells_at(s, a, "'''': pshprs\n"@)
    ||| starts_python(vstd::utf8::decode_utf8(s.subrange(a, b)))
}

/// The line from `a` up to `b` is UTF-8 and declares an encoding.
pub open spec fn is_coding(s: Seq<u8>, a: int, b: int) -> bool {
    &&& vstd::utf8::valid_utf8(s.subrange(a, b))
    &&& declares_encoding(vstd::utf8::decode_utf8(s.subrange(a, b)))
}

/// The text file at that path, with that range of bytes in its shebang besides the interpreter's
/// name.
pub open spec fn is_redirected_script(
    script: Result<Option<PythonScript>, DetectError>,
    path: PathBuf,
    end: int,
    from: int,
    to: int,
) -> bool {
    &&& script matches Ok(Some(PythonScript::Posix {
        path: p,
        shebang_end,
        is_windowed,
        extra_shebang_content: Some(range),
    }))
    &&& p == path
    &&& shebang_end == end
    &&& !is_windowed
    &&& range.start == from
    &&& range.end == to
}

/// The first lines of a `/bin/sh` script: the shebang line goes up to `first`, the line behind it up
/// to `second`, and the line that opens the part that starts a Python, if there is one, goes from
/// `opening` up to `after`. That is the line behind the shebang line, or the next where that declares
/// an encoding.
pub open spec fn are_sh_lines(
    s: Seq<u8>,
    end: int,
    first: int,
    second: int,
    opening: int,
    after: int,
) -> bool {
    &&& s.len() >= 2
    &&& s[0] == 0x23
    &&& s[1] == 0x21
    &&& is_word(s, 2, end)
    &&& reads(s, 2, end, "/bin/sh"@)
    &&& is_line(s, 2, first)
    &&& is_line(s, first, second)
    &&& opening == if is_coding(s, first, second) {
        second
    } else {
        first
    }
    &&& is_line(s, opening, after)
}

/// What a `/bin/sh` script is, in terms of its bytes.
proof fn lemma_sh(
    path: PathBuf,
    contents: Seq<u8>,
    version: PythonVersion,
    found: Result<Option<PythonScript>, DetectError>,
    end: int,
    first: int,
    second: int,
    opening: int,
    after: int,
)
    requires
        contents.len() <= usize::MAX,
        found == script::posix_detection(path, contents, version),
        are_sh_lines(contents, end, first, second, opening, after),
    ensures
        ({
            let s = contents;
            let back = first - end;
            if !vstd::utf8::valid_utf8(s.subrange(first, second)) || !vstd::utf8::valid_utf8(
                s.subrange(opening, after),
            ) {
                found == Err::<Option<PythonScript>, DetectError>(DetectError::InvalidUtf8)
            } else if !opens(s, opening, after) {
                found matches Ok(None)
            } else {
                &&& forall|closing: int| #[trigger]
                    closes(s, after, closing) <==> is_redirected_script(
                        found,
                        path,
                        end,
                        opening - back,
                        closing - back,
                    )
                &&& found == Err::<Option<PythonScript>, DetectError>(DetectError::Unterminated)
                    <==> none_closes(s, after, s.len() as int) && are_text(
                    s,
                    after,
                    s.len() as int,
                )
                &&& found == Err::<Option<PythonScript>, DetectError>(DetectError::InvalidUtf8)
                    <==> exists|a: int, b: int| breaks_off(s, after, a, b)
                &&& !(found matches Ok(None))
            }
        }),
{
    let s = contents;
    reveal_strlit("#!");
    reveal_strlit("'''': pshprs\n");
    lemma_names();
    reveal_strlit("python");
    reveal_strlit("pythonw");
    reveal_strlit("/bin/sh");
    assert(s.subrange(0, 2) =~= bytes::ascii_bytes("#!"@));
    lemma_word(s, 2, end);
    lemma_lowercase(s, 2, end, "python"@);
    lemma_lowercase(s, 2, end, "pythonw"@);
    lemma_lowercase(s, 2, end, "/bin/sh"@);
    assert(folds_to(s[2int + 0], "/bin/sh"@[0]));
    if reads(s, 2, end, "pythonw"@) {
        assert(folds_to(s[2int + 0], "pythonw"@[0]));
    }
    lemma_line(s, 2, first);
    lemma_line(s, first, second);
    lemma_line(s, opening, after);
    law_coding_lines(vstd::utf8::decode_utf8(s.subrange(first, second)));
    law_exec_lines(vstd::utf8::decode_utf8(s.subrange(opening, after)));
    if after == opening + 13 {
        lemma_spells_at(s, opening, "'''': pshprs\n"@);
    }
    lemma_closing_is(s, after);
    script::lemma_redirector(s);
    script::lemma_interpreter_end(s);
    lemma_sh_errors(s);
}

/// When a `/bin/sh` script is one of Python. Its lines have to open a part that starts a Python; that
/// part goes through the first line `'''` behind, so nothing of the script behind that is taken for
/// it. It counts as far behind `/bin/sh` as it starts behind the shebang line. Each line that is
/// looked at has to be UTF-8, and there has to be such a closing line.
pub proof fn law_redirectors_end_with_their_first_closing_line(
    path: PathBuf,
    contents: &[u8],
    version: PythonVersion,
    found: Result<Option<PythonScript>, DetectError>,
    end: int,
    first: int,
    second: int,
    opening: int,
    after: int,
)
    requires
        call_ensures(PythonScript::detect_posix, (path, contents, version), found),
        are_sh_lines(contents@, end, first, second, opening, after),
    ensures
        ({
            let s = contents@;
            let back = first - end;
            if !vstd::utf8::valid_utf8(s.subrange(first, second)) || !vstd::utf8::valid_utf8(
                s.subrange(opening, after),
            ) {
                found == Err::<Option<PythonScript>, DetectError>(DetectError::InvalidUtf8)
            } else if !opens(s, opening, after) {
                found matches Ok(None)
            } else {
                &&& forall|closing: int| #[trigger]
                    closes(s, after, closing) <==> is_redirected_script(
                        found,
                        path,
                        end,
                        opening - back,
                        closing - back,
                    )
                &&& found == Err::<Option<PythonScript>, DetectError>(DetectError::Unterminated)
                    <==> none_closes(s, after, s.len() as int) && are_text(
                    s,
                    after,
                    s.len() as int,
                )
                &&& found == Err::<Option<PythonScript>, DetectError>(DetectError::InvalidUtf8)
                    <==> exists|a: int, b: int| breaks_off(s, after, a, b)
                &&& !(found matches Ok(None))
            }
        }),
{
    assert(contents@.len() == contents.len());
    lemma_sh(path, contents@, version, found, end, first, second, opening, after);
}

/// A file is told to be a script as a text file first. Only where it is no such script, it is told as
/// an executable.
pub proof fn law_detect_is_text_then_executable(
    path: PathBuf,
    contents: &[u8],
    version: PythonVersion,
    is_executable: bool,
    found: Result<Option<PythonScript>, DetectError>,
    as_text: Result<Option<PythonScript>, DetectError>,
    as_executable: Result<Option<PythonScript>, DetectError>,
)
    requires
        call_ensures(PythonScript::detect, (path, contents, version, is_executable), found),
        call_ensures(PythonScript::detect_posix, (path, contents, version), as_text),
        call_ensures(
            PythonScript::detect_windows,
            (path, is_executable, contents),
            as_executable,
        ),
    ensures
        as_text is Err ==> found == as_text,
        as_text matches Ok(Some(_)) ==> found == as_text,
        as_text matches Ok(None) ==> found == as_executable,
{
}

/// `part` is what `s` holds from `from` on, up to `size` bytes.
pub open spec fn is_part(part: Seq<u8>, s: Seq<u8>, from: int, size: int) -> bool {
    &&& part.len() == if from >= s.len() {
        0
    } else if from + size <= s.len() {
        size
    } else {
        s.len() - from
    }
    &&& forall|i: int| 0 <= i < part.len() ==> #[trigger] part[i] == s[from + i]
}

/// The executable's image is as many bytes as the archive takes up, from where its reader stands on.
pub proof fn law_executable_image(contents: &[u8], probe: ZipProbe, image: &[u8])
    requires
        probe.offset <= contents@.len(),
        call_ensures(script::find_executable_image, (contents, probe), image),
    ensures
        is_part(
            image@,
            contents@,
            probe.position as int,
            contents@.len() - probe.offset,
        ),
{
}

/// A script behind an executable runs without a console window if and only if the executable asks
/// for subsystem 2, and why the executable cannot be read is handed on.
pub proof fn law_windowed_executables(
    path: PathBuf,
    subsystem: Result<u16, PeError>,
    found: Result<Option<PythonScript>, DetectError>,
)
    requires
        call_ensures(script::windows_script, (path, subsystem), found),
    ensures
        match subsystem {
            Ok(number) => found matches Ok(Some(PythonScript::Windows { path: p, is_windowed }))
                && p == path && (is_windowed <==> number == 2),
            Err(why) => found matches Err(DetectError::BadExecutable(e)) && e == why,
        },
{
}

/// A file is a script as an executable only if it can be executed and holds an archive with a member
/// `__main__.py`; then it is told by the image that is read.
pub proof fn law_executables_hold_a_main_member(
    path: PathBuf,
    is_executable: bool,
    contents: &[u8],
    found: Result<Option<PythonScript>, DetectError>,
    image: Seq<u8>,
)
    requires
        call_ensures(PythonScript::detect_windows, (path, is_executable, contents), found),
        is_part(
            image,
            contents@,
            outside::zip_position(contents@, "__main__.py"@) as int,
            contents@.len() - outside::zip_offset(contents@),
        ),
    ensures
        if !is_executable || !outside::zip_holds(contents@, "__main__.py"@) {
            found matches Ok(None)
        } else {
            match outside::pe_subsystem(image) {
                Ok(number) => found matches Ok(
                    Some(PythonScript::Windows { path: p, is_windowed }),
                ) && p == path && (is_windowed <==> number == 2),
                Err(why) => found matches Err(DetectError::BadExecutable(e)) && e == why,
            }
        },
{
    let expected = script::executable_image(
        contents@,
        outside::zip_offset(contents@) as int,
        outside::zip_position(contents@, "__main__.py"@) as int,
    );
    assert(image =~= expected);
}

/// The placeholder of a script.
pub open spec fn placeholder_text(is_windowed: bool) -> Seq<char> {
    if is_windowed {
        "#!pythonw"@
    } else {
        "#!python"@
    }
}

/// `s` is `before`, then the placeholder, then `rest`.
pub open spec fn is_placed_behind(
    s: Seq<u8>,
    before: Seq<u8>,
    is_windowed: bool,
    rest: Seq<u8>,
) -> bool {
    let n = before.len() + placeholder_text(is_windowed).len();
    &&& s.len() == n + rest.len()
    &&& forall|i: int| 0 <= i < before.len() ==> #[trigger] s[i] == before[i]
    &&& spells_at(s, before.len() as int, placeholder_text(is_windowed))
    &&& forall|i: int| 0 <= i < rest.len() ==> #[trigger] s[n + i] == rest[i]
}

/// What is made of bytes and the placeholder behind them.
proof fn lemma_placed_behind(s: Seq<u8>, before: Seq<u8>, is_windowed: bool, rest: Seq<u8>)
    ensures
        is_placed_behind(s, before, is_windowed, rest) <==> s == before + script::placeholder(
            is_windowed,
        ) + rest,
{
    let text = placeholder_text(is_windowed);
    let p = script::placeholder(is_windowed);
    let whole = before + p + rest;
    let n = before.len() as int;
    if s == whole {
        assert(s.subrange(n, n + text.len()) =~= p);
        lemma_spells_at(s, n, text);
    }
    if is_placed_behind(s, before, is_windowed, rest) {
        lemma_spells_at(s, n, text);
        assert forall|i: int| 0 <= i < s.len() implies s[i] == whole[i] by {
            if n <= i < n + text.len() {
                assert(s.subrange(n, n + text.len())[i - n] == s[i]);
            } else if i >= n + text.len() {
                assert(s[n + text.len() + (i - n - text.len())] == rest[i - n - text.len()]);
            }
        }
        assert(s =~= whole);
    }
}

/// What a text file gets for its shebang is the placeholder; what follows the interpreter's name is
/// written behind it, but for the rest of the shebang.
pub proof fn law_text_files_keep_all_but_their_shebang(
    path: PathBuf,
    shebang_end: usize,
    is_windowed: bool,
    extra: Option<Range<usize>>,
    contents: &[u8],
    sink: &mut Vec<u8>,
    done: Result<(), RewriteError>,
    kept: Seq<u8>,
    behind: Seq<u8>,
)
    requires
        call_ensures(
            PythonScript::re_write,
            (
                &PythonScript::Posix {
                    path,
                    shebang_end,
                    is_windowed,
                    extra_shebang_content: extra,
                },
                Some(contents),
                sink,
            ),
            done,
        ),
        match extra {
            None => {
                &&& kept.len() == 0
                &&& is_part(behind, contents@, shebang_end as int, contents@.len() as int)
            },
            Some(range) => {
                &&& shebang_end <= range.start
                &&& is_part(kept, contents@, shebang_end as int, range.start - shebang_end)
                &&& is_part(behind, contents@, range.end as int, contents@.len() as int)
            },
        },
    ensures
        done is Ok,
        is_placed_behind(final(sink)@, old(sink)@, is_windowed, kept + behind),
{
    let s = contents@;
    match extra {
        None => {
            assert(behind =~= script::tail(s, shebang_end as int));
            assert(kept + behind =~= behind);
        },
        Some(range) => {
            assert(kept =~= script::clipped(s, shebang_end as int, range.start as int));
            assert(behind =~= script::tail(s, range.end as int));
        },
    }
    lemma_placed_behind(final(sink)@, old(sink)@, is_windowed, kept + behind);
    assert(old(sink)@ + (script::placeholder(is_windowed) + (kept + behind)) =~= old(sink)@
        + script::placeholder(is_windowed) + (kept + behind));
}

/// What a script in an archive gets is the placeholder, and what the member `__main__.py` holds is
/// written behind it.
pub proof fn law_executables_give_their_main_member(
    path: PathBuf,
    is_windowed: bool,
    contents: &[u8],
    sink: &mut Vec<u8>,
    done: Result<(), RewriteError>,
)
    requires
        call_ensures(
            PythonScript::re_write,
            (&PythonScript::Windows { path, is_windowed }, Some(contents), sink),
            done,
        ),
    ensures
        match outside::zip_member(contents@, "__main__.py"@) {
            Some(main) => done is Ok && is_placed_behind(
                final(sink)@,
                old(sink)@,
                is_windowed,
                main,
            ),
            None => {
                &&& done matches Err(RewriteError::BadArchive(_))
                &&& !outside::zip_holds(contents@, "__main__.py"@) ==> is_placed_behind(
                    final(sink)@,
                    old(sink)@,
                    is_windowed,
                    Seq::empty(),
                )
                &&& exists|read: Seq<u8>|
                    is_placed_behind(final(sink)@, old(sink)@, is_windowed, read)
            },
        },
{
    let p = script::placeholder(is_windowed);
    match outside::zip_member(contents@, "__main__.py"@) {
        Some(main) => {
            lemma_placed_behind(final(sink)@, old(sink)@, is_windowed, main);
            assert(old(sink)@ + (p + main) =~= old(sink)@ + p + main);
        },
        None => {
            let n = (old(sink)@ + p).len() as int;
            let read = final(sink)@.subrange(n, final(sink)@.len() as int);
            lemma_placed_behind(final(sink)@, old(sink)@, is_windowed, read);
            lemma_placed_behind(final(sink)@, old(sink)@, is_windowed, Seq::empty());
            assert(final(sink)@ =~= old(sink)@ + p + read);
            assert(old(sink)@ + p =~= old(sink)@ + p + Seq::<u8>::empty());
        },
    }
}

/// Of a script whose file cannot be read, only the placeholder is written.
pub proof fn law_unreadable_scripts_give_their_placeholder(
    script: &PythonScript,
    is_windowed: bool,
    sink: &mut Vec<u8>,
    done: Result<(), RewriteError>,
)
    requires
        call_ensures(PythonScript::re_write, (script, None::<&[u8]>, sink), done),
        match *script {
            PythonScript::Posix { is_windowed: w, .. } => is_windowed == w,
            PythonScript::Windows { is_windowed: w, .. } => is_windowed == w,
        },
    ensures
        done matches Err(RewriteError::Unreadable),
        is_placed_behind(final(sink)@, old(sink)@, is_windowed, Seq::empty()),
{
    lemma_placed_behind(final(sink)@, old(sink)@, is_windowed, Seq::empty());
    let p = script::placeholder(is_windowed);
    assert(old(sink)@ + p =~= old(sink)@ + p + Seq::<u8>::empty());
}

/// What a `/bin/sh` script that starts a Python is when it has its placeholder shebang back, where
/// nothing but a line feed follows `/bin/sh`. Just the lines from the opening line through the first
/// line `'''` are gone: what stands before them, such as a declared encoding, and all of the script
/// behind them, whatever lines it holds, is there.
pub proof fn law_only_the_redirector_is_cut(
    path: PathBuf,
    contents: &[u8],
    version: PythonVersion,
    is_executable: bool,
    found: Result<Option<PythonScript>, DetectError>,
    end: int,
    first: int,
    second: int,
    opening: int,
    after: int,
    closing: int,
    script: PythonScript,
    sink: &mut Vec<u8>,
    done: Result<(), RewriteError>,
)
    requires
        call_ensures(PythonScript::detect, (path, contents, version, is_executable), found),
        are_sh_lines(contents@, end, first, second, opening, after),
        first == end + 1,
        vstd::utf8::valid_utf8(contents@.subrange(first, second)),
        vstd::utf8::valid_utf8(contents@.subrange(opening, after)),
        opens(contents@, opening, after),
        closes(contents@, after, closing),
        found == Ok::<Option<PythonScript>, DetectError>(Some(script)) ==> call_ensures(
            PythonScript::re_write,
            (&script, Some(contents), sink),
            done,
        ),
        found matches Ok(Some(s)) ==> s == script,
    ensures
        found matches Ok(Some(_)),
        done is Ok,
        is_placed_behind(
            final(sink)@,
            old(sink)@,
            false,
            contents@.subrange(end, opening) + contents@.subrange(
                closing,
                contents@.len() as int,
            ),
        ),
{
    let s = contents@;
    assert(s.len() == contents.len());
    let as_text = script::posix_detection(path, s, version);
    lemma_sh(path, s, version, as_text, end, first, second, opening, after);
    assert(is_redirected_script(as_text, path, end, opening - 1, closing - 1));
    assert(found == as_text);
    reveal_strlit("'''\n");
    assert(s[closing - 4 + 3] == 0x0a);
    assert(s[opening - 1] == 0x0a);
    let rest = s.subrange(end, opening) + s.subrange(closing, s.len() as int);
    assert(script::clipped(s, end, opening - 1) + script::tail(s, closing - 1) =~= rest);
    lemma_placed_behind(final(sink)@, old(sink)@, false, rest);
    let p = script::placeholder(false);
    assert(old(sink)@ + (p + rest) =~= old(sink)@ + p + rest);
}

/// Every file can be looked at, and every script that is found can be given its placeholder shebang,
/// whatever its file holds by then.
pub proof fn law_found_scripts_can_be_re_written(
    path: PathBuf,
    contents: &[u8],
    version: PythonVersion,
    is_executable: bool,
    found: Result<Option<PythonScript>, DetectError>,
    held: Option<&[u8]>,
    sink: &mut Vec<u8>,
)
    requires
        call_ensures(PythonScript::detect, (path, contents, version, is_executable), found),
    ensures
        call_requires(PythonScript::detect, (path, contents, version, is_executable)),
        call_requires(PythonScript::detect_posix, (path, contents, version)),
        call_requires(PythonScript::detect_windows, (path, is_executable, contents)),
        found matches Ok(Some(script)) ==> call_requires(
            PythonScript::re_write,
            (&script, held, sink),
        ),
{
}

} // verus!
