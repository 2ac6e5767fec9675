//! The plain terms that the laws of this library are stated in: bytes against literals, lines, names
//! and numerals, each said of single bytes.

use vstd::prelude::*;

use crate::file_path::{ComponentView, PathView};
use crate::version::PythonVersion;

verus! {

/// The bytes from index `at` on are those of the ASCII text.
pub open spec fn spells_at(s: Seq<u8>, at: int, text: Seq<char>) -> bool {
    &&& 0 <= at
    &&& at + text.len() <= s.len()
    &&& forall|i: int| 0 <= i < text.len() ==> #[trigger] s[at + i] == text[i] as u8
}

/// The bytes are those of the ASCII text.
pub open spec fn spells(s: Seq<u8>, text: Seq<char>) -> bool {
    s.len() == text.len() && spells_at(s, 0, text)
}

/// The byte is that character, which is no upper case letter, or the same letter in upper case.
pub open spec fn folds_to(b: u8, c: char) -> bool {
    b == c as u8 || (0x61 <= c as u8 <= 0x7a && b + 0x20 == c as u8)
}

/// The bytes from index `from` up to index `to` are those of the ASCII text, whatever the case of
/// their letters.
pub open spec fn reads(s: Seq<u8>, from: int, to: int, text: Seq<char>) -> bool {
    &&& 0 <= from
    &&& from + text.len() == to
    &&& to <= s.len()
    &&& forall|i: int| 0 <= i < text.len() ==> folds_to(#[trigger] s[from + i], text[i])
}

/// A blank, tab, line feed, form feed or carriage return.
pub open spec fn is_blank(b: u8) -> bool {
    b == 0x20 || b == 0x09 || b == 0x0a || b == 0x0c || b == 0x0d
}

/// The word that starts at `from` ends at `to`: no byte of it is blank, and it goes up to a blank or
/// to the end.
pub open spec fn is_word(s: Seq<u8>, from: int, to: int) -> bool {
    &&& 0 <= from <= to <= s.len()
    &&& forall|i: int| from <= i < to ==> !is_blank(#[trigger] s[i])
    &&& to < s.len() ==> is_blank(s[to])
}

/// The line that starts at `from` ends at `to`: it holds no line feed but its last byte, and goes up
/// to that or to the end.
pub open spec fn is_line(s: Seq<u8>, from: int, to: int) -> bool {
    &&& 0 <= from <= to <= s.len()
    &&& from < s.len() ==> from < to
    &&& to < s.len() ==> s[to - 1] == 0x0a
    &&& forall|i: int| from <= i < to - 1 ==> #[trigger] s[i] != 0x0a
}

/// The number that the decimal digits from `from` up to `to` stand for.
pub open spec fn value_of(s: Seq<u8>, from: int, to: int) -> int
    decreases to - from,
{
    if from >= to {
        0
    } else {
        10 * value_of(s, from, to - 1) + (s[to - 1] - 0x30)
    }
}

/// The bytes from `from` up to `to` are the number in decimal digits, with no zero too many.
pub open spec fn is_numeral(s: Seq<u8>, from: int, to: int, n: int) -> bool {
    &&& 0 <= from < to <= s.len()
    &&& forall|i: int| from <= i < to ==> 0x30 <= #[trigger] s[i] <= 0x39
    &&& to - from > 1 ==> s[from] != 0x30
    &&& value_of(s, from, to) == n
}

/// The bytes from `from` up to `to` are the major version.
pub open spec fn is_major(s: Seq<u8>, from: int, to: int, version: PythonVersion) -> bool {
    is_numeral(s, from, to, version.major as int)
}

/// The bytes from `from` up to `to` are the major version, a dot and the minor version.
pub open spec fn is_major_minor(s: Seq<u8>, from: int, to: int, version: PythonVersion) -> bool {
    exists|dot: int|
        {
            &&& #[trigger] is_numeral(s, from, dot, version.major as int)
            &&& dot < s.len()
            &&& s[dot] == 0x2e
            &&& is_numeral(s, dot + 1, to, version.minor as int)
        }
}

/// The path starts with all components of the directory, and so is the directory or below it.
pub open spec fn is_below(path: PathView, dir: PathView) -> bool {
    &&& dir.components.len() <= path.components.len()
    &&& forall|i: int|
        0 <= i < dir.components.len() ==> #[trigger] path.components[i] == dir.components[i]
}

/// `rest` is what the path goes on with behind its first `n` components.
pub open spec fn is_rest(rest: PathView, path: PathView, n: int) -> bool {
    &&& 0 <= n <= path.components.len()
    &&& rest.components.len() == path.components.len() - n
    &&& forall|i: int|
        0 <= i < rest.components.len() ==> #[trigger] rest.components[i] == path.components[n + i]
    &&& rest.is_absolute == (path.is_absolute && n == 0)
}

/// The last component of the path is a name, and this is the name.
pub open spec fn has_name(path: PathView, name: Seq<u8>) -> bool {
    &&& path.components.len() > 0
    &&& path.components[path.components.len() - 1] == ComponentView::Normal(name)
}

/// The path is relative and of that one name.
pub open spec fn is_one_name(path: PathView, name: Seq<u8>) -> bool {
    &&& !path.is_absolute
    &&& path.components.len() == 1
    &&& path.components[0] == ComponentView::Normal(name)
}

/// The name goes up to `end` without its extension: up to its last dot, unless that is its first
/// byte or there is none.
pub open spec fn stem_ends(name: Seq<u8>, end: int) -> bool {
    ||| {
        &&& 0 < end < name.len()
        &&& name[end] == 0x2e
        &&& forall|i: int| end < i < name.len() ==> #[trigger] name[i] != 0x2e
    }
    ||| {
        &&& end == name.len()
        &&& forall|i: int| 0 < i < name.len() ==> #[trigger] name[i] != 0x2e
    }
}

} // verus!
