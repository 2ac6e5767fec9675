//! The calls into std, `regex`, `zip` and `pelite`, and what the library relies on of each.

use vstd::prelude::*;

use crate::file_path::{component_views, is_portable, text_components, PathComponent};

verus! {

/// `std::path::PathBuf`: a path that is only handed on.
#[verifier::external_type_specification]
#[verifier::external_body]
pub struct ExPathBuf(std::path::PathBuf);

/// `zip::result::ZipError`: why an archive or a member of it cannot be read.
#[verifier::external_type_specification]
#[verifier::external_body]
pub struct ExZipError(zip::result::ZipError);

/// A line that declares the encoding of a Python source file; see
/// <https://peps.python.org/pep-0263/>.
pub const CODING_LINE: &'static str = r"^[ \t\f]*#.*?coding[:=][ \t]*([-_.a-zA-Z0-9]+)";

/// The line with which pip and uv have `/bin/sh` start the Python interpreter of a script.
pub const EXEC_LINE: &'static str = r"^'''exec' .*(python|pypy).*";

/// The characters that an encoding's name is made of.
pub open spec fn is_encoding_char(c: char) -> bool {
    ||| c == '-' || c == '_' || c == '.'
    ||| 'a' <= c <= 'z'
    ||| 'A' <= c <= 'Z'
    ||| '0' <= c <= '9'
}

/// `line` declares an encoding: only blanks, tabs and form feeds before a `#` at `hash`, no line
/// feed from there to the word `coding` at `word`, then a colon or an equals sign, blanks and tabs,
/// and the first character of the encoding's name at `name`.
pub open spec fn declares_coding_at(line: Seq<char>, hash: int, word: int, name: int) -> bool {
    &&& 0 <= hash < word
    &&& word + 7 <= name < line.len()
    &&& forall|i: int|
        0 <= i < hash ==> (#[trigger] line[i] == ' ' || line[i] == '\t' || line[i] == '\x0c')
    &&& line[hash] == '#'
    &&& forall|i: int| hash < i < word ==> #[trigger] line[i] != '\n'
    &&& line.subrange(word, word + 6) == "coding"@
    &&& line[word + 6] == ':' || line[word + 6] == '='
    &&& forall|i: int| word + 7 <= i < name ==> (#[trigger] line[i] == ' ' || line[i] == '\t')
    &&& is_encoding_char(line[name])
}

/// `line` starts with a declaration of an encoding.
pub open spec fn declares_coding(line: Seq<char>) -> bool {
    exists|hash: int, word: int, name: int| #[trigger]
        declares_coding_at(line, hash, word, name)
}

/// `line` holds `word` at index `at`.
pub open spec fn holds_at(line: Seq<char>, at: int, word: Seq<char>) -> bool {
    &&& 0 <= at
    &&& at + word.len() <= line.len()
    &&& line.subrange(at, at + word.len()) == word
}

/// `line` starts with `'''exec' ` and names `python` or `pypy` after it and before any line feed.
pub open spec fn execs_python(line: Seq<char>) -> bool {
    &&& holds_at(line, 0, "'''exec' "@)
    &&& exists|at: int|
        {
            &&& "'''exec' "@.len() <= at
            &&& forall|i: int| "'''exec' "@.len() <= i < at ==> #[trigger] line[i] != '\n'
            &&& #[trigger] holds_at(line, at, "python"@) || holds_at(line, at, "pypy"@)
        }
}

/// `regex::Regex::new` and `regex::Regex::is_match`, for the two patterns of this library. Both
/// compile. A match is what the syntax of the crate says: `^` is the start of the text, `.` is any
/// character but a line feed, `\f` is a form feed, and what follows the last character that has to
/// be there does not count.
#[verifier::external_body]
pub(crate) fn regex_is_match(pattern: &str, text: &str) -> (found: bool)
    requires
        pattern@ == CODING_LINE@ || pattern@ == EXEC_LINE@,
    ensures
        pattern@ == CODING_LINE@ ==> found == declares_coding(text@),
        pattern@ == EXEC_LINE@ ==> found == execs_python(text@),
{
    regex::Regex::new(pattern).expect("the pattern compiles").is_match(text)
}

/// `std::str::from_utf8`: bytes as text, where they are UTF-8.
#[verifier::external_body]
pub(crate) fn utf8_text(bytes: &[u8]) -> (text: Option<&str>)
    ensures
        text is Some <==> vstd::utf8::valid_utf8(bytes@),
        text matches Some(s) ==> s@ == vstd::utf8::decode_utf8(bytes@),
{
    std::str::from_utf8(bytes).ok()
}

/// `std::path::Path::components`: the components of the path that a text is. Slashes separate on
/// every platform; what other separators, drives and shares there are depends on the platform, and
/// nothing is said of a text that may hold them.
#[verifier::external_body]
pub(crate) fn path_components(text: &str) -> (components: Vec<PathComponent>)
    ensures
        is_portable(vstd::utf8::encode_utf8(text@)) ==> component_views(components@)
            == text_components(vstd::utf8::encode_utf8(text@)),
{
    let mut components = Vec::new();
    for component in std::path::Path::new(text).components() {
        let bytes = component.as_os_str().as_encoded_bytes().to_vec();
        components.push(match component {
            std::path::Component::Prefix(_) => PathComponent::Prefix(bytes),
            std::path::Component::RootDir => PathComponent::RootDir,
            std::path::Component::CurDir => PathComponent::CurDir,
            std::path::Component::ParentDir => PathComponent::ParentDir,
            std::path::Component::Normal(_) => PathComponent::Normal(bytes),
        });
    }
    components
}

/// `std::path::Path::is_absolute`: whether the path that a text is does not depend on a current
/// directory. A text that starts with no separator, drive or share is no such path; whether one with
/// a slash at its start is depends on the platform.
#[verifier::external_body]
pub(crate) fn path_is_absolute(text: &str) -> (is_absolute: bool)
    ensures
        ({
            let bytes = vstd::utf8::encode_utf8(text@);
            is_portable(bytes) && !(bytes.len() > 0 && bytes[0] == 0x2f) ==> !is_absolute
        }),
{
    std::path::Path::new(text).is_absolute()
}

/// The bytes are a zip archive, perhaps behind other data, with a member of that name which can be
/// opened.
pub uninterp spec fn zip_holds(bytes: Seq<u8>, name: Seq<char>) -> bool;

/// How many bytes stand before the zip archive that the bytes end with.
pub uninterp spec fn zip_offset(bytes: Seq<u8>) -> nat;

/// Where the reader of the zip archive that the bytes end with stands once the member of that name
/// was opened.
pub uninterp spec fn zip_position(bytes: Seq<u8>, name: Seq<char>) -> nat;

/// What the member of that name decompresses to, where it can be read.
pub uninterp spec fn zip_member(bytes: Seq<u8>, name: Seq<char>) -> Option<Seq<u8>>;

/// The subsystem that the headers of a PE image ask for, or why the bytes are not read as such an
/// image.
pub uninterp spec fn pe_subsystem(image: Seq<u8>) -> Result<u16, PeError>;

/// Where a zip archive starts, and where its reader stands.
#[derive(Clone, Copy, Debug, PartialEq, Eq)]
pub struct ZipProbe {
    /// How many bytes stand before the archive.
    pub offset: u64,
    /// The position that the reader was left at.
    pub position: u64,
}

/// `zip::ZipArchive::new`, `by_name`, `offset` and `into_inner`: whether the bytes are an archive
/// with that member, and if so where the archive starts, which is within the bytes, and where the
/// reader stands. The documentation of the crate leaves that position open; its code goes by the
/// bytes and the name alone.
#[verifier::external_body]
pub(crate) fn zip_probe(bytes: &[u8], name: &str) -> (probe: Option<ZipProbe>)
    ensures
        probe is Some <==> zip_holds(bytes@, name@),
        probe matches Some(p) ==> p.offset == zip_offset(bytes@) && p.offset <= bytes@.len(),
        probe matches Some(p) ==> p.position == zip_position(bytes@, name@),
{
    let mut archive = zip::ZipArchive::new(std::io::Cursor::new(bytes)).ok()?;
    archive.by_name(name).ok()?;
    let offset = archive.offset();
    Some(ZipProbe { offset, position: archive.into_inner().position() })
}

/// `zip::ZipArchive::new` and `by_name`, and `std::io::copy` from the member to `sink`: writes what
/// the member of that name holds at the end of `sink`. Where the member cannot be opened, nothing is
/// written. Where it can be opened but not read to its end, what was read of it by then is written;
/// how much that is depends on the sizes of buffers and is left open.
#[verifier::external_body]
pub(crate) fn zip_copy(bytes: &[u8], name: &str, sink: &mut Vec<u8>) -> (done: Result<
    (),
    zip::result::ZipError,
>)
    ensures
        done is Ok <==> zip_member(bytes@, name@) is Some,
        done is Ok ==> final(sink)@ == old(sink)@ + zip_member(bytes@, name@)->0,
        old(sink)@.is_prefix_of(final(sink)@),
        !zip_holds(bytes@, name@) ==> done is Err && final(sink)@ == old(sink)@,
{
    let mut archive = zip::ZipArchive::new(std::io::Cursor::new(bytes))?;
    let mut member = archive.by_name(name)?;
    std::io::copy(&mut member, sink)?;
    Ok(())
}

/// Why bytes are not read as a PE image.
#[derive(Clone, Copy, Debug, PartialEq, Eq, Structural)]
pub enum PeError {
    /// The image ends before its headers do.
    Bounds,
    /// The headers do not start at a multiple of four.
    Misaligned,
    /// A mark that every image has is missing.
    BadMagic,
    /// A value in the headers is far out of range.
    Insanity,
    /// The headers are wrong in some other way.
    Other,
}

/// An image that lies `lead` bytes past a multiple of eight can be read there: it lies at a multiple
/// of four itself, and where the image says that its headers start at a multiple of four, they lie at
/// a multiple of eight. Byte 60 of the image is the lowest byte of that number.
pub open spec fn is_readable_at(image: Seq<u8>, lead: int) -> bool {
    &&& lead == 0 || lead == 4
    &&& image.len() > 60 && image[60] % 4 == 0 ==> (lead + image[60]) % 8 == 0
}

/// `pelite::PeFile::from_bytes` and `optional_header`: the subsystem of a PE image, or why there is
/// none. The crate reads the headers in place, by references that have to lie at a multiple of eight
/// for its 64-bit form, which it tries first, and it tests for multiples of four only; so the image
/// is copied to where they do. The answer then goes by the bytes alone.
#[verifier::external_body]
pub(crate) fn pe_read_subsystem(image: &[u8], lead: usize) -> (subsystem: Result<u16, PeError>)
    requires
        is_readable_at(image@, lead as int),
    ensures
        subsystem == pe_subsystem(image@),
{
    let mut buffer = vec![0u8; image.len() + 16];
    let start = buffer.as_ptr().align_offset(8) + lead;
    buffer[start..start + image.len()].copy_from_slice(image);
    match pelite::PeFile::from_bytes(&buffer[start..start + image.len()]) {
        Ok(file) => match file.optional_header() {
            pelite::Wrap::T32(header) => Ok(header.Subsystem),
            pelite::Wrap::T64(header) => Ok(header.Subsystem),
        },
        Err(pelite::Error::Bounds) => Err(PeError::Bounds),
        Err(pelite::Error::Misaligned) => Err(PeError::Misaligned),
        Err(pelite::Error::BadMagic) => Err(PeError::BadMagic),
        Err(pelite::Error::Insanity) => Err(PeError::Insanity),
        Err(_) => Err(PeError::Other),
    }
}

} // verus!
