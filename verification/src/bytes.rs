//! Byte strings: literals, comparison, lines and decimal numbers.

use vstd::prelude::*;

verus! {

/// The bytes of an ASCII text.
pub open spec fn ascii_bytes(text: Seq<char>) -> Seq<u8> {
    Seq::new(text.len(), |i: int| text[i] as u8)
}

/// `suffix` is what `s` ends with.
pub open spec fn has_suffix(s: Seq<u8>, suffix: Seq<u8>) -> bool {
    &&& suffix.len() <= s.len()
    &&& s.subrange(s.len() - suffix.len(), s.len() as int) == suffix
}

/// The bytes that Rust counts as ASCII white space: blank, tab, line feed, form feed and carriage
/// return.
pub open spec fn is_whitespace(b: u8) -> bool {
    b == 0x20 || b == 0x09 || b == 0x0a || b == 0x0c || b == 0x0d
}

/// `b` with an upper case ASCII letter turned to lower case.
pub open spec fn lower(b: u8) -> u8 {
    if 0x41 <= b <= 0x5a {
        (b + 0x20) as u8
    } else {
        b
    }
}

/// `s` with its upper case ASCII letters turned to lower case.
pub open spec fn lowercase(s: Seq<u8>) -> Seq<u8> {
    s.map_values(|b: u8| lower(b))
}

/// The index of the first white space byte of `s` at or after `from`, or the length of `s`.
pub open spec fn whitespace_from(s: Seq<u8>, from: int) -> int
    decreases s.len() - from,
{
    if from >= s.len() {
        s.len() as int
    } else if is_whitespace(s[from]) {
        from
    } else {
        whitespace_from(s, from + 1)
    }
}

/// The index just past the line of `s` that starts at `from`: past the first line feed at or after
/// `from`, or the length of `s` where there is none.
pub open spec fn line_end(s: Seq<u8>, from: int) -> int
    decreases s.len() - from,
{
    if from >= s.len() {
        s.len() as int
    } else if s[from] == 0x0a {
        from + 1
    } else {
        line_end(s, from + 1)
    }
}

/// The decimal digits of `n`, without leading zeros.
pub open spec fn decimal(n: nat) -> Seq<u8>
    decreases n,
{
    if n < 10 {
        seq![(0x30 + n) as u8]
    } else {
        decimal(n / 10).push((0x30 + n % 10) as u8)
    }
}

/// Where `whitespace_from` lies, and that nothing before it is white space.
pub proof fn lemma_whitespace_from(s: Seq<u8>, from: int)
    requires
        0 <= from <= s.len(),
    ensures
        from <= whitespace_from(s, from) <= s.len(),
        whitespace_from(s, from) < s.len() ==> is_whitespace(s[whitespace_from(s, from)]),
        forall|i: int| from <= i < whitespace_from(s, from) ==> !is_whitespace(#[trigger] s[i]),
    decreases s.len() - from,
{
    if from < s.len() && !is_whitespace(s[from]) {
        lemma_whitespace_from(s, from + 1);
    }
}

/// The first white space byte is the only index with nothing but other bytes before it.
pub proof fn lemma_whitespace_from_is(s: Seq<u8>, from: int, at: int)
    requires
        0 <= from <= at <= s.len(),
        at < s.len() ==> is_whitespace(s[at]),
        forall|i: int| from <= i < at ==> !is_whitespace(#[trigger] s[i]),
    ensures
        whitespace_from(s, from) == at,
    decreases at - from,
{
    if from < at {
        lemma_whitespace_from_is(s, from + 1, at);
    }
}

/// Where `line_end` lies, and that a line holds no line feed but at its end.
pub proof fn lemma_line_end(s: Seq<u8>, from: int)
    requires
        0 <= from <= s.len(),
    ensures
        from <= line_end(s, from) <= s.len(),
        from < s.len() ==> from < line_end(s, from),
        line_end(s, from) < s.len() ==> s[line_end(s, from) - 1] == 0x0a,
        forall|i: int| from <= i < line_end(s, from) - 1 ==> #[trigger] s[i] != 0x0a,
    decreases s.len() - from,
{
    if from < s.len() && s[from] != 0x0a {
        lemma_line_end(s, from + 1);
    }
}

/// The bytes of an ASCII string literal.
pub fn literal(text: &str) -> (bytes: &[u8])
    requires
        text.is_ascii(),
    ensures
        bytes@ == ascii_bytes(text@),
{
    broadcast use vstd::string::is_ascii_spec_bytes;

    assert(text.is_ascii());
    let bytes = text.as_bytes();
    assert(bytes@ =~= ascii_bytes(text@));
    bytes
}

/// Whether two byte strings are the same.
pub fn same(a: &[u8], b: &[u8]) -> (equal: bool)
    ensures
        equal == (a@ == b@),
{
    if a.len() != b.len() {
        return false;
    }
    let mut i: usize = 0;
    while i < a.len()
        invariant
            a@.len() == b@.len(),
            i <= a@.len(),
            forall|j: int| 0 <= j < i ==> a@[j] == b@[j],
        decreases a@.len() - i,
    {
        if a[i] != b[i] {
            return false;
        }
        i += 1;
    }
    assert(a@ =~= b@);
    true
}

/// Whether two texts are the same.
pub fn same_text(a: &str, b: &str) -> (equal: bool)
    ensures
        equal == (a@ == b@),
{
    proof {
        vstd::utf8::encode_utf8_decode_utf8(a@);
        vstd::utf8::encode_utf8_decode_utf8(b@);
    }
    same(a.as_bytes(), b.as_bytes())
}

/// Whether a byte string ends with another.
pub fn ends_with(s: &[u8], suffix: &[u8]) -> (r: bool)
    ensures
        r == has_suffix(s@, suffix@),
{
    if suffix.len() > s.len() {
        return false;
    }
    same(vstd::slice::slice_subrange(s, s.len() - suffix.len(), s.len()), suffix)
}

/// A copy of a byte string with its upper case ASCII letters turned to lower case.
pub fn to_lowercase(s: &[u8]) -> (out: Vec<u8>)
    ensures
        out@ == lowercase(s@),
{
    let mut out: Vec<u8> = Vec::new();
    let mut i: usize = 0;
    while i < s.len()
        invariant
            i <= s@.len(),
            out@.len() == i,
            forall|j: int| 0 <= j < i ==> out@[j] == lower(s@[j]),
        decreases s@.len() - i,
    {
        let b: u8 = s[i];
        out.push(if 0x41 <= b && b <= 0x5a { b + 0x20 } else { b });
        i += 1;
    }
    assert(out@ =~= lowercase(s@));
    out
}

/// The index of the first white space byte at or after `from`, or the length.
pub fn find_whitespace(s: &[u8], from: usize) -> (at: usize)
    requires
        from <= s@.len(),
    ensures
        at == whitespace_from(s@, from as int),
{
    let mut at: usize = from;
    while at < s.len()
        invariant
            from <= at <= s@.len(),
            whitespace_from(s@, from as int) == whitespace_from(s@, at as int),
        decreases s@.len() - at,
    {
        let b: u8 = s[at];
        if b == 0x20 || b == 0x09 || b == 0x0a || b == 0x0c || b == 0x0d {
            return at;
        }
        at += 1;
    }
    at
}

/// The index just past the line that starts at `from`.
pub fn find_line_end(s: &[u8], from: usize) -> (end: usize)
    requires
        from <= s@.len(),
    ensures
        end == line_end(s@, from as int),
{
    let mut end: usize = from;
    while end < s.len()
        invariant
            from <= end <= s@.len(),
            line_end(s@, from as int) == line_end(s@, end as int),
        decreases s@.len() - end,
    {
        if s[end] == 0x0a {
            return end + 1;
        }
        end += 1;
    }
    end
}

/// The decimal digits of a number.
pub fn to_decimal(n: u64) -> (digits: Vec<u8>)
    ensures
        digits@ == decimal(n as nat),
    decreases n,
{
    if n < 10 {
        let mut digits: Vec<u8> = Vec::new();
        digits.push(0x30 + n as u8);
        assert(digits@ =~= decimal(n as nat));
        digits
    } else {
        let mut digits: Vec<u8> = to_decimal(n / 10);
        digits.push(0x30 + (n % 10) as u8);
        digits
    }
}

/// Appends a byte string to another.
pub fn append(out: &mut Vec<u8>, more: &[u8])
    ensures
        final(out)@ == old(out)@ + more@,
{
    let ghost before = out@;
    out.extend_from_slice(more);
    assert(out@ =~= before + more@);
}

} // verus!
