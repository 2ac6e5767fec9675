//! What holds of the functions on byte strings and version numbers.

use vstd::prelude::*;

use crate::bytes;
use crate::terms::{
    folds_to, is_blank, is_line, is_major, is_major_minor, is_numeral, is_word, reads, spells,
    spells_at, value_of,
};
use crate::version::PythonVersion;

verus! {

/// The bytes of a literal are its characters.
pub proof fn law_literal(text: &str, out: &[u8])
    requires
        call_ensures(bytes::literal, (text,), out),
    ensures
        spells(out@, text@),
{
}

/// Bytes that spell a text are the bytes of that text.
pub proof fn lemma_spells(s: Seq<u8>, text: Seq<char>)
    ensures
        spells(s, text) <==> s == bytes::ascii_bytes(text),
{
    if spells(s, text) {
        assert forall|i: int| 0 <= i < s.len() implies s[i] == bytes::ascii_bytes(text)[i] by {
            assert(s[0 + i] == text[i] as u8);
        }
        assert(s =~= bytes::ascii_bytes(text));
    }
}

/// Bytes that spell a text somewhere hold the bytes of that text there.
pub proof fn lemma_spells_at(s: Seq<u8>, at: int, text: Seq<char>)
    requires
        0 <= at,
        at + text.len() <= s.len(),
    ensures
        spells_at(s, at, text) <==> s.subrange(at, at + text.len()) == bytes::ascii_bytes(text),
{
    let part = s.subrange(at, at + text.len());
    if spells_at(s, at, text) {
        assert forall|i: int| 0 <= i < part.len() implies part[i] == bytes::ascii_bytes(text)[i] by {
            assert(s[at + i] == text[i] as u8);
        }
        assert(part =~= bytes::ascii_bytes(text));
    }
    if part == bytes::ascii_bytes(text) {
        assert forall|i: int| 0 <= i < text.len() implies #[trigger] s[at + i] == text[i] as u8 by {
            assert(part[i] == s[at + i]);
        }
    }
}

/// Two byte strings are the same if and only if their lengths and all their bytes are.
pub proof fn law_same(a: &[u8], b: &[u8], equal: bool)
    requires
        call_ensures(bytes::same, (a, b), equal),
    ensures
        equal <==> a@.len() == b@.len() && forall|i: int|
            0 <= i < a@.len() ==> #[trigger] a@[i] == b@[i],
{
    if a@.len() == b@.len() && forall|i: int| 0 <= i < a@.len() ==> #[trigger] a@[i] == b@[i] {
        assert(a@ =~= b@);
    }
}

/// Two texts are the same if and only if their characters are.
pub proof fn law_same_text(a: &str, b: &str, equal: bool)
    requires
        call_ensures(bytes::same_text, (a, b), equal),
    ensures
        equal <==> a@ == b@,
{
}

/// A byte string ends with another if and only if the bytes at its end are those of the other.
pub proof fn law_ends_with(s: &[u8], suffix: &[u8], r: bool)
    requires
        call_ensures(bytes::ends_with, (s, suffix), r),
    ensures
        r <==> suffix@.len() <= s@.len() && forall|i: int|
            0 <= i < suffix@.len() ==> s@[s@.len() - suffix@.len() + i] == #[trigger] suffix@[i],
{
    lemma_has_suffix(s@, suffix@);
}

/// What a suffix is, byte by byte.
pub proof fn lemma_has_suffix(s: Seq<u8>, suffix: Seq<u8>)
    ensures
        bytes::has_suffix(s, suffix) <==> suffix.len() <= s.len() && forall|i: int|
            0 <= i < suffix.len() ==> s[s.len() - suffix.len() + i] == #[trigger] suffix[i],
{
    if suffix.len() <= s.len() {
        let at = s.len() - suffix.len();
        let end = s.subrange(at, s.len() as int);
        if forall|i: int| 0 <= i < suffix.len() ==> s[at + i] == #[trigger] suffix[i] {
            assert(end =~= suffix);
        }
        if end == suffix {
            assert forall|i: int| 0 <= i < suffix.len() implies s[at + i] == #[trigger] suffix[i] by {
                assert(end[i] == s[at + i]);
            }
        }
    }
}

/// Each byte in lower case is the byte, or the same letter where it is one of `A` to `Z`.
pub proof fn law_to_lowercase(s: &[u8], out: Vec<u8>)
    requires
        call_ensures(bytes::to_lowercase, (s,), out),
    ensures
        out@.len() == s@.len(),
        forall|i: int|
            0 <= i < s@.len() ==> if 0x41 <= s@[i] <= 0x5a {
                #[trigger] out@[i] == s@[i] + 0x20
            } else {
                out@[i] == s@[i]
            },
{
}

/// Bytes in lower case are those of a text if and only if they read as it.
pub proof fn lemma_lowercase(s: Seq<u8>, from: int, to: int, text: Seq<char>)
    requires
        0 <= from <= to <= s.len(),
        forall|i: int| 0 <= i < text.len() ==> !(0x41 <= #[trigger] text[i] as u8 <= 0x5a),
    ensures
        bytes::lowercase(s.subrange(from, to)) == bytes::ascii_bytes(text) <==> reads(
            s,
            from,
            to,
            text,
        ),
{
    let low = bytes::lowercase(s.subrange(from, to));
    if reads(s, from, to, text) {
        assert forall|i: int| 0 <= i < low.len() implies low[i] == bytes::ascii_bytes(text)[i] by {
            assert(folds_to(s[from + i], text[i]));
            assert(!(0x41 <= text[i] as u8 <= 0x5a));
            assert(low[i] == bytes::lower(s[from + i]));
        }
        assert(low =~= bytes::ascii_bytes(text));
    }
    if low == bytes::ascii_bytes(text) {
        assert(low.len() == text.len());
        assert forall|i: int| 0 <= i < text.len() implies folds_to(
            #[trigger] s[from + i],
            text[i],
        ) by {
            assert(low[i] == bytes::lower(s.subrange(from, to)[i]));
            assert(low[i] == bytes::ascii_bytes(text)[i]);
        }
    }
}

/// The first blank from an index on ends the word that starts there.
pub proof fn law_find_whitespace(s: &[u8], from: usize, at: usize)
    requires
        from <= s@.len(),
        call_ensures(bytes::find_whitespace, (s, from), at),
    ensures
        is_word(s@, from as int, at as int),
{
    bytes::lemma_whitespace_from(s@, from as int);
}

/// A word has one end.
pub proof fn lemma_word(s: Seq<u8>, from: int, to: int)
    requires
        is_word(s, from, to),
    ensures
        bytes::whitespace_from(s, from) == to,
{
    bytes::lemma_whitespace_from_is(s, from, to);
}

/// A line ends behind its first line feed, or where the bytes end.
pub proof fn law_find_line_end(s: &[u8], from: usize, end: usize)
    requires
        from <= s@.len(),
        call_ensures(bytes::find_line_end, (s, from), end),
    ensures
        is_line(s@, from as int, end as int),
{
    bytes::lemma_line_end(s@, from as int);
}

/// A line has one end.
pub proof fn lemma_line(s: Seq<u8>, from: int, to: int)
    requires
        is_line(s, from, to),
    ensures
        bytes::line_end(s, from) == to,
{
    bytes::lemma_line_end(s, from);
    let end = bytes::line_end(s, from);
    if end < to {
        assert(s[end - 1] == 0x0a);
    }
    if to < end {
        assert(s[to - 1] == 0x0a);
    }
}

/// A number is written in decimal digits that stand for it, with no zero too many.
pub proof fn law_to_decimal(n: u64, digits: Vec<u8>)
    requires
        call_ensures(bytes::to_decimal, (n,), digits),
    ensures
        is_numeral(digits@, 0, digits@.len() as int, n as int),
{
    lemma_decimal(n as nat);
}

/// The value of digits goes by the digits alone.
pub proof fn lemma_value(s: Seq<u8>, from: int, t: Seq<u8>, at: int, n: int)
    requires
        0 <= n,
        0 <= from,
        0 <= at,
        from + n <= s.len(),
        at + n <= t.len(),
        forall|i: int| 0 <= i < n ==> #[trigger] s[from + i] == t[at + i],
    ensures
        value_of(s, from, from + n) == value_of(t, at, at + n),
    decreases n,
{
    if n > 0 {
        lemma_value(s, from, t, at, n - 1);
        assert(s[from + (n - 1)] == t[at + (n - 1)]);
    }
}

/// The digits of a number are a numeral of it.
pub proof fn lemma_decimal(n: nat)
    ensures
        is_numeral(bytes::decimal(n), 0, bytes::decimal(n).len() as int, n as int),
        n > 0 ==> bytes::decimal(n)[0] != 0x30,
    decreases n,
{
    let s = bytes::decimal(n);
    if n < 10 {
        assert(s.len() == 1);
        assert(value_of(s, 0, 0) == 0);
        assert(value_of(s, 0, 1) == n);
    } else {
        let before = bytes::decimal(n / 10);
        lemma_decimal(n / 10);
        let m = before.len() as int;
        assert(forall|i: int| 0 <= i < m ==> #[trigger] s[0 + i] == before[0 + i]);
        lemma_value(s, 0, before, 0, m);
        assert(value_of(s, 0, m + 1) == 10 * value_of(s, 0, m) + (s[m] - 0x30));
        assert forall|i: int| 0 <= i < s.len() implies 0x30 <= #[trigger] s[i] <= 0x39 by {
            if i < m {
                assert(s[i] == before[i]);
            }
        }
        assert(s[0] == before[0]);
    }
}

/// A numeral that does not start with a zero stands for a number above zero.
proof fn lemma_numeral_positive(s: Seq<u8>, from: int, to: int)
    requires
        0 <= from < to <= s.len(),
        forall|i: int| from <= i < to ==> 0x30 <= #[trigger] s[i] <= 0x39,
    ensures
        value_of(s, from, to) >= 0,
        s[from] != 0x30 ==> value_of(s, from, to) > 0,
    decreases to - from,
{
    if to - from > 1 {
        lemma_numeral_positive(s, from, to - 1);
    } else {
        assert(value_of(s, from, from) == 0);
    }
}

/// A number has one numeral.
pub proof fn lemma_numeral(s: Seq<u8>, from: int, to: int, n: nat)
    requires
        is_numeral(s, from, to, n as int),
    ensures
        s.subrange(from, to) == bytes::decimal(n),
    decreases n,
{
    let last = (s[to - 1] - 0x30) as int;
    if to - from == 1 {
        assert(value_of(s, from, from) == 0);
        assert(n == last);
        assert(s.subrange(from, to) =~= bytes::decimal(n));
    } else {
        lemma_numeral_positive(s, from, to - 1);
        let m = value_of(s, from, to - 1) as nat;
        assert(n == 10 * m + last);
        assert(m > 0);
        assert(n / 10 == m);
        assert(n % 10 == last);
        lemma_numeral(s, from, to - 1, m);
        assert(s.subrange(from, to) =~= s.subrange(from, to - 1).push(s[to - 1]));
    }
}

/// Bytes that hold the digits of a number hold a numeral of it.
pub proof fn lemma_is_numeral(s: Seq<u8>, from: int, to: int, n: nat)
    requires
        0 <= from <= to <= s.len(),
        s.subrange(from, to) == bytes::decimal(n),
    ensures
        is_numeral(s, from, to, n as int),
{
    let d = bytes::decimal(n);
    lemma_decimal(n);
    assert forall|i: int| 0 <= i < to - from implies #[trigger] s[from + i] == d[0 + i] by {
        assert(s.subrange(from, to)[i] == s[from + i]);
    }
    lemma_value(s, from, d, 0, to - from);
    assert forall|i: int| from <= i < to implies 0x30 <= #[trigger] s[i] <= 0x39 by {
        assert(s[from + (i - from)] == d[0 + (i - from)]);
    }
    assert(s[from + 0] == d[0int + 0]);
}

/// A name with the major version is the name and then the numeral of that version.
pub proof fn law_with_major(version: PythonVersion, name: &str, out: Vec<u8>)
    requires
        call_ensures(PythonVersion::with_major, (version, name), out),
    ensures
        spells_at(out@, 0, name@),
        is_major(out@, name@.len() as int, out@.len() as int, version),
{
    let n = name@.len() as int;
    assert(out@.subrange(0, n) =~= bytes::ascii_bytes(name@));
    lemma_spells_at(out@, 0, name@);
    assert(out@.subrange(n, out@.len() as int) =~= bytes::decimal(version.major as nat));
    lemma_is_numeral(out@, n, out@.len() as int, version.major as nat);
}

/// A name with the whole version is the name, then the numeral of the major version, a dot and the
/// numeral of the minor version.
pub proof fn law_with_minor(version: PythonVersion, name: &str, out: Vec<u8>)
    requires
        call_ensures(PythonVersion::with_minor, (version, name), out),
    ensures
        spells_at(out@, 0, name@),
        is_major_minor(out@, name@.len() as int, out@.len() as int, version),
{
    lemma_minor_name(version, name@);
}

/// What a name with the whole version is made of.
pub proof fn lemma_minor_name(version: PythonVersion, name: Seq<char>)
    ensures
        spells_at(version.minor_name(name), 0, name),
        is_major_minor(
            version.minor_name(name),
            name.len() as int,
            version.minor_name(name).len() as int,
            version,
        ),
{
    reveal_strlit(".");
    let out = version.minor_name(name);
    let n = name.len() as int;
    let dot = n + bytes::decimal(version.major as nat).len();
    assert(out.subrange(0, n) =~= bytes::ascii_bytes(name));
    lemma_spells_at(out, 0, name);
    assert(out.subrange(n, dot) =~= bytes::decimal(version.major as nat));
    lemma_is_numeral(out, n, dot, version.major as nat);
    assert(out[dot] == 0x2e);
    assert(out.subrange(dot + 1, out.len() as int) =~= bytes::decimal(version.minor as nat));
    lemma_is_numeral(out, dot + 1, out.len() as int, version.minor as nat);
}

/// Bytes of that make are the name with the whole version.
pub proof fn lemma_is_minor_name(s: Seq<u8>, version: PythonVersion, name: Seq<char>)
    requires
        spells_at(s, 0, name),
        is_major_minor(s, name.len() as int, s.len() as int, version),
    ensures
        s == version.minor_name(name),
{
    reveal_strlit(".");
    let n = name.len() as int;
    let dot = choose|dot: int|
        {
            &&& #[trigger] is_numeral(s, n, dot, version.major as int)
            &&& dot < s.len()
            &&& s[dot] == 0x2e
            &&& is_numeral(s, dot + 1, s.len() as int, version.minor as int)
        };
    lemma_spells_at(s, 0, name);
    lemma_numeral(s, n, dot, version.major as nat);
    lemma_numeral(s, dot + 1, s.len() as int, version.minor as nat);
    assert(s =~= s.subrange(0, n) + s.subrange(n, dot) + seq![s[dot]] + s.subrange(
        dot + 1,
        s.len() as int,
    ));
    assert(bytes::ascii_bytes("."@) =~= seq![0x2eu8]);
}

} // verus!
