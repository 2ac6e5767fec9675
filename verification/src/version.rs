//! The version of a Python interpreter.

use vstd::prelude::*;

use crate::bytes;

verus! {

/// The major and minor version of a Python interpreter.
#[derive(Clone, Copy, Debug, PartialEq, Eq, Structural)]
pub struct PythonVersion {
    /// The 3 of 3.14.
    pub major: u64,
    /// The 14 of 3.14.
    pub minor: u64,
}

impl PythonVersion {
    /// The name that ends with the major version, such as `python3`.
    pub open spec fn major_name(self, name: Seq<char>) -> Seq<u8> {
        bytes::ascii_bytes(name) + bytes::decimal(self.major as nat)
    }

    /// The name that ends with the whole version, such as `python3.14`.
    pub open spec fn minor_name(self, name: Seq<char>) -> Seq<u8> {
        self.major_name(name) + bytes::ascii_bytes("."@) + bytes::decimal(self.minor as nat)
    }

    /// A name followed by the major version.
    pub fn with_major(self, name: &str) -> (out: Vec<u8>)
        requires
            name.is_ascii(),
        ensures
            out@ == self.major_name(name@),
    {
        let mut out: Vec<u8> = Vec::new();
        bytes::append(&mut out, bytes::literal(name));
        assert(out@ =~= bytes::ascii_bytes(name@));
        let major: Vec<u8> = bytes::to_decimal(self.major);
        bytes::append(&mut out, major.as_slice());
        out
    }

    /// A name followed by the major and minor version.
    pub fn with_minor(self, name: &str) -> (out: Vec<u8>)
        requires
            name.is_ascii(),
        ensures
            out@ == self.minor_name(name@),
    {
        let mut out: Vec<u8> = self.with_major(name);
        proof {
            reveal_strlit(".");
        }
        bytes::append(&mut out, bytes::literal("."));
        let minor: Vec<u8> = bytes::to_decimal(self.minor);
        bytes::append(&mut out, minor.as_slice());
        out
    }
}

} // verus!
