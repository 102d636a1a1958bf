//! Hypervisor boot-path errors and the fixed-capacity string fields of
//! the layout snapshot.

use vstd::prelude::*;
use vstd::string::{StringExecFns, StringSliceAdditionalSpecFns};
use vstd::utf8::{decode_utf8, decode_utf8_encode_utf8, encode_utf8, encode_utf8_decode_utf8, encode_utf8_valid_utf8, valid_utf8};
use crate::ept::error::EptError;

verus! {

/// Kind of hypervisor boot error.
#[derive(Debug, Clone, Copy, PartialEq, Eq, Structural)]
pub enum BootCheckErrorKind {
    /// Boot ABI validation failed.
    BootAbi,
    /// Platform observation failed.
    Observation,
    /// Platform validation failed.
    Platform,
}

impl BootCheckErrorKind {
    /// The human-readable name of this kind.
    pub open spec fn text(self) -> Seq<char> {
        match self {
            BootCheckErrorKind::BootAbi => "boot abi error"@,
            BootCheckErrorKind::Observation => "boot observation error"@,
            BootCheckErrorKind::Platform => "boot platform error"@,
        }
    }

    /// Renders the kind as text.
    pub fn to_string(&self) -> (s: String)
        ensures
            s@ == self.text(),
    {
        match self {
            BootCheckErrorKind::BootAbi => String::from_str("boot abi error"),
            BootCheckErrorKind::Observation => String::from_str("boot observation error"),
            BootCheckErrorKind::Platform => String::from_str("boot platform error"),
        }
    }
}

/// Structured hypervisor boot error.
#[derive(Debug, Clone, PartialEq, Eq)]
pub struct BootCheckError {
    /// Error category.
    pub kind: BootCheckErrorKind,
    /// Human-readable message.
    pub message: String,
}

impl BootCheckError {
    /// Creates a new boot check error.
    pub fn new(kind: BootCheckErrorKind, message: &str) -> (e: Self)
        ensures
            e.kind == kind,
            e.message@ == message@,
    {
        BootCheckError { kind, message: String::from_str(message) }
    }

    /// Renders the error as `kind: message`.
    pub fn to_string(&self) -> (s: String)
        ensures
            s@ == self.kind.text() + ": "@ + self.message@,
    {
        let mut s = self.kind.to_string();
        s.append(": ");
        s.append(self.message.as_str());
        s
    }
}

/// Reports an EPT failure during Gate C bring-up as a platform error that
/// keeps the EPT message.
pub fn map_ept_error(err: EptError) -> (e: BootCheckError)
    ensures
        e.kind == BootCheckErrorKind::Platform,
        e.message@ == err.message@,
{
    BootCheckError { kind: BootCheckErrorKind::Platform, message: err.message }
}

/// The fixed-capacity field of `n` bytes that holds `bytes`: its length
/// byte and the bytes padded with zeros, or `None` when they do not fit.
pub open spec fn fixed_string_encoding(bytes: Seq<u8>, n: nat) -> Option<(u8, Seq<u8>)> {
    if bytes.len() <= n {
        Some((bytes.len() as u8, bytes + Seq::new((n - bytes.len()) as nat, |_i: int| 0u8)))
    } else {
        None
    }
}

/// The text held by a fixed-capacity field with length byte `len`, or
/// `None` when the length exceeds the field or the bytes are not UTF-8.
pub open spec fn fixed_string_decoding(len: u8, field: Seq<u8>) -> Option<Seq<char>> {
    if len <= field.len() && valid_utf8(field.subrange(0, len as int)) {
        Some(decode_utf8(field.subrange(0, len as int)))
    } else {
        None
    }
}

/// Fixed-capacity field law: text of at most `n` bytes is stored as its
/// byte count (exactly, for fields under 256 bytes) and a field of exactly `n` bytes whose
/// first bytes are the text's and whose rest are zero; longer text is
/// refused. Reading a field gives the text whose UTF-8 encoding is exactly
/// the field's first `len` bytes, and fails exactly when `len` exceeds the
/// field or those bytes are not UTF-8.
pub proof fn lemma_fixed_string_field_layout(bytes: Seq<u8>, n: nat, len: u8, field: Seq<u8>)
    ensures
        fixed_string_encoding(bytes, n) is None <==> bytes.len() > n,
        fixed_string_encoding(bytes, n) matches Some((l, f)) ==> {
            &&& (n < 256 ==> l as int == bytes.len())
            &&& f.len() == n
            &&& f.subrange(0, bytes.len() as int) == bytes
            &&& forall|i: int| bytes.len() <= i < n ==> f[i] == 0u8
        },
        fixed_string_decoding(len, field) is Some <==> (len <= field.len() && valid_utf8(field.subrange(0, len as int))),
        fixed_string_decoding(len, field) matches Some(text) ==> encode_utf8(text) == field.subrange(0, len as int),
{
    if bytes.len() <= n {
        let f = bytes + Seq::new((n - bytes.len()) as nat, |_i: int| 0u8);
        assert(f.subrange(0, bytes.len() as int) =~= bytes);
    }
    if len <= field.len() && valid_utf8(field.subrange(0, len as int)) {
        decode_utf8_encode_utf8(field.subrange(0, len as int));
    }
}

/// Stores `value` in a fixed-capacity field of `N` bytes with a length byte.
pub fn encode_fixed_string<const N: usize>(value: &str) -> (r: Result<(u8, [u8; N]), BootCheckError>)
    ensures
        match r {
            Ok((len, field)) => fixed_string_encoding(value.spec_bytes(), N as nat) == Some((len, field@)),
            Err(e) => {
                &&& fixed_string_encoding(value.spec_bytes(), N as nat) is None
                &&& e.kind == BootCheckErrorKind::Platform
                &&& e.message@ == "layout snapshot string exceeds fixed capacity"@
            },
        },
{
    let bytes = value.as_bytes();
    if bytes.len() > N {
        return Err(BootCheckError::new(
            BootCheckErrorKind::Platform,
            "layout snapshot string exceeds fixed capacity",
        ));
    }
    let mut out = [0u8; N];
    let mut i: usize = 0;
    while i < bytes.len()
        invariant
            bytes.len() <= N,
            i <= bytes.len(),
            out@.len() == N,
            forall|j: int| 0 <= j < i ==> out@[j] == bytes@[j],
            forall|j: int| i <= j < N ==> out@[j] == 0u8,
        decreases bytes.len() - i,
    {
        out[i] = bytes[i];
        i = i + 1;
    }
    let ghost expected = bytes@ + Seq::new((N - bytes@.len()) as nat, |_i: int| 0u8);
    assert(out@ =~= expected);
    Ok(((bytes.len() as u8), out))
}

/// Returns the leading bytes as text when they are valid UTF-8.
///
/// Calls `core::str::from_utf8`: its documentation states that it succeeds
/// exactly on valid UTF-8 and that the string slice it returns holds the
/// same bytes.
#[verifier::external_body]
fn str_from_utf8(bytes: &[u8]) -> (r: Option<&str>)
    ensures
        r is Some <==> valid_utf8(bytes@),
        r matches Some(s) ==> s.spec_bytes() == bytes@,
{
    core::str::from_utf8(bytes).ok()
}

/// Reads the text of a fixed-capacity field with length byte `len`.
pub fn decode_fixed_string<const N: usize>(len: u8, bytes: &[u8; N]) -> (r: Result<String, BootCheckError>)
    ensures
        match r {
            Ok(s) => fixed_string_decoding(len, bytes@) == Some(s@),
            Err(e) => {
                &&& fixed_string_decoding(len, bytes@) is None
                &&& e.kind == BootCheckErrorKind::Platform
                &&& e.message@ == if len > N {
                    "layout snapshot string length out of bounds"@
                } else {
                    "layout snapshot string is not valid UTF-8"@
                }
            },
        },
{
    let n = len as usize;
    if n > N {
        return Err(BootCheckError::new(
            BootCheckErrorKind::Platform,
            "layout snapshot string length out of bounds",
        ));
    }
    let slice = vstd::slice::slice_subrange(bytes.as_slice(), 0, n);
    match str_from_utf8(slice) {
        Some(s) => {
            proof {
                encode_utf8_decode_utf8(s@);
            }
            Ok(s.to_owned())
        },
        None => Err(BootCheckError::new(
            BootCheckErrorKind::Platform,
            "layout snapshot string is not valid UTF-8",
        )),
    }
}

/// A string that fits a field of at most 255 bytes reads back unchanged:
/// decoding the stored length byte and field gives the original text.
pub proof fn lemma_fixed_string_round_trip(value: Seq<char>, n: nat)
    requires
        encode_utf8(value).len() <= n,
        n < 256,
    ensures
        fixed_string_encoding(encode_utf8(value), n) matches Some((len, field))
            && fixed_string_decoding(len, field) == Some(value),
{
    let bytes = encode_utf8(value);
    let field = bytes + Seq::new((n - bytes.len()) as nat, |_i: int| 0u8);
    assert(field.subrange(0, bytes.len() as int) =~= bytes);
    encode_utf8_valid_utf8(value);
    encode_utf8_decode_utf8(value);
}

} // verus!
