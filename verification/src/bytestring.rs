//! Byte-string field policies: which bytes an on-wire string field may
//! hold. Client identifiers use the ASCII-hyphen policy.

use crate::errors::{MalformedStringError, MalformedStringKind};
use vstd::prelude::*;

verus! {

/// A byte a client identifier may hold: ASCII alphanumeric, `_` or `-`.
pub open spec fn allowed_identifier_byte(b: u8) -> bool {
    (65 <= b <= 90) || (97 <= b <= 122) || (48 <= b <= 57) || b == 95 || b == 45
}

/// Every byte of `s` is allowed in a client identifier.
pub open spec fn ascii_hyphen_ok(s: Seq<u8>) -> bool {
    forall|i: int| 0 <= i < s.len() ==> allowed_identifier_byte(#[trigger] s[i])
}

/// A client identifier the protocol accepts: 1 to 255 bytes, each from
/// the ASCII-hyphen alphabet.
pub open spec fn valid_identifier(s: Seq<u8>) -> bool {
    1 <= s.len() <= 255 && ascii_hyphen_ok(s)
}

/// The error a malformed string field is reported with: the first byte
/// outside the policy's alphabet.
pub open spec fn first_disallowed_reported(
    s: Seq<u8>,
    m: crate::errors::MalformedStringError,
) -> bool {
    exists|i: int|
        0 <= i < s.len() && !allowed_identifier_byte(#[trigger] s[i]) && (forall|j: int|
            0 <= j < i ==> allowed_identifier_byte(#[trigger] s[j])) && m.kind
            == MalformedStringKind::InvalidCharacter(s[i])
}

/// Validation policy of an on-wire string field.
#[derive(Clone, Copy, Debug, PartialEq, Eq, Structural)]
pub enum WiredStringPolicyKind {
    /// Any byte sequence is accepted (UTF-8 checking is the transport's
    /// concern above this layer).
    Utf8,
    /// ASCII alphanumerics, `_` and `-` only.
    AsciiHyphen,
}

impl WiredStringPolicyKind {
    /// Accepts `source` under this policy, or reports the first byte
    /// outside the policy's alphabet.
    pub fn validate(&self, source: &[u8]) -> (r: Result<(), MalformedStringError>)
        ensures
            match r {
                Ok(_) => (*self) is Utf8 || ascii_hyphen_ok(source@),
                Err(e) => (*self) is AsciiHyphen && !ascii_hyphen_ok(source@)
                    && e.field is None && exists|i: int|
                    0 <= i < source@.len() && !allowed_identifier_byte(#[trigger] source@[i]) && (
                    forall|j: int| 0 <= j < i ==> allowed_identifier_byte(#[trigger] source@[j]))
                        && e.kind == MalformedStringKind::InvalidCharacter(source@[i]),
            },
    {
        match *self {
            WiredStringPolicyKind::Utf8 => Ok(()),
            WiredStringPolicyKind::AsciiHyphen => {
                let mut i: usize = 0;
                while i < source.len()
                    invariant
                        (*self) is AsciiHyphen,
                        i <= source@.len(),
                        forall|j: int|
                            0 <= j < i ==> allowed_identifier_byte(#[trigger] source@[j]),
                    decreases source@.len() - i,
                {
                    let byte = *vstd::slice::slice_index_get(source, i);
                    let ok = (byte >= 65 && byte <= 90) || (byte >= 97 && byte <= 122) || (byte
                        >= 48 && byte <= 57) || byte == 95 || byte == 45;
                    if !ok {
                        proof {
                            let wi = i as int;
                            assert(!allowed_identifier_byte(source@[wi]));
                            assert(forall|j: int|
                                0 <= j < wi ==> allowed_identifier_byte(#[trigger] source@[j]));
                        }
                        return Err(
                            MalformedStringError {
                                field: None,
                                kind: MalformedStringKind::InvalidCharacter(byte),
                            },
                        );
                    }
                    i = i + 1;
                }
                Ok(())
            },
        }
    }
}

} // verus!
