//! The grammar of identifiers: what the runtime accepts as the name of a
//! variable.

use vstd::prelude::*;
use vstd::string::*;

verus! {

/// The error for a name that is no identifier.
#[derive(Clone, Copy, Debug, PartialEq, Eq, Structural)]
pub struct InvalidIdentifier;

/// Whether an identifier can start with `c`: with an ASCII letter, `_` or
/// `$`.
pub open spec fn is_identifier_start(c: char) -> bool {
    ('a' <= c <= 'z') || ('A' <= c <= 'Z') || c == '_' || c == '$'
}

/// Whether an identifier can go on with `c`: with an ASCII letter or digit,
/// `_` or `$`.
pub open spec fn is_identifier_part(c: char) -> bool {
    is_identifier_start(c) || ('0' <= c <= '9')
}

/// Whether `name` is an identifier: it is not empty, its first character
/// can start an identifier, and each other character can go on with one.
pub open spec fn is_identifier(name: Seq<char>) -> bool {
    &&& name.len() > 0
    &&& is_identifier_start(name[0])
    &&& forall|i: int| 0 < i < name.len() ==> is_identifier_part(#[trigger] name[i])
}

/// An identifier is ASCII text without a zero byte, so that it can be given
/// to the runtime as a C string, character for byte.
pub proof fn lemma_identifier_is_plain(name: Seq<char>)
    requires
        is_identifier(name),
    ensures
        vstd::utf8::is_ascii_chars(name),
        forall|i: int| 0 <= i < name.len() ==> #[trigger] name[i] != '\0',
{
    assert forall|i: int| 0 <= i < name.len() implies '\0' < #[trigger] name[i] <= '\u{7f}' by {
        if i > 0 {
            assert(is_identifier_part(name[i]));
        }
    }
}

fn is_start_byte(b: u8) -> (ok: bool)
    ensures
        ok == is_identifier_start(b as char),
{
    (b >= 97 && b <= 122) || (b >= 65 && b <= 90) || b == 95 || b == 36
}

fn is_part_byte(b: u8) -> (ok: bool)
    ensures
        ok == is_identifier_part(b as char),
{
    is_start_byte(b) || (b >= 48 && b <= 57)
}

/// Whether `name` is an identifier of the runtime.
pub fn is_valid_identifier(name: &str) -> (ok: bool)
    ensures
        ok == is_identifier(name@),
{
    if !name.is_ascii() {
        proof {
            if is_identifier(name@) {
                lemma_identifier_is_plain(name@);
            }
        }
        return false;
    }
    proof {
        is_ascii_spec_bytes(name);
    }
    let bytes = name.as_bytes();
    let n = bytes.len();
    if n == 0 {
        return false;
    }
    assert(bytes@[0] == name@[0] as u8);
    if !is_start_byte(bytes[0]) {
        return false;
    }
    let mut i: usize = 1;
    while i < n
        invariant
            1 <= i <= n,
            n == name@.len(),
            bytes@.len() == n,
            vstd::utf8::is_ascii_chars(name@),
            forall|j: int| 0 <= j < n ==> bytes@[j] == name@[j] as u8,
            forall|j: int| 0 < j < i ==> is_identifier_part(#[trigger] name@[j]),
        decreases n - i,
    {
        assert(bytes@[i as int] == name@[i as int] as u8);
        if !is_part_byte(bytes[i]) {
            return false;
        }
        i += 1;
    }
    true
}

} // verus!
