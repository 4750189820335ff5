//! Byte-level model of the JSON text the serialization backend produces,
//! and the trusted calls into that backend for single scalar values.

use vstd::prelude::*;

verus! {

/// A single JSON scalar value, as it stands in one map entry.
pub ghost enum JVal {
    /// JSON `null` (absent values and the unit value both encode to it).
    Null,
    /// JSON `true` / `false`.
    Bool(bool),
    /// A JSON number holding an integer.
    Int(int),
    /// A JSON string; the sequence is the unescaped text.
    Str(Seq<char>),
    /// Pre-encoded JSON text, carried verbatim (printable ASCII bytes).
    Raw(Seq<u8>),
}

/// The bytes of the JSON string literal (quotes and escapes included) that
/// the backend writes for the text `s`.
pub uninterp spec fn json_string_bytes(s: Seq<char>) -> Seq<u8>;

/// Decimal digits of `n`, most significant first, as ASCII bytes.
pub open spec fn dec_digits(n: nat) -> Seq<u8>
    decreases n,
{
    if n < 10 {
        seq![(48 + n) as u8]
    } else {
        dec_digits(n / 10).push((48 + n % 10) as u8)
    }
}

/// The decimal encoding of a possibly negative integer.
pub open spec fn dec_int(v: int) -> Seq<u8> {
    if v < 0 {
        seq![45u8] + dec_digits((-v) as nat)
    } else {
        dec_digits(v as nat)
    }
}

/// The bytes `true` / `false`.
pub open spec fn bool_bytes(b: bool) -> Seq<u8> {
    if b {
        seq![116u8, 114u8, 117u8, 101u8]
    } else {
        seq![102u8, 97u8, 108u8, 115u8, 101u8]
    }
}

/// The bytes `null`.
pub open spec fn null_bytes() -> Seq<u8> {
    seq![110u8, 117u8, 108u8, 108u8]
}

/// The bytes the backend writes for one scalar value.
pub open spec fn jval_bytes(v: JVal) -> Seq<u8> {
    match v {
        JVal::Null => null_bytes(),
        JVal::Bool(b) => bool_bytes(b),
        JVal::Int(i) => dec_int(i),
        JVal::Str(s) => json_string_bytes(s),
        JVal::Raw(b) => b,
    }
}

/// Every decimal digit byte lies in the ASCII digit range.
pub proof fn lemma_dec_digits_ascii(n: nat)
    ensures
        forall|i: int| 0 <= i < dec_digits(n).len() ==> 48 <= #[trigger] dec_digits(n)[i] <= 57,
    decreases n,
{
    if n < 10 {
        assert(dec_digits(n) == seq![(48 + n) as u8]);
        assert(dec_digits(n)[0] == (48 + n) as u8);
    } else {
        lemma_dec_digits_ascii(n / 10);
        assert(dec_digits(n) == dec_digits(n / 10).push((48 + n % 10) as u8));
        assert(n % 10 < 10) by (nonlinear_arith);
        assert(forall|i: int|
            0 <= i < dec_digits(n).len() - 1 ==> #[trigger] dec_digits(n)[i] == dec_digits(
                n / 10,
            )[i]);
        assert(dec_digits(n)[dec_digits(n).len() - 1] == (48 + n % 10) as u8);
    }
}

/// Every byte of a decimal integer encoding is printable ASCII.
pub proof fn lemma_dec_int_printable(v: int)
    ensures
        forall|i: int| 0 <= i < dec_int(v).len() ==> 32 <= #[trigger] dec_int(v)[i] <= 126,
{
    if v < 0 {
        lemma_dec_digits_ascii((-v) as nat);
    } else {
        lemma_dec_digits_ascii(v as nat);
    }
}

/// Relies on `serde_json::to_vec` for `&str`: it writes one JSON string
/// literal, a `"`, the escaped text, and a closing `"`. Its escape table
/// replaces every control byte (0x00..0x1F), `"` and `\` by an escape
/// sequence, so no byte below 0x20 stands in the result. A character
/// costs at most six bytes (`\uXXXX`; unescaped UTF-8 takes at most
/// four), plus the two quotes. Serializing a string into a byte buffer
/// cannot fail.
#[verifier::external_body]
pub(crate) fn json_string(s: &str) -> (r: Vec<u8>)
    ensures
        r@ == json_string_bytes(s@),
        2 <= r@.len() <= 2 + 6 * s@.len(),
        forall|i: int| 0 <= i < r@.len() ==> #[trigger] r@[i] >= 32,
{
    serde_json::to_vec(s).unwrap()
}

/// Relies on `serde_json::to_vec` for `char`: the backend encodes a `char`
/// exactly as the one-character string, whose view is `seq![c]`.
#[verifier::external_body]
pub(crate) fn json_char(c: char) -> (r: Vec<u8>)
    ensures
        r@ == json_string_bytes(seq![c]),
        2 <= r@.len() <= 8,
        forall|i: int| 0 <= i < r@.len() ==> #[trigger] r@[i] >= 32,
{
    serde_json::to_vec(&c).unwrap()
}

/// Relies on `serde_json::to_vec` for `bool`: it writes the bytes `true`
/// or `false` and cannot fail.
#[verifier::external_body]
pub(crate) fn json_bool(b: bool) -> (r: Vec<u8>)
    ensures
        r@ == bool_bytes(b),
{
    serde_json::to_vec(&b).unwrap()
}

/// Relies on `serde_json::to_vec` for `()`: it writes the bytes `null`
/// and cannot fail.
#[verifier::external_body]
pub(crate) fn json_null() -> (r: Vec<u8>)
    ensures
        r@ == null_bytes(),
{
    serde_json::to_vec(&()).unwrap()
}

/// Relies on `serde_json::to_vec` for `u64`: it writes the plain decimal
/// digits of the value and cannot fail.
#[verifier::external_body]
pub(crate) fn json_u64(v: u64) -> (r: Vec<u8>)
    ensures
        r@ == dec_int(v as int),
{
    serde_json::to_vec(&v).unwrap()
}

/// Relies on `serde_json::to_vec` for `i64`: it writes the plain decimal
/// digits of the value, with a leading `-` when negative, and cannot fail.
#[verifier::external_body]
pub(crate) fn json_i64(v: i64) -> (r: Vec<u8>)
    ensures
        r@ == dec_int(v as int),
{
    serde_json::to_vec(&v).unwrap()
}

} // verus!
