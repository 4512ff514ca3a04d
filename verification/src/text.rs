//! Text renderings: decimal numbers, and hashes the way `ethers` prints
//! them.
use vstd::prelude::*;

verus! {

/// The character of a decimal digit.
pub open spec fn digit_char(d: nat) -> char {
    (48 + d) as char
}

/// The decimal notation of `n`, without leading zeros.
pub open spec fn decimal(n: nat) -> Seq<char>
    decreases n,
{
    if n < 10 {
        seq![digit_char(n)]
    } else {
        decimal(n / 10).push(digit_char(n % 10))
    }
}

/// A lower-case hexadecimal digit.
pub open spec fn hex_digit(d: nat) -> char {
    if d < 10 {
        (48 + d) as char
    } else {
        (87 + d) as char
    }
}

/// A byte as two lower-case hexadecimal digits.
pub open spec fn hex_byte(b: u8) -> Seq<char> {
    seq![hex_digit((b / 16) as nat), hex_digit((b % 16) as nat)]
}

/// A fixed-size hash as `ethers` displays it: `0x`, its first two bytes,
/// `…`, its last two bytes.
pub open spec fn fixed_hash_display(bytes: Seq<u8>) -> Seq<char> {
    "0x"@ + hex_byte(bytes[0]) + hex_byte(bytes[1]) + "…"@ + hex_byte(bytes[bytes.len() - 2])
        + hex_byte(bytes[bytes.len() - 1])
}

fn digit_str(d: u64) -> (s: &'static str)
    requires
        d < 10,
    ensures
        s@ == seq![digit_char(d as nat)],
{
    proof {
        reveal_strlit("0");
        reveal_strlit("1");
        reveal_strlit("2");
        reveal_strlit("3");
        reveal_strlit("4");
        reveal_strlit("5");
        reveal_strlit("6");
        reveal_strlit("7");
        reveal_strlit("8");
        reveal_strlit("9");
    }
    let s = if d == 0 {
        "0"
    } else if d == 1 {
        "1"
    } else if d == 2 {
        "2"
    } else if d == 3 {
        "3"
    } else if d == 4 {
        "4"
    } else if d == 5 {
        "5"
    } else if d == 6 {
        "6"
    } else if d == 7 {
        "7"
    } else if d == 8 {
        "8"
    } else {
        "9"
    };
    assert(s@ =~= seq![digit_char(d as nat)]);
    s
}

/// Appends the decimal notation of `n`.
pub fn append_decimal(out: &mut String, n: u64)
    ensures
        final(out)@ == old(out)@ + decimal(n as nat),
    decreases n,
{
    if n >= 10 {
        append_decimal(out, n / 10);
    }
    out.append(digit_str(n % 10));
    assert(final(out)@ =~= old(out)@ + decimal(n as nat));
}

/// `Display` of `ethers_core::types::H256`: `0x`, the first two bytes and
/// the last two bytes in lower-case hex, separated by `…`.
#[verifier::external_body]
pub(crate) fn display_h256(bytes: &[u8; 32]) -> (s: String)
    ensures
        s@ == fixed_hash_display(bytes@),
{
    format!("{}", ethers_core::types::H256(*bytes))
}

/// `Display` of `ethers_core::types::H64`, laid out as for `H256`.
#[verifier::external_body]
pub(crate) fn display_h64(bytes: &[u8; 8]) -> (s: String)
    ensures
        s@ == fixed_hash_display(bytes@),
{
    format!("{}", ethers_core::types::H64(*bytes))
}

/// `Display` of `ethers_core::types::Bloom`, laid out as for `H256`.
#[verifier::external_body]
pub(crate) fn display_bloom(bytes: &[u8; 256]) -> (s: String)
    ensures
        s@ == fixed_hash_display(bytes@),
{
    format!("{}", ethers_core::types::Bloom(*bytes))
}

/// `Display` of `ethers_core::types::U64`: the decimal notation.
#[verifier::external_body]
pub(crate) fn display_u64(n: u64) -> (s: String)
    ensures
        s@ == decimal(n as nat),
{
    format!("{}", ethers_core::types::U64::from(n))
}

} // verus!
