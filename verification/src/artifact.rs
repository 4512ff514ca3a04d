//! The deployable bytecode recorded in a Forge build artifact.
use vstd::prelude::*;

verus! {

/// What `serde_json` makes of `text` when asked for the string at member
/// `outer`, then `inner`: the parser's error message when `text` is not
/// JSON; `None` when there is no string there; otherwise the string's
/// contents.
pub uninterp spec fn json_string_member(text: Seq<char>, outer: Seq<char>, inner: Seq<char>) -> Result<
    Option<Seq<char>>,
    Seq<char>,
>;

/// Parses `text` with `serde_json::from_str` into a `serde_json::Value`,
/// indexes it by `outer`, then `inner` (indexing what is missing gives
/// `Null`), and takes the member's contents with `as_str` (`None` unless it
/// is a JSON string); a parse failure is given back as the `to_string` of
/// `serde_json::Error`. The contract only names the outcome: which texts
/// parse, and what they hold, is left to `serde_json`.
#[verifier::external_body]
fn string_member_json(text: &str, outer: &str, inner: &str) -> (res: Result<Option<String>, String>)
    ensures
        match res {
            Ok(member) => json_string_member(text@, outer@, inner@) == Ok::<
                Option<Seq<char>>,
                Seq<char>,
            >(
                match member {
                    Some(s) => Some(s@),
                    None => None,
                },
            ),
            Err(e) => json_string_member(text@, outer@, inner@) == Err::<Option<Seq<char>>, Seq<char>>(
                e@,
            ),
        },
{
    match serde_json::from_str::<serde_json::Value>(text) {
        Ok(value) => Ok(value[outer][inner].as_str().map(String::from)),
        Err(e) => Err(e.to_string()),
    }
}

/// The value of a hexadecimal digit, either case.
pub open spec fn hex_value(c: char) -> Option<u8> {
    if '0' <= c && c <= '9' {
        Some((c as u32 - 48) as u8)
    } else if 'a' <= c && c <= 'f' {
        Some((c as u32 - 87) as u8)
    } else if 'A' <= c && c <= 'F' {
        Some((c as u32 - 55) as u8)
    } else {
        None
    }
}

/// The byte spelled by the `i`-th pair of hex digits of `digits`.
pub open spec fn hex_pair(digits: Seq<char>, i: int) -> u8 {
    (16 * hex_value(digits[2 * i])->0 + hex_value(digits[2 * i + 1])->0) as u8
}

/// The bytes spelled by a string of hex digit pairs.
pub open spec fn decode_hex(digits: Seq<char>) -> Seq<u8> {
    Seq::new(digits.len() / 2, |i: int| hex_pair(digits, i))
}

/// The bytecode spelled by a `bytecode.object` string: `0x` followed by
/// pairs of hex digits.
pub open spec fn bytecode_of_object(object: Seq<char>) -> Result<Seq<u8>, Seq<char>> {
    if object.len() < 2 || object[0] != '0' || object[1] != 'x' {
        Err("Missing 0x prefix in bytecode object"@)
    } else {
        let digits = object.subrange(2, object.len() as int);
        if digits.len() % 2 != 0 {
            Err("Odd number of hex digits in bytecode object"@)
        } else if exists|j: int| 0 <= j < digits.len() && #[trigger] hex_value(digits[j]) is None {
            Err("Invalid hex digit in bytecode object"@)
        } else {
            Ok(decode_hex(digits))
        }
    }
}

fn hex_value_of(c: char) -> (v: Option<u8>)
    ensures
        v == hex_value(c),
        v is Some ==> v->0 < 16,
{
    if '0' <= c && c <= '9' {
        Some((c as u32 - 48) as u8)
    } else if 'a' <= c && c <= 'f' {
        Some((c as u32 - 87) as u8)
    } else if 'A' <= c && c <= 'F' {
        Some((c as u32 - 55) as u8)
    } else {
        None
    }
}

/// Decodes a `bytecode.object` string: `0x`, then pairs of hex digits.
pub fn decode_bytecode_object(object: &str) -> (res: Result<Vec<u8>, String>)
    ensures
        match res {
            Ok(bytes) => bytecode_of_object(object@) == Ok::<Seq<u8>, Seq<char>>(bytes@),
            Err(e) => bytecode_of_object(object@) == Err::<Seq<u8>, Seq<char>>(e@),
        },
{
    let n = object.unicode_len();
    if n < 2 || object.get_char(0) != '0' || object.get_char(1) != 'x' {
        return Err(String::from_str("Missing 0x prefix in bytecode object"));
    }
    let ghost digits = object@.subrange(2, n as int);
    if (n - 2) % 2 != 0 {
        return Err(String::from_str("Odd number of hex digits in bytecode object"));
    }
    let pairs = (n - 2) / 2;
    let mut bytes: Vec<u8> = Vec::new();
    let mut i: usize = 0;
    while i < pairs
        invariant
            n as nat == object@.len(),
            n >= 2,
            object@[0] == '0',
            object@[1] == 'x',
            digits == object@.subrange(2, n as int),
            pairs * 2 == digits.len(),
            i <= pairs,
            bytes@.len() == i,
            forall|j: int| 0 <= j < 2 * i ==> #[trigger] hex_value(digits[j]) is Some,
            forall|k: int| 0 <= k < i ==> #[trigger] bytes@[k] == hex_pair(digits, k),
        decreases pairs - i,
    {
        let hi = hex_value_of(object.get_char(2 + 2 * i));
        let lo = hex_value_of(object.get_char(3 + 2 * i));
        assert(object@[2 + 2 * i] == digits[2 * i]);
        assert(object@[3 + 2 * i] == digits[2 * i + 1]);
        match (hi, lo) {
            (Some(h), Some(l)) => {
                bytes.push(16 * h + l);
            },
            _ => {
                proof {
                    let j: int = if hi is None {
                        2 * i
                    } else {
                        2 * i + 1
                    };
                    assert(0 <= j < digits.len() && hex_value(digits[j]) is None);
                    assert(digits.len() % 2 == 0);
                }
                return Err(String::from_str("Invalid hex digit in bytecode object"));
            },
        }
        i = i + 1;
    }
    assert(bytes@ =~= decode_hex(digits));
    Ok(bytes)
}

/// The bytecode of an artifact's text: the parser's error when the text is
/// not JSON, an error when `bytecode.object` is not a string, otherwise
/// the bytes that string spells.
pub fn get_bytecode_from_artifact(artifact: &str) -> (res: Result<Vec<u8>, String>)
    ensures
        match json_string_member(artifact@, "bytecode"@, "object"@) {
            Err(e) => res is Err && res->Err_0@ == e,
            Ok(None) => res is Err && res->Err_0@ == "Missing bytecode object in artifact"@,
            Ok(Some(object)) => match res {
                Ok(bytes) => bytecode_of_object(object) == Ok::<Seq<u8>, Seq<char>>(bytes@),
                Err(e) => bytecode_of_object(object) == Err::<Seq<u8>, Seq<char>>(e@),
            },
        },
{
    match string_member_json(artifact, "bytecode", "object") {
        Err(e) => Err(e),
        Ok(None) => Err(String::from_str("Missing bytecode object in artifact")),
        Ok(Some(object)) => decode_bytecode_object(object.as_str()),
    }
}

} // verus!
