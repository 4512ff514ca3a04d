use tracker::artifact::{decode_bytecode_object, get_bytecode_from_artifact};

#[test]
fn bytecode_is_the_decoded_object() {
    let artifact = r#"{"abi":[],"bytecode":{"object":"0x6080604052","linkReferences":{}}}"#;
    assert_eq!(get_bytecode_from_artifact(artifact).unwrap(), vec![0x60, 0x80, 0x60, 0x40, 0x52]);
}

#[test]
fn both_cases_of_hex_digits_decode() {
    assert_eq!(decode_bytecode_object("0xaBcD0f").unwrap(), vec![0xab, 0xcd, 0x0f]);
    assert_eq!(decode_bytecode_object("0x").unwrap(), Vec::<u8>::new());
}

#[test]
fn missing_member_is_an_error() {
    assert_eq!(get_bytecode_from_artifact(r#"{"abi":[]}"#).unwrap_err(), "Missing bytecode object in artifact");
    assert_eq!(
        get_bytecode_from_artifact(r#"{"bytecode":{"object":0}}"#).unwrap_err(),
        "Missing bytecode object in artifact"
    );
    assert_eq!(
        get_bytecode_from_artifact(r#"{"bytecode":"0x60"}"#).unwrap_err(),
        "Missing bytecode object in artifact"
    );
}

#[test]
fn malformed_object_is_an_error() {
    assert_eq!(decode_bytecode_object("6080").unwrap_err(), "Missing 0x prefix in bytecode object");
    assert_eq!(decode_bytecode_object("0").unwrap_err(), "Missing 0x prefix in bytecode object");
    assert_eq!(decode_bytecode_object("0x608").unwrap_err(), "Odd number of hex digits in bytecode object");
    assert_eq!(decode_bytecode_object("0x60g0").unwrap_err(), "Invalid hex digit in bytecode object");
    assert_eq!(
        get_bytecode_from_artifact(r#"{"bytecode":{"object":"0xzz"}}"#).unwrap_err(),
        "Invalid hex digit in bytecode object"
    );
}

#[test]
fn text_that_is_not_json_gives_the_parser_error() {
    let err = get_bytecode_from_artifact("").unwrap_err();
    assert_eq!(err, "EOF while parsing a value at line 1 column 0");
    assert!(get_bytecode_from_artifact("not json").is_err());
}
