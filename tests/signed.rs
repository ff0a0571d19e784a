use pyrsia::signed::{create_key_pair, parse, path_to_str, JsonPathElement, SignatureAlgorithms, SignatureKeyPair, SigningError};

#[test]
fn path_to_string_test() {
    let path = vec![JsonPathElement::Field("__signature"), JsonPathElement::Index(4)];
    assert_eq!("path[field:\"__signature\",4]", path_to_str(&path))
}

#[test]
fn parse_failures() {
    let object_path = vec![JsonPathElement::Field("__signature")];
    let object_json = r#"{"a":"x","b":"y"}"#;
    let index_json = "[1,3,7]";
    match parse(object_json, &object_path) {
        Ok(_) => panic!("Not-found field did not produce an error"),
        Err(_) => {}
    };
    match parse(index_json, &object_path) {
        Ok(_) => panic!("Not-found field did not produce an error"),
        Err(_) => {}
    };
    let index_path = vec![JsonPathElement::Index(4)];
    match parse(object_json, &index_path) {
        Ok(_) => panic!("Not-found index did not produce an error"),
        Err(_) => {}
    };
    match parse(index_json, &index_path) {
        Ok(_) => panic!("Not-found index did not produce an error"),
        Err(_) => {}
    };
}

#[test]
fn empty_path_text() {
    let path: Vec<JsonPathElement> = vec![];
    assert_eq!("path[]", path_to_str(&path));
}

#[test]
fn multi_digit_index_text() {
    let path = vec![
        JsonPathElement::Index(0),
        JsonPathElement::Index(1207),
        JsonPathElement::Field("a"),
    ];
    assert_eq!("path[0\",1207\",field:\"a]", path_to_str(&path));
}

#[test]
fn parse_error_names_path() {
    let path = vec![JsonPathElement::Field("x"), JsonPathElement::Index(10)];
    let err = parse("{}", &path).unwrap_err();
    assert_eq!(err.message, "Did not find path[field:\"x\",10]");
}

#[test]
fn happy_path_for_signing() -> Result<(), SigningError> {
    let key_pair: SignatureKeyPair = create_key_pair(SignatureAlgorithms::RsaPkcs1Sha3_512)?;
    assert_eq!(key_pair.signature_algorithm, SignatureAlgorithms::RsaPkcs1Sha3_512);
    assert!(!key_pair.private_key.is_empty());
    assert!(!key_pair.public_key.is_empty());
    assert_ne!(key_pair.private_key, key_pair.public_key);

    create_key_pair(SignatureAlgorithms::RsaPkcs1Sha512)?;

    Ok(())
}
