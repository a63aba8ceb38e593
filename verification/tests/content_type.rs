use cincinnati::content_type::{
    acceptable_content_types, top_type_wildcard_of, validate_content_type,
    validate_content_type_by, FieldValue,
};
use cincinnati::versions::{VersionTable, MIN_CINCINNATI_VERSION};
use cincinnati::errors::GraphError;

#[test]
fn test_validate_content_type() {
    let content_type: Vec<FieldValue> = vec![FieldValue::from_str("application/json").unwrap()];
    let version = validate_content_type(None, content_type.clone()).unwrap(); // if the request leaves Accept empty, we return the minimum supported cincinnati version
    assert_eq!(version, MIN_CINCINNATI_VERSION.to_string());

    let accept = FieldValue::from_str("application/json").unwrap();
    let version = validate_content_type(Some(&accept), content_type.clone()).unwrap();
    assert_eq!(version, "application/json");

    let accept = FieldValue::from_str("text/*").unwrap();
    let text_type: Vec<FieldValue> = vec![FieldValue::from_str("text/plain").unwrap()];
    let version = validate_content_type(Some(&accept), text_type).unwrap();
    assert_eq!(version, "text/*");

    let image_type: Vec<FieldValue> = vec![FieldValue::from_str("image/png").unwrap()];
    validate_content_type(Some(&accept), image_type).unwrap_err();

    let accept = FieldValue::from_str("application/vnd.redhat.cincinnati.v1+json").unwrap();
    let cincinnati_v1: Vec<FieldValue> =
        vec![FieldValue::from_str("application/vnd.redhat.cincinnati.v1+json").unwrap()];
    let version = validate_content_type(Some(&accept), cincinnati_v1).unwrap(); // if the request leaves Accept empty, we can return whatever we want
    assert_eq!(version, "application/vnd.redhat.cincinnati.v1+json");
}

#[test]
fn wildcards_are_accepted_and_echoed() {
    let producible = vec![FieldValue::from_str("application/json").unwrap()];
    for wanted in ["*", "*/*", "application/*", "application/json"] {
        let accept = FieldValue::from_str(wanted).unwrap();
        assert_eq!(validate_content_type(Some(&accept), producible.clone()).unwrap(), wanted);
    }
    for wanted in ["application", "text/*", "application/json, text/*; q=0.2", "", "/*"] {
        let accept = FieldValue::from_str(wanted).unwrap();
        match validate_content_type(Some(&accept), producible.clone()) {
            Err(GraphError::InvalidContentType) => {}
            other => panic!("unexpected outcome: {:?}", other),
        }
    }
    let accept = FieldValue::from_str("*").unwrap();
    assert_eq!(validate_content_type(Some(&accept), Vec::new()).unwrap(), "*");
}

#[test]
fn unreadable_accept_gets_the_minimum() {
    let opaque = FieldValue::from_bytes(b"application/\xfa").unwrap();
    assert!(opaque.to_str().is_none());
    let producible = vec![opaque.clone()];
    assert_eq!(
        validate_content_type(Some(&opaque), producible.clone()).unwrap(),
        MIN_CINCINNATI_VERSION
    );
    // a media type that cannot be read as text has the empty top-level type
    let accept = FieldValue::from_str("/*").unwrap();
    assert_eq!(validate_content_type(Some(&accept), producible).unwrap(), "/*");
}

#[test]
fn field_values_hold_no_control_characters() {
    assert!(FieldValue::from_str("a\tb c").is_some());
    assert!(FieldValue::from_str("a\nb").is_none());
    assert!(FieldValue::from_bytes(b"\x7f").is_none());
    assert!(FieldValue::from_bytes(b"\x1f").is_none());
    assert!(FieldValue::from_bytes(b"\x80\xff").is_some());
    let value = FieldValue::from_str("é").unwrap();
    assert_eq!(value.as_bytes(), &vec![0xc3u8, 0xa9u8]);
    assert!(value.to_str().is_none());
    assert_eq!(FieldValue::from_str("a\tb ~").unwrap().to_str().unwrap(), "a\tb ~");
    assert_eq!(FieldValue::from_str("text/*").unwrap(), FieldValue::from_bytes(b"text/*").unwrap());
    assert_ne!(FieldValue::from_str("text/*").unwrap(), FieldValue::from_bytes(b"text/").unwrap());
}

#[test]
fn acceptable_types_in_order() {
    let producible = vec![
        FieldValue::from_str("application/json").unwrap(),
        FieldValue::from_str("text").unwrap(),
    ];
    let all = acceptable_content_types(&producible);
    let expected: Vec<&[u8]> =
        vec![b"*", b"*/*", b"application/json", b"text", b"application/*", b"text/*"];
    assert_eq!(all.len(), expected.len());
    for (got, want) in all.iter().zip(expected) {
        assert_eq!(got.as_bytes().as_slice(), want);
    }
    let nested = FieldValue::from_str("a/b/c").unwrap();
    assert_eq!(top_type_wildcard_of(&nested).as_bytes().as_slice(), b"a/*");
}

#[test]
fn the_default_of_the_table_is_the_minimum() {
    let table = VersionTable::new("text/plain".to_string());
    let producible = vec![FieldValue::from_str("application/json").unwrap()];
    assert_eq!(validate_content_type_by(&table, None, producible.clone()).unwrap(), "text/plain");
    let opaque = FieldValue::from_bytes(b"\xff").unwrap();
    assert_eq!(
        validate_content_type_by(&table, Some(&opaque), vec![opaque.clone()]).unwrap(),
        "text/plain"
    );
    let accept = FieldValue::from_str("application/*").unwrap();
    assert_eq!(
        validate_content_type_by(&table, Some(&accept), producible.clone()).unwrap(),
        "application/*"
    );
    let accept = FieldValue::from_str("text/plain").unwrap();
    assert!(validate_content_type_by(&table, Some(&accept), producible).is_err());
    assert_eq!(
        validate_content_type_by(&VersionTable::cincinnati(), None, Vec::new()).unwrap(),
        MIN_CINCINNATI_VERSION
    );
}
