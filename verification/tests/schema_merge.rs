use cddl_cat::validate_cbor;
use portal_core::schema::{merged_cddl, SCHEMA};
use serde_cbor::Value;
use std::collections::BTreeMap;

#[test]
fn test_merged_cddl() {
    let schema1: &str = r##"request_1 = {id: int, name: tstr}"##;
    let schema2: &str = r##"request_2 = {id: int, name: tstr}"##;

    let merged_cddl = merged_cddl(&[schema1, schema2]);
    let ctx = merged_cddl.as_ref().unwrap();
    let rule_request_1 = ctx.rules.get("request_1").unwrap();

    let mut fields: BTreeMap<Value, Value> = BTreeMap::new();
    fields.insert(Value::Text("id".to_string()), Value::Integer(1));
    fields.insert(Value::Text("name".to_string()), Value::Text("request_1".to_string()));
    let request_1 = Value::Map(fields);

    let cbor_bytes = serde_cbor::to_vec(&request_1).unwrap();
    let cbor_value = serde_cbor::from_slice(&cbor_bytes).unwrap();
    validate_cbor(rule_request_1, &cbor_value, ctx).unwrap();
}

#[test]
fn test_merged_cddl_duplicate_entry() {
    let schema1: &str = r##"request_1 = {id: int, name: tstr}"##;

    // same key, albeit with captial "ID" -> should error
    let schema2: &str = r##"request_1 = {ID: int, name: tstr}"##;

    let merged_cddl = merged_cddl(&[schema1, schema2]);
    match merged_cddl {
        Err(e) => assert_eq!("CDDL files contain duplicate keys: request_1", e),
        Ok(_) => panic!("Returned an Ok variant!"),
    }
}

#[test]
fn test_merged_cddl_no_valid_cddl() {
    let schema1: &str = r##"foo bar"##;

    let merged_cddl = merged_cddl(&[schema1]);
    match merged_cddl {
        Err(e) => assert_eq!("Unparseable(bar)", e),
        Ok(_) => panic!("Returned an Ok variant!"),
    }
}

#[test]
fn test_own_schema_accepts_encoded_headers() {
    // The node's own schema validates what the header encoders emit.
    let ctx = merged_cddl(&[]).unwrap();
    let request_rule = ctx.rules.get("request").unwrap();
    let req = portal_core::api::Request {
        id: portal_core::api::Id(7),
        path: "/x".to_string(),
        method: Some(portal_core::api::Method::Get),
        has_body: false,
    };
    let mut bytes: Vec<u8> = Vec::new();
    portal_core::api::encode_request(&req, &mut bytes);
    let value = serde_cbor::from_slice(&bytes).unwrap();
    validate_cbor(request_rule, &value, &ctx).unwrap();

    let response_rule = ctx.rules.get("response").unwrap();
    let bytes = portal_core::api::Response::ok(portal_core::api::Id(7)).to_vec();
    let value = serde_cbor::from_slice(&bytes).unwrap();
    validate_cbor(response_rule, &value, &ctx).unwrap();

    let error_rule = ctx.rules.get("error").unwrap();
    let e = portal_core::api::Error::new("/x").with_message("gone");
    let mut bytes: Vec<u8> = Vec::new();
    portal_core::api::encode_error(&e, &mut bytes);
    let value = serde_cbor::from_slice(&bytes).unwrap();
    validate_cbor(error_rule, &value, &ctx).unwrap();
}

#[test]
fn test_schema_constant_parses() {
    assert!(merged_cddl(&[]).is_ok());
    assert!(SCHEMA.contains("request"));
}
