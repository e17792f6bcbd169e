use sha2::{Digest, Sha256};
use tns::{sha256_bytes, sha256_json, ExpansionDelta, WorkingBody};

fn hex_hash(bytes: &[u8]) -> String {
    format!("sha256:{:x}", Sha256::digest(bytes))
}

#[test]
fn sha256_of_abc_is_the_standard_vector() {
    assert_eq!(
        sha256_bytes(b"abc"),
        "sha256:ba7816bf8f01cfea414140de5dae2223b00361a396177a9cb410ff61f20015ad"
    );
}

#[test]
fn sha256_of_empty_input() {
    assert_eq!(
        sha256_bytes(b""),
        "sha256:e3b0c44298fc1c149afbf4c8996fb92427ae41e4649b934ca495991b7852b855"
    );
}

#[test]
fn sha256_json_hashes_the_utf8_text() {
    assert_eq!(sha256_json("{\"k\":\"é\"}"), hex_hash("{\"k\":\"é\"}".as_bytes()));
}

#[test]
fn working_body_json_escapes_and_counts_as_serde_json() {
    let key = "a\"b\\c\n\t\r\u{8}\u{c}\u{1}\u{1f}é/\u{7f}";
    let wb = WorkingBody {
        columns: 1234567890,
        state: vec![(key.to_string(), String::new())],
    };
    let mut map = serde_json::Map::new();
    map.insert(key.to_string(), serde_json::Value::from(""));
    let mut obj = serde_json::Map::new();
    obj.insert("columns".to_string(), serde_json::Value::from(1234567890u64));
    obj.insert("state".to_string(), serde_json::Value::Object(map));
    let expected = serde_json::to_string(&serde_json::Value::Object(obj)).unwrap();
    assert_eq!(wb.to_json(), expected);
    assert_eq!(
        wb.to_json(),
        "{\"columns\":1234567890,\"state\":{\"a\\\"b\\\\c\\n\\t\\r\\b\\f\\u0001\\u001fé/\u{7f}\":\"\"}}"
    );
    assert_eq!(wb.hash(), hex_hash(expected.as_bytes()));
}

#[test]
fn working_body_columns_zero_is_written_as_zero() {
    let wb = WorkingBody { columns: 0, state: vec![] };
    assert_eq!(wb.to_json(), "{\"columns\":0,\"state\":{}}");
}

#[test]
fn new_working_body_hash_is_hash_of_its_json() {
    let wb = WorkingBody::new();
    assert_eq!(wb.to_json(), "{\"columns\":1,\"state\":{}}");
    assert_eq!(wb.hash(), hex_hash(b"{\"columns\":1,\"state\":{}}"));
}

#[test]
fn working_body_json_lists_state_in_key_order() {
    let mut wb = WorkingBody::new();
    wb.insert_state("zeta".to_string(), "1".to_string());
    wb.insert_state("alpha".to_string(), "2".to_string());
    wb.insert_state("mid\"q".to_string(), "3".to_string());
    wb.insert_state("alpha".to_string(), "4".to_string());
    assert_eq!(wb.to_json(), "{\"columns\":1,\"state\":{\"alpha\":\"4\",\"mid\\\"q\":\"3\",\"zeta\":\"1\"}}");
    let mut map = serde_json::Map::new();
    map.insert("zeta".to_string(), serde_json::Value::from("1"));
    map.insert("alpha".to_string(), serde_json::Value::from("4"));
    map.insert("mid\"q".to_string(), serde_json::Value::from("3"));
    let mut obj = serde_json::Map::new();
    obj.insert("columns".to_string(), serde_json::Value::from(1));
    obj.insert("state".to_string(), serde_json::Value::Object(map));
    assert_eq!(wb.to_json(), serde_json::to_string(&serde_json::Value::Object(obj)).unwrap());
}

#[test]
fn expansion_grows_one_column_and_links_hashes() {
    let mut wb = WorkingBody::new();
    let before = wb.hash();
    let d = wb.expand("capacity_rejection");
    assert_eq!(wb.columns, 2);
    assert_eq!(wb.state, vec![("expansion_reason".to_string(), "capacity_rejection".to_string())]);
    assert_eq!(d.previous_working_body_hash, before);
    assert_eq!(d.next_working_body_hash, wb.hash());
    assert_eq!(
        wb.hash(),
        hex_hash(b"{\"columns\":2,\"state\":{\"expansion_reason\":\"capacity_rejection\"}}")
    );
    assert!(d.brain_modules_modified.is_empty());
    assert_eq!(d.reason, "capacity_rejection");
}

#[test]
fn expansion_delta_json_keeps_field_order() {
    let d = ExpansionDelta {
        reason: "r".to_string(),
        previous_working_body_hash: "p".to_string(),
        next_working_body_hash: "n".to_string(),
        brain_modules_modified: vec!["m1".to_string(), "m2".to_string()],
    };
    let json = "{\"reason\":\"r\",\"previous_working_body_hash\":\"p\",\"next_working_body_hash\":\"n\",\"brain_modules_modified\":[\"m1\",\"m2\"]}";
    assert_eq!(d.to_json(), json);
    assert_eq!(d.hash(), hex_hash(json.as_bytes()));
    let empty = ExpansionDelta { brain_modules_modified: vec![], ..d };
    assert!(empty.to_json().ends_with("\"brain_modules_modified\":[]}"));
}

#[test]
fn sha256_text_is_prefix_and_64_lower_hex_digits() {
    let text = sha256_bytes(b"brain package");
    assert_eq!(text.len(), 71);
    assert!(text.starts_with("sha256:"));
    assert!(text[7..].chars().all(|c| c.is_ascii_digit() || ('a'..='f').contains(&c)));
    assert_eq!(sha256_json("[]").len(), 71);
}
