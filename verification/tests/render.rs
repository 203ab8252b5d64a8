use unterflow::convert::Data;
use unterflow::render::{decimal_text, list, payload, show, Entry, Structured};

/// A map with one entry: a text as key, and as value the bytes as they are.
fn map(key: &str, value: &[u8]) -> Vec<u8> {
    let mut bytes = vec![0x81, 0xA0 + key.len() as u8];
    bytes.extend_from_slice(key.as_bytes());
    bytes.extend_from_slice(value);
    bytes
}

/// The bytes as a binary value.
fn binary(bytes: &[u8]) -> Vec<u8> {
    let mut value = vec![0xC4, bytes.len() as u8];
    value.extend_from_slice(bytes);
    value
}

#[test]
fn a_blob_that_holds_a_map_is_shown_as_the_map() {
    assert_eq!(Data(map("a", &[1])).render(), "{\"a\": 1}");
    assert_eq!(Data(vec![0x80]).render(), "{}");
    assert_eq!(
        Data(vec![0x82, 0xA1, 0x61, 0xC3, 0x02, 0x92, 0xC0, 0xA1, 0x62]).render(),
        "{\"a\": true, 2: [nil, \"b\"]}"
    );
    // bytes behind the map are not shown
    let mut bytes = map("a", &[1]);
    bytes.extend_from_slice(&[9, 9]);
    assert_eq!(Data(bytes).render(), "{\"a\": 1}");
}

#[test]
fn the_payload_of_a_map_is_shown_behind_it() {
    let inner = map("b", &[2]);
    let data = Data(map("payload", &binary(&inner)));
    assert_eq!(
        data.render(),
        "{\"payload\": [129, 161, 98, 2]}, payload (decoded): {\"b\": 2}"
    );
    // a payload that is no map is shown as well
    let data = Data(map("payload", &binary(&[0x2A])));
    assert_eq!(data.render(), "{\"payload\": [42]}, payload (decoded): 42");
}

#[test]
fn a_payload_that_is_no_structured_value_is_not_shown() {
    // binary, and cut short
    let data = Data(map("payload", &binary(&[0x81, 0xA1])));
    assert_eq!(data.render(), "{\"payload\": [129, 161]}");
    // no binary value
    let data = Data(map("payload", &[0xA1, 0x78]));
    assert_eq!(data.render(), "{\"payload\": \"x\"}");
    // no entry of that name
    let data = Data(map("payloads", &binary(&[0x2A])));
    assert_eq!(data.render(), "{\"payloads\": [42]}");
}

#[test]
fn the_first_entry_named_payload_counts() {
    let mut bytes = vec![0x83];
    bytes.extend_from_slice(&map("x", &[1])[1..]);
    bytes.extend_from_slice(&map("payload", &[0xC0])[1..]);
    bytes.extend_from_slice(&map("payload", &binary(&[0x2A]))[1..]);
    assert_eq!(Data(bytes).render(), "{\"x\": 1, \"payload\": nil, \"payload\": [42]}");

    let mut bytes = vec![0x82];
    bytes.extend_from_slice(&map("payload", &binary(&[0x01]))[1..]);
    bytes.extend_from_slice(&map("payload", &binary(&[0x02]))[1..]);
    assert_eq!(
        Data(bytes).render(),
        "{\"payload\": [1], \"payload\": [2]}, payload (decoded): 1"
    );
}

#[test]
fn any_other_blob_is_shown_as_its_bytes() {
    assert_eq!(Data(vec![]).render(), "Data([])");
    // a structured value that is no map
    assert_eq!(Data(vec![1, 2, 3]).render(), "Data([1, 2, 3])");
    assert_eq!(Data(vec![0x92, 1, 2]).render(), "Data([146, 1, 2])");
    // a map that is cut short
    assert_eq!(Data(vec![0x81, 0xA1]).render(), "Data([129, 161])");
    assert_eq!(Data(vec![0xC1, 255]).render(), "Data([193, 255])");
}

#[test]
fn the_payload_is_the_binary_value_of_the_first_entry_of_that_name() {
    let entry = |key: Option<&str>, binary: Option<Vec<u8>>| Entry {
        key: key.map(str::to_string),
        binary,
    };
    let structured = |entries| Structured { is_map: true, text: "{..}".to_string(), entries };
    assert_eq!(payload(&structured(vec![])), None);
    assert_eq!(
        payload(&structured(vec![
            entry(None, Some(vec![1])),
            entry(Some("Payload"), Some(vec![2])),
            entry(Some("payload"), Some(vec![3])),
            entry(Some("payload"), Some(vec![4])),
        ])),
        Some(&vec![3])
    );
    assert_eq!(
        payload(&structured(vec![
            entry(Some("payload"), None),
            entry(Some("payload"), Some(vec![4])),
        ])),
        None
    );
    assert_eq!(show(structured(vec![]), None), "{..}");
    assert_eq!(
        show(
            structured(vec![]),
            Some(Structured { is_map: false, text: "7".to_string(), entries: vec![] })
        ),
        "{..}, payload (decoded): 7"
    );
}

#[test]
fn bytes_are_listed_as_decimal_numbers() {
    assert_eq!(list(&vec![]), "[]");
    assert_eq!(list(&vec![0]), "[0]");
    assert_eq!(list(&vec![7, 10, 99, 100, 255]), "[7, 10, 99, 100, 255]");
    let all: Vec<u8> = (0..=255).collect();
    assert_eq!(list(&all), format!("{:?}", all));
    for byte in 0..=255u8 {
        assert_eq!(decimal_text(byte), byte.to_string());
    }
}
