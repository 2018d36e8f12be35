use lsock::decoder::decode_json_text;
use lsock::dynamic::{DynKey, DynValue};
use lsock::number::JsonNumber;

fn whole(mantissa: u64) -> DynValue {
    DynValue::Number(JsonNumber { nan: false, positive: true, mantissa, exponent: 0 })
}

fn name(text: &str) -> DynKey {
    DynKey::Name(text.to_string())
}

#[test]
fn keys_compare_by_kind_and_content() {
    assert!(DynKey::Index(1).same(&DynKey::Index(1)));
    assert!(!DynKey::Index(1).same(&DynKey::Index(2)));
    assert!(name("a").same(&name("a")));
    assert!(!name("a").same(&name("b")));
    assert!(!name("1").same(&DynKey::Index(1)));
    assert!(!DynKey::Index(1).same(&name("1")));
}

#[test]
fn get_finds_array_items_under_their_positions() {
    let value = decode_json_text("[10,20,30]").unwrap();
    assert_eq!(value.get(&DynKey::Index(1)), Some(&whole(10)));
    assert_eq!(value.get(&DynKey::Index(2)), Some(&whole(20)));
    assert_eq!(value.get(&DynKey::Index(3)), Some(&whole(30)));
    assert_eq!(value.get(&DynKey::Index(0)), None);
    assert_eq!(value.get(&DynKey::Index(4)), None);
    assert_eq!(value.get(&name("1")), None);
}

#[test]
fn get_finds_object_values_under_their_keys() {
    let value = decode_json_text("{\"a\":1,\"b\":[true],\"\":null}").unwrap();
    assert_eq!(value.get(&name("a")), Some(&whole(1)));
    assert_eq!(
        value.get(&name("b")),
        Some(&DynValue::Table(vec![(DynKey::Index(1), DynValue::Boolean(true))]))
    );
    assert_eq!(value.get(&name("")), Some(&DynValue::Nil));
    assert_eq!(value.get(&name("c")), None);
    assert_eq!(value.get(&DynKey::Index(1)), None);
}

#[test]
fn get_gives_the_last_entry_under_a_key() {
    let value = DynValue::Table(vec![
        (name("k"), whole(1)),
        (DynKey::Index(1), whole(2)),
        (name("k"), whole(3)),
    ]);
    assert_eq!(value.get(&name("k")), Some(&whole(3)));
    assert_eq!(value.get(&DynKey::Index(1)), Some(&whole(2)));
}

#[test]
fn get_finds_nothing_in_what_is_no_table() {
    assert_eq!(DynValue::Nil.get(&DynKey::Index(1)), None);
    assert_eq!(DynValue::Boolean(true).get(&name("a")), None);
    assert_eq!(whole(1).get(&DynKey::Index(1)), None);
    assert_eq!(DynValue::Integer(1).get(&DynKey::Index(1)), None);
    assert_eq!(DynValue::String("abc".to_string()).get(&DynKey::Index(1)), None);
    assert_eq!(DynValue::Foreign.get(&name("a")), None);
    assert_eq!(DynValue::Table(vec![]).get(&name("a")), None);
}
