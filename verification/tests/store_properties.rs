use key_value_db::db::{Database, InMemoryDb};
use key_value_db::value::{FloatBits, Storable, Value};

#[test]
fn fresh_store_has_no_entry_under_any_key() {
    let db = InMemoryDb::new();
    assert!(db.is_empty());
    assert!(db.get("anything").is_none());
    assert!(db.get_as::<i32>("anything").is_none());
    assert!(db.get_as::<String>("").is_none());
}

#[test]
fn round_trip_for_every_storable_type() {
    let mut db = InMemoryDb::new();
    db.insert("text".to_string(), "annie".to_string().wrap());
    db.insert("i32".to_string(), 42i32.wrap());
    db.insert("i64".to_string(), 7_000_000_000i64.wrap());
    db.insert("bool".to_string(), true.wrap());
    db.insert("float".to_string(), FloatBits { bits: 5.9f64.to_bits() }.wrap());
    let pairs = vec![("city".to_string(), "Seattle".to_string())];
    db.insert("map".to_string(), pairs.clone().wrap());

    assert_eq!(db.get_as::<String>("text"), Some(&"annie".to_string()));
    assert_eq!(db.get_as::<i32>("i32"), Some(&42i32));
    assert_eq!(db.get_as::<i64>("i64"), Some(&7_000_000_000i64));
    assert_eq!(db.get_as::<bool>("bool"), Some(&true));
    let held = db.get_as::<FloatBits>("float").unwrap();
    assert_eq!(f64::from_bits(held.bits), 5.9f64);
    assert_eq!(db.get_as::<Vec<(String, String)>>("map"), Some(&pairs));
}

#[test]
fn overwrite_with_another_type_replaces_type_and_value() {
    let mut db = InMemoryDb::new();
    db.insert("slot".to_string(), Value::Text("first".to_string()));
    assert_eq!(db.get_as::<String>("slot"), Some(&"first".to_string()));
    db.insert("slot".to_string(), Value::Int64(99));
    assert!(db.get_as::<String>("slot").is_none());
    assert_eq!(db.get_as::<i64>("slot"), Some(&99i64));
}

#[test]
fn type_mismatch_read_returns_absent() {
    let mut db = InMemoryDb::new();
    db.insert("n".to_string(), Value::Int32(5));
    assert!(db.get_as::<String>("n").is_none());
    assert!(db.get_as::<bool>("n").is_none());
    assert!(db.get_as::<FloatBits>("n").is_none());
    assert!(db.get_as::<Vec<(String, String)>>("n").is_none());
}

#[test]
fn no_coercion_between_integer_widths() {
    let mut db = InMemoryDb::new();
    db.insert("narrow".to_string(), Value::Int32(5));
    db.insert("wide".to_string(), Value::Int64(5));
    assert!(db.get_as::<i64>("narrow").is_none());
    assert!(db.get_as::<i32>("wide").is_none());
    assert_eq!(db.get_as::<i32>("narrow"), Some(&5i32));
    assert_eq!(db.get_as::<i64>("wide"), Some(&5i64));
}

#[test]
fn read_after_remove_is_absent_for_the_original_type() {
    let mut db = InMemoryDb::new();
    db.insert("k".to_string(), Value::Bool(true));
    let removed = db.remove("k");
    assert_eq!(removed.unwrap().downcast_ref::<bool>(), Some(&true));
    assert!(db.get_as::<bool>("k").is_none());
    assert!(db.get("k").is_none());
    assert!(db.remove("k").is_none());
    assert!(db.is_empty());
}

#[test]
fn remove_on_missing_key_is_a_no_op() {
    let mut db = InMemoryDb::new();
    db.insert("kept".to_string(), Value::Int32(1));
    assert!(db.remove("other").is_none());
    assert_eq!(db.get_as::<i32>("kept"), Some(&1i32));
    assert!(!db.is_empty());
}

#[test]
fn downcast_ref_checks_the_stored_type_exactly() {
    let v = Value::Int32(42);
    assert_eq!(v.downcast_ref::<i32>(), Some(&42i32));
    assert!(v.downcast_ref::<i64>().is_none());
    assert!(v.downcast_ref::<String>().is_none());
    let t = Value::Text("abc".to_string());
    assert_eq!(t.downcast_ref::<String>(), Some(&"abc".to_string()));
    assert!(t.downcast_ref::<i32>().is_none());
}

#[test]
fn age_scenario_insert_overwrite_mismatch_remove() {
    let mut db = InMemoryDb::new();
    db.insert("age".to_string(), Value::Int32(42));
    assert_eq!(db.get_as::<i32>("age"), Some(&42i32));
    db.insert("age".to_string(), Value::Int32(43));
    assert_eq!(db.get_as::<i32>("age"), Some(&43i32));
    assert!(db.get_as::<String>("age").is_none());
    let removed = db.remove("age");
    assert_eq!(removed.unwrap().downcast_ref::<i32>(), Some(&43i32));
    assert!(db.get_as::<i32>("age").is_none());
    assert!(db.remove("age").is_none());
}

#[test]
fn distinct_keys_hold_independent_entries() {
    let mut db = InMemoryDb::new();
    db.insert("a".to_string(), Value::Int32(1));
    db.insert("b".to_string(), Value::Int32(2));
    db.insert("c".to_string(), Value::Text("three".to_string()));
    assert_eq!(db.get_as::<i32>("a"), Some(&1i32));
    assert_eq!(db.get_as::<i32>("b"), Some(&2i32));
    assert_eq!(db.get_as::<String>("c"), Some(&"three".to_string()));
    db.remove("b");
    assert_eq!(db.get_as::<i32>("a"), Some(&1i32));
    assert!(db.get_as::<i32>("b").is_none());
    assert_eq!(db.get_as::<String>("c"), Some(&"three".to_string()));
}
