use attendance::clock::Timestamp;
use attendance::digits::u64_to_string;
use attendance::errors::DBError;
use attendance::json::to_json;
use attendance::parse::parse;
use attendance::record::NameTagDB;
use attendance::store::Store;

fn stamp(millis: u64, year: u32, month: u32, day: u32, minute: u32) -> Timestamp {
    Timestamp { millis, year, month, day, minute }
}

#[test]
fn decimal_rendering_exact() {
    assert_eq!(u64_to_string(0), "0");
    assert_eq!(u64_to_string(7), "7");
    assert_eq!(u64_to_string(1234567890), "1234567890");
    assert_eq!(u64_to_string(u64::MAX), "18446744073709551615");
}

#[test]
fn materialize_concrete() {
    let t = parse("John Doe 2025").unwrap();
    let r = NameTagDB::materialize(t, &stamp(1700000000123, 2025, 1, 2, 3));
    assert_eq!(r.id, "1700000000123");
    assert_eq!(r.first_name, "john");
    assert_eq!(r.last_name, "doe");
    assert_eq!(r.grad_year, 2025i64);
    assert!(!r.badge);
    assert_eq!(r.creation_date, "2/1/2025");
}

#[test]
fn materialize_distinct_millis_distinct_ids() {
    let a = parse("John Doe 2025").unwrap();
    let b = parse("John Doe 2025").unwrap();
    let ra = NameTagDB::materialize(a, &stamp(1000, 2025, 1, 2, 3));
    let rb = NameTagDB::materialize(b, &stamp(1001, 2025, 1, 2, 3));
    assert_ne!(ra.id, rb.id);
}

#[test]
fn from_row_keeps_fields() {
    let r = NameTagDB::from_row(
        "17".to_string(),
        "ann".to_string(),
        "lee".to_string(),
        2030,
        true,
        "5/6/2027".to_string(),
    );
    assert_eq!(r.id, "17");
    assert_eq!(r.first_name, "ann");
    assert_eq!(r.last_name, "lee");
    assert_eq!(r.grad_year, 2030);
    assert!(r.badge);
    assert_eq!(r.creation_date, "5/6/2027");
}

#[test]
fn insert_then_scan_roundtrip() {
    let mut store = Store::new();
    assert_eq!(store.len(), 0);
    let names = ["ann lee 2027", "bob may 2028", "cal kim 2029"];
    for (i, line) in names.iter().enumerate() {
        let t = parse(line).unwrap();
        let r = NameTagDB::materialize(t, &stamp(1000 + i as u64, 2025, 1, 2, 3));
        store.insert(r).unwrap();
    }
    assert_eq!(store.len(), 3);
    let rows = store.scan_all().unwrap();
    assert_eq!(rows.len(), 3);
    assert_eq!(rows[0].first_name, "ann");
    assert_eq!(rows[0].id, "1000");
    assert_eq!(rows[1].first_name, "bob");
    assert_eq!(rows[1].id, "1001");
    assert_eq!(rows[2].first_name, "cal");
    assert_eq!(rows[2].id, "1002");
    for (row, line) in rows.iter().zip(names.iter()) {
        let t = parse(line).unwrap();
        assert_eq!(row.first_name, t.first_name);
        assert_eq!(row.last_name, t.last_name);
        assert_eq!(row.grad_year, t.grad_year as i64);
        assert_eq!(row.badge, t.badge);
    }
}

#[test]
fn db_error_messages() {
    assert_eq!(DBError::InsertionError.describe(), "Failed to insert element into DB");
    assert_eq!(DBError::ExtractionError.describe(), "Failed to extract elements from DB");
}

#[test]
fn json_encoding_exact() {
    let r = NameTagDB::from_row(
        "1".to_string(),
        "john".to_string(),
        "doe".to_string(),
        2025,
        false,
        "2/1/2025".to_string(),
    );
    assert_eq!(
        to_json(&r),
        "{\"id\":\"1\",\"first_name\":\"john\",\"last_name\":\"doe\",\"grad_year\":2025,\
         \"badge\":false,\"creation_date\":\"2/1/2025\"}"
    );
}

#[test]
fn json_escapes_special_characters() {
    let r = NameTagDB::from_row(
        "1".to_string(),
        "a\"b".to_string(),
        "c\\d".to_string(),
        -3,
        true,
        "x\ny".to_string(),
    );
    assert_eq!(
        to_json(&r),
        "{\"id\":\"1\",\"first_name\":\"a\\\"b\",\"last_name\":\"c\\\\d\",\"grad_year\":-3,\
         \"badge\":true,\"creation_date\":\"x\\u000ay\"}"
    );
}

#[test]
fn json_is_valid_for_serde() {
    let r = NameTagDB::from_row(
        "1700000000123".to_string(),
        "an\"na".to_string(),
        "o'h\u{e1}ra".to_string(),
        2031,
        true,
        "31/12/2031".to_string(),
    );
    let text = to_json(&r);
    let v: serde_json::Value = serde_json::from_str(&text).unwrap();
    assert_eq!(v["id"], "1700000000123");
    assert_eq!(v["first_name"], "an\"na");
    assert_eq!(v["last_name"], "o'h\u{e1}ra");
    assert_eq!(v["grad_year"], 2031);
    assert_eq!(v["badge"], true);
    assert_eq!(v["creation_date"], "31/12/2031");
}
