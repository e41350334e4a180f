use attendance::clock::Timestamp;
use attendance::export::{export_path_of, payload, ExportLog};
use attendance::json::to_json;
use attendance::record::NameTagDB;
use attendance::session::{greeting, Session};

fn stamp(millis: u64, year: u32, month: u32, day: u32, minute: u32) -> Timestamp {
    Timestamp { millis, year, month, day, minute }
}

fn row(id: &str, first: &str) -> NameTagDB {
    NameTagDB::from_row(
        id.to_string(),
        first.to_string(),
        "doe".to_string(),
        2025,
        false,
        "2/1/2025".to_string(),
    )
}

#[test]
fn export_path_concrete() {
    assert_eq!(export_path_of(&stamp(0, 2025, 1, 2, 3)), "dumps/2025123.json");
    assert_eq!(export_path_of(&stamp(0, 2024, 12, 31, 59)), "dumps/2024123159.json");
}

#[test]
fn payload_concatenates_without_separators() {
    let rows = vec![row("1", "ann"), row("2", "bob")];
    let expected = format!("{}{}", to_json(&rows[0]), to_json(&rows[1]));
    assert_eq!(payload(&rows), expected);
}

#[test]
fn export_same_minute_appends() {
    let mut log = ExportLog::new();
    let t = stamp(0, 2025, 1, 2, 3);
    let first = vec![row("1", "ann")];
    let second = vec![row("1", "ann"), row("2", "bob")];
    log.export(&first, &t).unwrap();
    assert_eq!(log.file_count(), 1);
    assert_eq!(log.name_at(0), "dumps/2025123.json");
    assert_eq!(log.content_at(0), payload(&first));
    log.export(&second, &t).unwrap();
    assert_eq!(log.file_count(), 1);
    let both = format!("{}{}", payload(&first), payload(&second));
    assert_eq!(log.content_at(0), both);
}

#[test]
fn export_distinct_minutes_distinct_artifacts() {
    let mut log = ExportLog::new();
    let rows = vec![row("1", "ann")];
    log.export(&rows, &stamp(0, 2025, 1, 2, 3)).unwrap();
    log.export(&rows, &stamp(0, 2025, 1, 2, 4)).unwrap();
    assert_eq!(log.file_count(), 2);
    assert_eq!(log.name_at(0), "dumps/2025123.json");
    assert_eq!(log.name_at(1), "dumps/2025124.json");
    assert_eq!(log.content_at(0), payload(&rows));
    assert_eq!(log.content_at(1), payload(&rows));
}

#[test]
fn greeting_three_tokens_with_year() {
    assert_eq!(
        greeting(&"John Doe 2025".to_string()),
        "Welcome John Doe, Graduation year: 2025"
    );
}

#[test]
fn greeting_plain_buffer() {
    assert_eq!(greeting(&"John".to_string()), "Welcome John");
    assert_eq!(greeting(&"John Doe abc".to_string()), "Welcome John Doe abc");
    assert_eq!(greeting(&"John Doe 0".to_string()), "Welcome John Doe 0");
}

#[test]
fn greeting_empty_buffer() {
    assert_eq!(greeting(&String::new()), "");
}

#[test]
fn submit_stores_and_clears() {
    let mut s = Session::new();
    s.set_input("John Doe 2025".to_string());
    s.submit(&stamp(77, 2025, 1, 2, 3));
    assert_eq!(s.buffer, "");
    let rows = s.store.scan_all().unwrap();
    assert_eq!(rows.len(), 1);
    assert_eq!(rows[0].id, "77");
    assert_eq!(rows[0].first_name, "john");
    assert_eq!(rows[0].last_name, "doe");
    assert_eq!(rows[0].grad_year, 2025);
    assert!(!rows[0].badge);
    assert_eq!(rows[0].creation_date, "2/1/2025");
}

#[test]
fn submit_drops_malformed() {
    let mut s = Session::new();
    s.set_input("John Doe".to_string());
    s.submit(&stamp(77, 2025, 1, 2, 3));
    assert_eq!(s.buffer, "");
    assert_eq!(s.store.scan_all().unwrap().len(), 0);
}

#[test]
fn frame_submits_badge_input_at_once() {
    let mut s = Session::new();
    s.set_input("JOHN$DOE$2025%".to_string());
    let greet = s.frame("secret", &stamp(88, 2025, 1, 2, 3));
    assert_eq!(greet, "");
    assert_eq!(s.buffer, "");
    let rows = s.store.scan_all().unwrap();
    assert_eq!(rows.len(), 1);
    assert_eq!(rows[0].id, "88");
    assert_eq!(rows[0].first_name, "john");
    assert!(rows[0].badge);
}

#[test]
fn frame_clears_malformed_badge_input_without_storing() {
    let mut s = Session::new();
    s.set_input("xyz%".to_string());
    let greet = s.frame("secret", &stamp(9, 2025, 1, 2, 3));
    assert_eq!(greet, "");
    assert_eq!(s.buffer, "");
    assert_eq!(s.store.scan_all().unwrap().len(), 0);
}

#[test]
fn frame_toggles_admin_on_password() {
    let mut s = Session::new();
    s.set_input("secret".to_string());
    let greet = s.frame("secret", &stamp(0, 2025, 1, 2, 3));
    assert!(s.admin);
    assert_eq!(greet, "Welcome secret");
    s.set_input("something else entirely".to_string());
    s.frame("secret", &stamp(0, 2025, 1, 2, 3));
    assert!(!s.admin);
}

#[test]
fn export_all_snapshots_store() {
    let mut s = Session::new();
    s.set_input("ann lee 2027".to_string());
    s.submit(&stamp(1, 2025, 1, 2, 3));
    s.set_input("bob may 2028".to_string());
    s.submit(&stamp(2, 2025, 1, 2, 3));
    s.export_all(&stamp(5, 2025, 1, 2, 3)).unwrap();
    assert_eq!(s.exports.file_count(), 1);
    assert_eq!(s.exports.name_at(0), "dumps/2025123.json");
    let rows = s.store.scan_all().unwrap();
    assert_eq!(s.exports.content_at(0), payload(&rows));
    s.export_all(&stamp(6, 2025, 1, 2, 4)).unwrap();
    assert_eq!(s.exports.file_count(), 2);
}
