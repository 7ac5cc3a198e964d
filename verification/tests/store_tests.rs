use secure_scan::store::{Finding, ScanId, ScanStatus, ScanStore};

#[test]
fn create_and_get_roundtrip() {
    let mut store = ScanStore::new();
    let id = store.create("https://a.example".to_string(), 100);
    assert_eq!(id, ScanId(0));
    let rec = store.get(id).unwrap();
    assert_eq!(rec.id, id);
    assert_eq!(rec.target_url, "https://a.example");
    assert!(matches!(rec.status, ScanStatus::Queued));
    assert!(rec.findings.is_empty());
    assert_eq!(rec.created_at, 100);
    assert_eq!(rec.finished_at, None);
}

#[test]
fn get_unknown_id_is_none() {
    let store = ScanStore::new();
    assert!(store.get(ScanId(0)).is_none());
    let mut store = ScanStore::new();
    store.create("https://a".to_string(), 1);
    assert!(store.get(ScanId(7)).is_none());
}

#[test]
fn ids_are_sequential_and_unique() {
    let mut store = ScanStore::new();
    let a = store.create("https://a".to_string(), 1);
    let b = store.create("https://b".to_string(), 2);
    let c = store.create("https://c".to_string(), 3);
    assert_eq!((a, b, c), (ScanId(0), ScanId(1), ScanId(2)));
}

#[test]
fn lifecycle_happy_path_completed() {
    let mut store = ScanStore::new();
    let id = store.create("https://a".to_string(), 1);
    store.set_status(id, ScanStatus::Running, 5);
    let rec = store.get(id).unwrap();
    assert!(matches!(rec.status, ScanStatus::Running));
    assert_eq!(rec.finished_at, None);
    store.set_status(id, ScanStatus::Completed, 9);
    let rec = store.get(id).unwrap();
    assert!(matches!(rec.status, ScanStatus::Completed));
    assert_eq!(rec.finished_at, Some(9));
}

#[test]
fn queued_to_canceled_is_terminal() {
    let mut store = ScanStore::new();
    let id = store.create("https://a".to_string(), 1);
    store.set_status(id, ScanStatus::Canceled, 4);
    let rec = store.get(id).unwrap();
    assert!(matches!(rec.status, ScanStatus::Canceled));
    assert_eq!(rec.finished_at, Some(4));
    store.set_status(id, ScanStatus::Running, 8);
    let rec = store.get(id).unwrap();
    assert!(matches!(rec.status, ScanStatus::Canceled));
    assert_eq!(rec.finished_at, Some(4));
}

#[test]
fn skipping_running_is_refused() {
    let mut store = ScanStore::new();
    let id = store.create("https://a".to_string(), 1);
    store.set_status(id, ScanStatus::Completed, 4);
    let rec = store.get(id).unwrap();
    assert!(matches!(rec.status, ScanStatus::Queued));
    assert_eq!(rec.finished_at, None);
}

#[test]
fn finished_at_set_exactly_once() {
    let mut store = ScanStore::new();
    let id = store.create("https://a".to_string(), 1);
    store.set_status(id, ScanStatus::Running, 2);
    store.set_status(id, ScanStatus::Failed, 7);
    store.set_status(id, ScanStatus::Completed, 9);
    let rec = store.get(id).unwrap();
    assert!(matches!(rec.status, ScanStatus::Failed));
    assert_eq!(rec.finished_at, Some(7));
}

#[test]
fn set_status_unknown_id_is_noop() {
    let mut store = ScanStore::new();
    store.create("https://a".to_string(), 1);
    store.set_status(ScanId(9), ScanStatus::Running, 2);
    assert!(matches!(store.get(ScanId(0)).unwrap().status, ScanStatus::Queued));
}

fn finding(title: &str) -> Finding {
    Finding {
        kind: "analysis".to_string(),
        severity: "info".to_string(),
        title: title.to_string(),
        description: String::new(),
        location: "https://a".to_string(),
    }
}

#[test]
fn set_findings_replaces_wholesale() {
    let mut store = ScanStore::new();
    let id = store.create("https://a".to_string(), 1);
    store.set_findings(id, vec![finding("one"), finding("two")]);
    assert_eq!(store.get(id).unwrap().findings.len(), 2);
    store.set_findings(id, vec![finding("three")]);
    let rec = store.get(id).unwrap();
    assert_eq!(rec.findings.len(), 1);
    assert_eq!(rec.findings[0].title, "three");
    store.set_findings(ScanId(9), vec![finding("x")]);
    assert_eq!(store.get(id).unwrap().findings.len(), 1);
}

#[test]
fn three_records() {
    let mut store = ScanStore::new();
    let a = store.create("https://a".to_string(), 50);
    let b = store.create("https://b".to_string(), 100);
    let c = store.create("https://c".to_string(), 100);
    let out = store.list();
    assert_eq!(out.len(), 3);
    // newest creation first; the tie at 100 broken by the larger id
    assert_eq!(out[0].id, c);
    assert_eq!(out[1].id, b);
    assert_eq!(out[2].id, a);
}

#[test]
fn list_never_omits_a_record() {
    let mut store = ScanStore::new();
    for i in 0..10i64 {
        store.create(format!("https://t{}.example", i), 1000 - i);
    }
    let out = store.list();
    assert_eq!(out.len(), 10);
    let mut seen: Vec<u64> = out.iter().map(|r| r.id.0).collect();
    seen.sort();
    assert_eq!(seen, (0..10u64).collect::<Vec<u64>>());
    for w in out.windows(2) {
        assert!(w[0].created_at >= w[1].created_at);
    }
}
