use secure_scan::analysis::ScanResult;
use secure_scan::engine::ScanService;
use secure_scan::errors::EnqueueError;
use secure_scan::queue::{AdmissionQueue, ScanJob};
use secure_scan::store::{ScanId, ScanStatus};

#[test]
fn enqueue_creates_queued_record_and_job() {
    let mut svc = ScanService::new(128, 4);
    let id = svc.enqueue("https://a.example".to_string(), 10).unwrap();
    assert_eq!(id, ScanId(0));
    let rec = svc.get(id).unwrap();
    assert!(matches!(rec.status, ScanStatus::Queued));
    assert_eq!(rec.created_at, 10);
    assert!(rec.findings.is_empty());
    assert_eq!(svc.queue.len(), 1);
}

#[test]
fn queue_full_orphans_no_record() {
    let mut svc = ScanService::new(1, 4);
    svc.enqueue("https://a".to_string(), 1).unwrap();
    let e = svc.enqueue("https://b".to_string(), 2).unwrap_err();
    assert_eq!(e, EnqueueError::QueueFull);
    assert_eq!(svc.list().len(), 1);
}

#[test]
fn closed_queue_rejects() {
    let mut svc = ScanService::new(8, 4);
    svc.enqueue("https://a".to_string(), 1).unwrap();
    svc.close();
    let e = svc.enqueue("https://b".to_string(), 2).unwrap_err();
    assert_eq!(e, EnqueueError::QueueClosed);
    // the admitted job still drains
    let job = svc.start_next().unwrap();
    assert_eq!(job.id, ScanId(0));
}

#[test]
fn fifo_dispatch_order() {
    let mut svc = ScanService::new(8, 4);
    let a = svc.enqueue("https://a".to_string(), 1).unwrap();
    let b = svc.enqueue("https://b".to_string(), 2).unwrap();
    let c = svc.enqueue("https://c".to_string(), 3).unwrap();
    assert_eq!(svc.start_next().unwrap().id, a);
    assert_eq!(svc.start_next().unwrap().id, b);
    assert_eq!(svc.start_next().unwrap().id, c);
    assert!(svc.start_next().is_none());
}

#[test]
fn queue_is_fifo_standalone() {
    let mut q = AdmissionQueue::new(2);
    q.try_offer(ScanJob { id: ScanId(0), target: "https://a".to_string() }).unwrap();
    q.try_offer(ScanJob { id: ScanId(1), target: "https://b".to_string() }).unwrap();
    assert_eq!(
        q.try_offer(ScanJob { id: ScanId(2), target: "https://c".to_string() }).unwrap_err(),
        EnqueueError::QueueFull
    );
    assert_eq!(q.poll_next().unwrap().id, ScanId(0));
    assert_eq!(q.poll_next().unwrap().id, ScanId(1));
    assert!(q.poll_next().is_none());
}

#[test]
fn serial_dispatch_with_concurrency_one() {
    let mut svc = ScanService::new(8, 1);
    let a = svc.enqueue("https://a".to_string(), 1).unwrap();
    let b = svc.enqueue("https://b".to_string(), 2).unwrap();

    let first = svc.start_next().unwrap();
    assert_eq!(first.id, a);
    assert!(matches!(svc.get(a).unwrap().status, ScanStatus::Running));
    // the second job cannot turn Running while the first holds the permit
    assert!(svc.start_next().is_none());
    assert!(matches!(svc.get(b).unwrap().status, ScanStatus::Queued));

    svc.finish_job(a, Err("request timed out".to_string()), 20);
    assert!(matches!(svc.get(a).unwrap().status, ScanStatus::Failed));

    let second = svc.start_next().unwrap();
    assert_eq!(second.id, b);
    assert!(matches!(svc.get(b).unwrap().status, ScanStatus::Running));
}

#[test]
fn at_most_n_running() {
    let mut svc = ScanService::new(8, 2);
    let a = svc.enqueue("https://a".to_string(), 1).unwrap();
    let b = svc.enqueue("https://b".to_string(), 2).unwrap();
    let c = svc.enqueue("https://c".to_string(), 3).unwrap();
    assert!(svc.start_next().is_some());
    assert!(svc.start_next().is_some());
    // both permits held: the third job stays queued
    assert!(svc.start_next().is_none());
    let running = |svc: &ScanService| {
        svc.list().iter().filter(|r| matches!(r.status, ScanStatus::Running)).count()
    };
    assert_eq!(running(&svc), 2);
    assert!(matches!(svc.get(b).unwrap().status, ScanStatus::Running));
    svc.finish_job(a, Err("boom".to_string()), 9);
    assert_eq!(running(&svc), 1);
    assert_eq!(svc.start_next().unwrap().id, c);
    assert_eq!(running(&svc), 2);
}

#[test]
fn fetch_timeout_ends_failed_with_one_finding() {
    let mut svc = ScanService::new(8, 4);
    let id = svc.enqueue("https://slow.example".to_string(), 5).unwrap();
    svc.start_next().unwrap();
    svc.finish_job(id, Err("request failed to https://slow.example: timed out".to_string()), 17);
    let rec = svc.get(id).unwrap();
    assert!(matches!(rec.status, ScanStatus::Failed));
    assert_eq!(rec.finished_at, Some(17));
    assert_eq!(rec.findings.len(), 1);
    let f = &rec.findings[0];
    assert_eq!(f.kind, "fetch_failure");
    assert_eq!(f.severity, "error");
    assert_eq!(f.title, "Scan failed");
    assert_eq!(f.description, "request failed to https://slow.example: timed out");
    assert_eq!(f.location, "https://slow.example");
}

#[test]
fn successful_scan_completes_with_mapped_findings() {
    let mut svc = ScanService::new(8, 4);
    let id = svc.enqueue("https://ok.example".to_string(), 5).unwrap();
    svc.start_next().unwrap();
    let result = ScanResult {
        url: "https://ok.example".to_string(),
        status: 200,
        headers: vec![("server".to_string(), "nginx".to_string())],
        security_findings: vec![
            "Missing header: referrer-policy".to_string(),
            "Found 1 HTML form(s).".to_string(),
        ],
    };
    svc.finish_job(id, Ok(result), 30);
    let rec = svc.get(id).unwrap();
    assert!(matches!(rec.status, ScanStatus::Completed));
    assert_eq!(rec.finished_at, Some(30));
    assert_eq!(rec.findings.len(), 2);
    assert_eq!(rec.findings[0].title, "Missing header: referrer-policy");
    assert_eq!(rec.findings[0].kind, "analysis");
    assert_eq!(rec.findings[0].severity, "info");
    assert_eq!(rec.findings[0].location, "https://ok.example");
    assert_eq!(rec.findings[1].title, "Found 1 HTML form(s).");
}

#[test]
fn canceled_job_is_dropped_unstarted() {
    let mut svc = ScanService::new(8, 4);
    let id = svc.enqueue("https://a".to_string(), 1).unwrap();
    svc.store.set_status(id, ScanStatus::Canceled, 2);
    assert!(svc.start_next().is_none());
    assert!(matches!(svc.get(id).unwrap().status, ScanStatus::Canceled));
    assert_eq!(svc.queue.len(), 0);
}

#[test]
fn enqueue_now_uses_wall_clock() {
    let mut svc = ScanService::new(8, 4);
    let id = svc.enqueue_now("https://a.example".to_string()).unwrap();
    let rec = svc.get(id).unwrap();
    assert!(matches!(rec.status, ScanStatus::Queued));
    // a plausible wall-clock millisecond timestamp, strictly after 2020
    assert!(rec.created_at > 1_577_836_800_000);
}
