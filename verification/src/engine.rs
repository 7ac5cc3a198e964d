//! Scan orchestration: one service owning the record store, the
//! admission queue and the concurrency budget of the dispatcher.
//!
//! `enqueue` admits a job and creates its `Queued` record as one
//! atomic step, so a full queue never orphans a record. `start_next`
//! hands the dispatcher the oldest admitted job only while a permit is
//! free, marking its record `Running`; `finish_job` folds the fetch
//! outcome into the record, marks it terminal and releases the permit
//! unconditionally. The number of running scans therefore never
//! exceeds the concurrency bound.

use vstd::prelude::*;
use vstd::string::*;
use crate::analysis::{ScanResult, ScanResultView};
use crate::errors::EnqueueError;
use crate::queue::{AdmissionQueue, ScanJob};
use crate::store::{Finding, FindingView, ScanId, ScanRecord, ScanStatus, ScanStore};

verus! {

/// How many records of the store are currently `Running`.
pub open spec fn running_count(records: Seq<ScanRecord>) -> int
    decreases records.len(),
{
    if records.len() == 0 {
        0
    } else if records.last().status == ScanStatus::Running {
        running_count(records.drop_last()) + 1
    } else {
        running_count(records.drop_last())
    }
}

proof fn lemma_running_count_push(s: Seq<ScanRecord>, r: ScanRecord)
    ensures
        r.status == ScanStatus::Running ==> running_count(s.push(r)) == running_count(s) + 1,
        r.status != ScanStatus::Running ==> running_count(s.push(r)) == running_count(s),
{
    assert(s.push(r).drop_last() =~= s);
}

proof fn lemma_running_count_update(s: Seq<ScanRecord>, i: int, r: ScanRecord)
    requires
        0 <= i < s.len(),
    ensures
        running_count(s.update(i, r)) == running_count(s) + (if r.status == ScanStatus::Running {
            1int
        } else {
            0int
        }) - (if s[i].status == ScanStatus::Running {
            1int
        } else {
            0int
        }),
    decreases s.len(),
{
    if i == s.len() - 1 {
        assert(s.update(i, r).drop_last() =~= s.drop_last());
        assert(s.update(i, r).last() == r);
    } else {
        lemma_running_count_update(s.drop_last(), i, r);
        assert(s.update(i, r).drop_last() =~= s.drop_last().update(i, r));
        assert(s.update(i, r).last() == s.last());
    }
}

proof fn lemma_running_count_nonneg(s: Seq<ScanRecord>)
    ensures
        running_count(s) >= 0,
    decreases s.len(),
{
    if s.len() > 0 {
        lemma_running_count_nonneg(s.drop_last());
    }
}

proof fn lemma_running_count_pos(s: Seq<ScanRecord>, i: int)
    requires
        0 <= i < s.len(),
        s[i].status == ScanStatus::Running,
    ensures
        running_count(s) >= 1,
    decreases s.len(),
{
    lemma_running_count_nonneg(s.drop_last());
    if i == s.len() - 1 {
    } else {
        lemma_running_count_pos(s.drop_last(), i);
    }
}

/// The model of one finding produced from a successful scan result:
/// one analysis observation per engine message, located at the
/// effective URL.
pub open spec fn analysis_finding_view(title: Seq<char>, location: Seq<char>) -> FindingView {
    FindingView {
        kind: "analysis"@,
        severity: "info"@,
        title: title,
        description: Seq::empty(),
        location: location,
    }
}

/// The findings a successful scan result folds into its record.
pub open spec fn success_findings(r: ScanResultView) -> Seq<FindingView> {
    r.security_findings.map_values(|m: Seq<char>| analysis_finding_view(m, r.url))
}

/// The single synthetic finding recorded for a failed fetch.
pub open spec fn failure_finding_view(message: Seq<char>, target: Seq<char>) -> FindingView {
    FindingView {
        kind: "fetch_failure"@,
        severity: "error"@,
        title: "Scan failed"@,
        description: message,
        location: target,
    }
}

/// Map a scan result's messages to stored findings.
pub fn findings_from_result(res: &ScanResult) -> (v: Vec<Finding>)
    ensures
        v.deep_view() == success_findings(res@),
{
    let n = res.security_findings.len();
    let mut v: Vec<Finding> = Vec::new();
    let mut i: usize = 0;
    while i < n
        invariant
            n == res.security_findings@.len(),
            i <= n,
            v@.len() == i,
            v.deep_view() =~= success_findings(res@).take(i as int),
        decreases n - i,
    {
        let f = Finding {
            kind: String::from_str("analysis"),
            severity: String::from_str("info"),
            title: res.security_findings[i].clone(),
            description: String::new(),
            location: res.url.clone(),
        };
        v.push(f);
        proof {
            assert(v@[i as int]@ == analysis_finding_view(
                res.security_findings@[i as int]@,
                res.url@,
            ));
            assert(success_findings(res@)[i as int] == analysis_finding_view(
                res@.security_findings[i as int],
                res@.url,
            ));
            assert(v.deep_view() =~= success_findings(res@).take(i + 1));
        }
        i = i + 1;
    }
    proof {
        assert(success_findings(res@).take(n as int) =~= success_findings(res@));
    }
    v
}

/// Build the synthetic finding for a failed fetch.
pub fn failure_finding(message: String, target: String) -> (f: Finding)
    ensures
        f@ == failure_finding_view(message@, target@),
{
    Finding {
        kind: String::from_str("fetch_failure"),
        severity: String::from_str("error"),
        title: String::from_str("Scan failed"),
        description: message,
        location: target,
    }
}

/// Relies on `chrono::Utc::now`: the wall clock, in milliseconds since
/// the epoch. Nothing is assumed of the value.
#[verifier::external_body]
fn now_millis() -> i64 {
    chrono::Utc::now().timestamp_millis()
}

/// The scan orchestration service: record store, admission queue and
/// the dispatcher's permit accounting, kept consistent as one unit.
pub struct ScanService {
    pub store: ScanStore,
    pub queue: AdmissionQueue,
    pub concurrency: usize,
    pub in_flight: usize,
}

impl ScanService {
    /// The coupling invariant: the store and queue are well-formed,
    /// every queued job names a created record, and the number of
    /// `Running` records equals the permits held, which never exceed
    /// the concurrency bound.
    pub open spec fn wf(self) -> bool {
        &&& self.store.wf()
        &&& self.queue.wf()
        &&& self.in_flight <= self.concurrency
        &&& self.in_flight == running_count(self.store.records@)
        &&& forall|k: int|
            0 <= k < self.queue.jobs@.len() ==> (#[trigger] self.queue.jobs@[k]).id.0
                < self.store.records@.len()
    }

    /// A fresh service with an empty store and an open, empty queue.
    pub fn new(queue_capacity: usize, concurrency: usize) -> (s: ScanService)
        ensures
            s.wf(),
            s.store.records@.len() == 0,
            s.queue.jobs@.len() == 0,
            s.queue.capacity == queue_capacity,
            !s.queue.closed,
            s.concurrency == concurrency,
            s.in_flight == 0,
    {
        ScanService {
            store: ScanStore::new(),
            queue: AdmissionQueue::new(queue_capacity),
            concurrency,
            in_flight: 0,
        }
    }

    /// Admit one scan: create its `Queued` record and append its job
    /// to the queue, as one atomic step. A full or closed queue
    /// rejects the request and leaves no record behind.
    pub fn enqueue(&mut self, target_url: String, now: i64) -> (r: Result<ScanId, EnqueueError>)
        requires
            old(self).wf(),
            old(self).store.records@.len() < u64::MAX,
        ensures
            final(self).wf(),
            final(self).concurrency == old(self).concurrency,
            final(self).in_flight == old(self).in_flight,
            final(self).queue.capacity == old(self).queue.capacity,
            final(self).queue.closed == old(self).queue.closed,
            old(self).queue.closed ==> r == Err::<ScanId, EnqueueError>(EnqueueError::QueueClosed)
                && final(self).store.records@ == old(self).store.records@ && final(self).queue.jobs@ == old(self).queue.jobs@,
            !old(self).queue.closed && old(self).queue.jobs@.len() == old(self).queue.capacity
                ==> r == Err::<ScanId, EnqueueError>(EnqueueError::QueueFull) && final(self).store.records@ == old(self).store.records@ && final(self).queue.jobs@ == old(self).queue.jobs@,
            !old(self).queue.closed && old(self).queue.jobs@.len() < old(self).queue.capacity ==> {
                &&& r matches Ok(id)
                &&& id.0 == old(self).store.records@.len()
                &&& final(self).store.records@.len() == old(self).store.records@.len() + 1
                &&& forall|i: int|
                    0 <= i < old(self).store.records@.len() ==> final(self).store.records@[i]
                        == old(self).store.records@[i]
                &&& final(self).store.records@.last().id == id
                &&& final(self).store.records@.last().target_url@ == target_url@
                &&& final(self).store.records@.last().status == ScanStatus::Queued
                &&& final(self).store.records@.last().findings@ == Seq::<Finding>::empty()
                &&& final(self).store.records@.last().created_at == now
                &&& final(self).store.records@.last().finished_at is None
                &&& final(self).queue.jobs@.len() == old(self).queue.jobs@.len() + 1
                &&& forall|k: int|
                    0 <= k < old(self).queue.jobs@.len() ==> final(self).queue.jobs@[k] == old(self).queue.jobs@[k]
                &&& final(self).queue.jobs@.last().id == id
                &&& final(self).queue.jobs@.last().target@ == target_url@
            },
    {
        if self.queue.closed {
            return Err(EnqueueError::QueueClosed);
        }
        if self.queue.len() == self.queue.capacity {
            return Err(EnqueueError::QueueFull);
        }
        let target_copy = target_url.clone();
        let id = self.store.create(target_url, now);
        let job = ScanJob { id, target: target_copy };
        let offered = self.queue.try_offer(job);
        proof {
            assert(offered is Ok);
            lemma_running_count_push(old(self).store.records@, self.store.records@.last());
            assert(self.store.records@.drop_last() =~= old(self).store.records@);
        }
        Ok(id)
    }

    /// Admit one scan, stamping the record with the current wall
    /// clock.
    pub fn enqueue_now(&mut self, target_url: String) -> (r: Result<ScanId, EnqueueError>)
        requires
            old(self).wf(),
            old(self).store.records@.len() < u64::MAX,
        ensures
            final(self).wf(),
            final(self).concurrency == old(self).concurrency,
            final(self).in_flight == old(self).in_flight,
            old(self).queue.closed ==> r == Err::<ScanId, EnqueueError>(EnqueueError::QueueClosed),
            !old(self).queue.closed && old(self).queue.jobs@.len() == old(self).queue.capacity
                ==> r == Err::<ScanId, EnqueueError>(EnqueueError::QueueFull),
            !old(self).queue.closed && old(self).queue.jobs@.len() < old(self).queue.capacity ==> {
                &&& r matches Ok(id)
                &&& id.0 == old(self).store.records@.len()
                &&& final(self).store.records@.len() == old(self).store.records@.len() + 1
                &&& final(self).store.records@.last().id == id
                &&& final(self).store.records@.last().target_url@ == target_url@
                &&& final(self).store.records@.last().status == ScanStatus::Queued
            },
    {
        let now = now_millis();
        self.enqueue(target_url, now)
    }

    /// Read one record; `None` signals an unknown id.
    pub fn get(&self, id: ScanId) -> (r: Option<ScanRecord>)
        requires
            self.wf(),
        ensures
            match r {
                Some(rec) => self.store.spec_get(id) matches Some(s) && rec@ == s@,
                None => self.store.spec_get(id) is None,
            },
    {
        self.store.get(id)
    }

    /// All records, newest creation first.
    pub fn list(&self) -> (out: Vec<ScanRecord>)
        requires
            self.wf(),
        ensures
            out.deep_view().to_multiset() == self.store.records.deep_view().to_multiset(),
            out@.len() == self.store.records@.len(),
            forall|i: int, j: int|
                0 <= i < j < out@.len() ==> crate::store::list_before(out@[i], out@[j]),
    {
        self.store.list()
    }

    /// Close the admission queue: nothing further is admitted, and the
    /// jobs already admitted still drain.
    pub fn close(&mut self)
        requires
            old(self).wf(),
        ensures
            final(self).wf(),
            final(self).queue.closed,
            final(self).queue.jobs@ == old(self).queue.jobs@,
            final(self).store.records@ == old(self).store.records@,
            final(self).in_flight == old(self).in_flight,
            final(self).concurrency == old(self).concurrency,
    {
        self.queue.close();
    }

    /// Hand the dispatcher its next job: only while a permit is free,
    /// and only the oldest admitted job. Its record turns `Running`;
    /// a job whose record already left `Queued` is dropped unstarted.
    pub fn start_next(&mut self) -> (r: Option<ScanJob>)
        requires
            old(self).wf(),
        ensures
            final(self).wf(),
            final(self).concurrency == old(self).concurrency,
            final(self).queue.capacity == old(self).queue.capacity,
            final(self).queue.closed == old(self).queue.closed,
            final(self).store.records@.len() == old(self).store.records@.len(),
            old(self).in_flight >= old(self).concurrency ==> r is None && final(self).queue.jobs@
                == old(self).queue.jobs@ && final(self).store.records@ == old(self).store.records@
                && final(self).in_flight == old(self).in_flight,
            old(self).in_flight < old(self).concurrency && old(self).queue.jobs@.len() == 0 ==> r
                is None && final(self).queue.jobs@ == old(self).queue.jobs@ && final(self).store.records@ == old(self).store.records@ && final(self).in_flight == old(self).in_flight,
            old(self).in_flight < old(self).concurrency && old(self).queue.jobs@.len() > 0 && old(self).store.records@[old(self).queue.jobs@[0].id.0 as int].status == ScanStatus::Queued
                ==> {
                &&& r == Some(old(self).queue.jobs@[0])
                &&& final(self).queue.jobs@ == old(self).queue.jobs@.drop_first()
                &&& final(self).in_flight == old(self).in_flight + 1
                &&& final(self).store.records@[old(self).queue.jobs@[0].id.0 as int].status
                    == ScanStatus::Running
                &&& final(self).store.records@[old(self).queue.jobs@[0].id.0 as int].id == old(self).store.records@[old(self).queue.jobs@[0].id.0 as int].id
                &&& final(self).store.records@[old(self).queue.jobs@[0].id.0 as int].target_url
                    == old(self).store.records@[old(self).queue.jobs@[0].id.0 as int].target_url
                &&& final(self).store.records@[old(self).queue.jobs@[0].id.0 as int].findings
                    == old(self).store.records@[old(self).queue.jobs@[0].id.0 as int].findings
                &&& final(self).store.records@[old(self).queue.jobs@[0].id.0 as int].created_at
                    == old(self).store.records@[old(self).queue.jobs@[0].id.0 as int].created_at
                &&& final(self).store.records@[old(self).queue.jobs@[0].id.0 as int].finished_at
                    == old(self).store.records@[old(self).queue.jobs@[0].id.0 as int].finished_at
                &&& forall|i: int|
                    0 <= i < old(self).store.records@.len() && i != old(self).queue.jobs@[0].id.0 as int ==> final(self).store.records@[i] == old(self).store.records@[i]
            },
            old(self).in_flight < old(self).concurrency && old(self).queue.jobs@.len() > 0 && old(self).store.records@[old(self).queue.jobs@[0].id.0 as int].status != ScanStatus::Queued
                ==> r is None && final(self).queue.jobs@ == old(self).queue.jobs@.drop_first()
                && final(self).store.records@ == old(self).store.records@ && final(self).in_flight
                == old(self).in_flight,
    {
        if self.in_flight >= self.concurrency {
            return None;
        }
        match self.queue.poll_next() {
            None => None,
            Some(job) => {
                let current = match self.store.get(job.id) {
                    Some(rec) => rec.status,
                    None => {
                        proof {
                            assert(old(self).queue.jobs@[0].id.0
                                < old(self).store.records@.len());
                        }
                        return None;
                    },
                };
                if current == ScanStatus::Queued {
                    // Running is not terminal, so no timestamp is stamped
                    self.store.set_status(job.id, ScanStatus::Running, 0);
                    proof {
                        let jid = job.id.0 as int;
                        lemma_running_count_update(
                            old(self).store.records@,
                            jid,
                            self.store.records@[jid],
                        );
                        assert(self.store.records@ =~= old(self).store.records@.update(
                            jid,
                            self.store.records@[jid],
                        ));
                    }
                    self.in_flight = self.in_flight + 1;
                    Some(job)
                } else {
                    None
                }
            },
        }
    }

    /// Fold a fetch outcome into a running record: replace its
    /// findings — the analysis findings on success, one synthetic
    /// failure finding on error — mark it `Completed` or `Failed` at
    /// `now`, and release the permit unconditionally.
    pub fn finish_job(&mut self, id: ScanId, outcome: Result<ScanResult, String>, now: i64)
        requires
            old(self).wf(),
            old(self).store.spec_get(id) matches Some(r) && r.status == ScanStatus::Running,
        ensures
            final(self).wf(),
            final(self).concurrency == old(self).concurrency,
            final(self).queue == old(self).queue,
            final(self).in_flight == old(self).in_flight - 1,
            final(self).store.records@.len() == old(self).store.records@.len(),
            forall|i: int|
                0 <= i < old(self).store.records@.len() && i != id.0 ==> final(self).store.records@[i] == old(self).store.records@[i],
            final(self).store.records@[id.0 as int].status == (if outcome is Ok {
                ScanStatus::Completed
            } else {
                ScanStatus::Failed
            }),
            final(self).store.records@[id.0 as int].finished_at == Some(now),
            final(self).store.records@[id.0 as int].id == id,
            final(self).store.records@[id.0 as int].target_url == old(self).store.records@[id.0
                as int].target_url,
            final(self).store.records@[id.0 as int].created_at == old(self).store.records@[id.0
                as int].created_at,
            match outcome {
                Ok(res) => final(self).store.records@[id.0 as int].findings.deep_view()
                    == success_findings(res@),
                Err(msg) => final(self).store.records@[id.0 as int].findings.deep_view()
                    == seq![
                    failure_finding_view(msg@, old(self).store.records@[id.0 as int].target_url@),
                ],
            },
    {
        proof {
            lemma_running_count_pos(old(self).store.records@, id.0 as int);
        }
        match outcome {
            Ok(res) => {
                let findings = findings_from_result(&res);
                self.store.set_findings(id, findings);
                self.store.set_status(id, ScanStatus::Completed, now);
            },
            Err(msg) => {
                let target = match self.store.get(id) {
                    Some(rec) => rec.target_url,
                    None => String::new(),
                };
                let f = failure_finding(msg, target);
                let mut v: Vec<Finding> = Vec::new();
                v.push(f);
                proof {
                    assert(v.deep_view() =~= seq![
                        failure_finding_view(msg@, old(self).store.records@[id.0
                            as int].target_url@),
                    ]);
                }
                self.store.set_findings(id, v);
                self.store.set_status(id, ScanStatus::Failed, now);
            },
        }
        proof {
            let jid = id.0 as int;
            lemma_running_count_update(
                old(self).store.records@,
                jid,
                self.store.records@[jid],
            );
            assert(self.store.records@ =~= old(self).store.records@.update(
                jid,
                self.store.records@[jid],
            ));
        }
        self.in_flight = self.in_flight - 1;
    }
}

/// With concurrency `n`, at most `n` scans are `Running` at any
/// instant: the permit accounting bounds the number of running
/// records by the concurrency the service was built with.
pub proof fn lemma_at_most_concurrency_running(s: ScanService)
    requires
        s.wf(),
    ensures
        running_count(s.store.records@) <= s.concurrency,
{
}

} // verus!
