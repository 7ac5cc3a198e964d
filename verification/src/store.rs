//! The scan record store: the authoritative in-process mapping from
//! scan id to lifecycle record.
//!
//! Ids are minted sequentially at creation and never reused; records
//! are never deleted. Status transitions follow the lifecycle machine
//! (`Queued -> Running -> Completed | Failed`, `Queued -> Canceled`);
//! a transition attempted out of a terminal status is a no-op, and
//! `finished_at` is set exactly once, on the transition into a terminal
//! status. Timestamps are supplied by the caller so that the clock
//! stays injectable.

use vstd::prelude::*;
use vstd::seq_lib::{to_multiset_insert, to_multiset_build};

verus! {

/// Lifecycle status of one scan.
#[derive(Clone, Copy, Debug, PartialEq, Eq, Structural)]
pub enum ScanStatus {
    Queued,
    Running,
    Completed,
    Failed,
    Canceled,
}

/// A terminal status has no further transition.
pub open spec fn is_terminal(s: ScanStatus) -> bool {
    s == ScanStatus::Completed || s == ScanStatus::Failed || s == ScanStatus::Canceled
}

/// Executable test matching `is_terminal`.
pub fn status_is_terminal(s: ScanStatus) -> (r: bool)
    ensures
        r == is_terminal(s),
{
    match s {
        ScanStatus::Completed => true,
        ScanStatus::Failed => true,
        ScanStatus::Canceled => true,
        _ => false,
    }
}

/// The transition edges of the lifecycle machine.
pub open spec fn step_allowed(from: ScanStatus, to: ScanStatus) -> bool {
    ||| (from == ScanStatus::Queued && to == ScanStatus::Running)
    ||| (from == ScanStatus::Queued && to == ScanStatus::Canceled)
    ||| (from == ScanStatus::Running && to == ScanStatus::Completed)
    ||| (from == ScanStatus::Running && to == ScanStatus::Failed)
}

fn transition_allowed(from: ScanStatus, to: ScanStatus) -> (r: bool)
    ensures
        r == step_allowed(from, to),
{
    match (from, to) {
        (ScanStatus::Queued, ScanStatus::Running) => true,
        (ScanStatus::Queued, ScanStatus::Canceled) => true,
        (ScanStatus::Running, ScanStatus::Completed) => true,
        (ScanStatus::Running, ScanStatus::Failed) => true,
        _ => false,
    }
}

/// No transition leaves a terminal status.
pub proof fn lemma_terminal_no_exit(from: ScanStatus, to: ScanStatus)
    ensures
        is_terminal(from) ==> !step_allowed(from, to),
{
}

/// The three complete lifecycle paths.
pub open spec fn full_paths() -> Set<Seq<ScanStatus>> {
    set![
        seq![ScanStatus::Queued, ScanStatus::Running, ScanStatus::Completed],
        seq![ScanStatus::Queued, ScanStatus::Running, ScanStatus::Failed],
        seq![ScanStatus::Queued, ScanStatus::Canceled],
    ]
}

/// `t` is a prefix of one of the three lifecycle paths.
pub open spec fn is_path_prefix(t: Seq<ScanStatus>) -> bool {
    exists|p: Seq<ScanStatus>| full_paths().contains(p) && t.is_prefix_of(p)
}

/// Any stutter-free status trace that starts at `Queued` and moves only
/// along allowed transitions is a prefix of one of the three lifecycle
/// paths.
pub proof fn lemma_trace_is_path_prefix(t: Seq<ScanStatus>)
    requires
        t.len() > 0,
        t[0] == ScanStatus::Queued,
        forall|i: int| 0 <= i < t.len() - 1 ==> step_allowed(#[trigger] t[i], t[i + 1]),
    ensures
        is_path_prefix(t),
{
    let qrc = seq![ScanStatus::Queued, ScanStatus::Running, ScanStatus::Completed];
    let qrf = seq![ScanStatus::Queued, ScanStatus::Running, ScanStatus::Failed];
    let qc = seq![ScanStatus::Queued, ScanStatus::Canceled];
    assert(full_paths().contains(qrc));
    assert(full_paths().contains(qrf));
    assert(full_paths().contains(qc));
    if t.len() == 1 {
        assert(t =~= qc.subrange(0, 1));
        assert(t.is_prefix_of(qc));
    } else {
        assert(step_allowed(t[0], t[1]));
        if t[1] == ScanStatus::Canceled {
            assert(t.len() <= 2) by {
                if t.len() > 2 {
                    assert(step_allowed(t[1], t[2]));
                }
            }
            assert(t =~= qc);
            assert(t.is_prefix_of(qc));
        } else {
            assert(t[1] == ScanStatus::Running);
            if t.len() == 2 {
                assert(t =~= qrc.subrange(0, 2));
                assert(t.is_prefix_of(qrc));
            } else {
                assert(step_allowed(t[1], t[2]));
                assert(t.len() <= 3) by {
                    if t.len() > 3 {
                        assert(step_allowed(t[2], t[3]));
                    }
                }
                if t[2] == ScanStatus::Completed {
                    assert(t =~= qrc);
                    assert(t.is_prefix_of(qrc));
                } else {
                    assert(t =~= qrf);
                    assert(t.is_prefix_of(qrf));
                }
            }
        }
    }
}

/// Opaque identifier of one scan, minted by the store at creation.
#[derive(Clone, Copy, Debug, PartialEq, Eq, Structural, Hash)]
pub struct ScanId(pub u64);

/// Ghost model of a `Finding`: its five fields as character
/// sequences.
pub ghost struct FindingView {
    pub kind: Seq<char>,
    pub severity: Seq<char>,
    pub title: Seq<char>,
    pub description: Seq<char>,
    pub location: Seq<char>,
}

/// A structured observation about a target, immutable once produced.
#[derive(Clone, Debug)]
pub struct Finding {
    pub kind: String,
    pub severity: String,
    pub title: String,
    pub description: String,
    pub location: String,
}

impl View for Finding {
    type V = FindingView;

    open spec fn view(&self) -> FindingView {
        FindingView {
            kind: self.kind@,
            severity: self.severity@,
            title: self.title@,
            description: self.description@,
            location: self.location@,
        }
    }
}

impl DeepView for Finding {
    type V = FindingView;

    open spec fn deep_view(&self) -> FindingView {
        self.view()
    }
}

impl Finding {
    /// An exact copy.
    pub fn duplicate(&self) -> (r: Finding)
        ensures
            r == *self,
    {
        Finding {
            kind: self.kind.clone(),
            severity: self.severity.clone(),
            title: self.title.clone(),
            description: self.description.clone(),
            location: self.location.clone(),
        }
    }
}

/// Copy a findings vector element for element.
pub fn duplicate_findings(v: &Vec<Finding>) -> (r: Vec<Finding>)
    ensures
        r@ == v@,
{
    let mut r: Vec<Finding> = Vec::new();
    let n = v.len();
    let mut i: usize = 0;
    while i < n
        invariant
            n == v@.len(),
            i <= n,
            r@ == v@.take(i as int),
        decreases n - i,
    {
        r.push(v[i].duplicate());
        proof {
            assert(v@.take(i + 1) =~= v@.take(i as int).push(v@[i as int]));
        }
        i = i + 1;
    }
    proof {
        assert(v@.take(n as int) =~= v@);
    }
    r
}

/// Ghost model of a `ScanRecord`.
pub ghost struct RecordView {
    pub id: ScanId,
    pub target_url: Seq<char>,
    pub status: ScanStatus,
    pub findings: Seq<FindingView>,
    pub created_at: i64,
    pub finished_at: Option<i64>,
}

/// The mutable lifecycle record of one scan.
#[derive(Clone, Debug)]
pub struct ScanRecord {
    pub id: ScanId,
    pub target_url: String,
    pub status: ScanStatus,
    pub findings: Vec<Finding>,
    pub created_at: i64,
    pub finished_at: Option<i64>,
}

impl View for ScanRecord {
    type V = RecordView;

    open spec fn view(&self) -> RecordView {
        RecordView {
            id: self.id,
            target_url: self.target_url@,
            status: self.status,
            findings: self.findings.deep_view(),
            created_at: self.created_at,
            finished_at: self.finished_at,
        }
    }
}

impl DeepView for ScanRecord {
    type V = RecordView;

    open spec fn deep_view(&self) -> RecordView {
        self.view()
    }
}

impl ScanRecord {
    /// `finished_at` is present exactly on terminal records.
    pub open spec fn wf(self) -> bool {
        self.finished_at is Some <==> is_terminal(self.status)
    }

    /// A copy carrying the same model.
    pub fn duplicate(&self) -> (r: ScanRecord)
        ensures
            r@ == self@,
    {
        let r = ScanRecord {
            id: self.id,
            target_url: self.target_url.clone(),
            status: self.status,
            findings: duplicate_findings(&self.findings),
            created_at: self.created_at,
            finished_at: self.finished_at,
        };
        proof {
            assert(r.findings.deep_view() =~= self.findings.deep_view());
        }
        r
    }
}

/// What `set_status` makes of one record: the requested status when the
/// transition is allowed, with `finished_at` stamped on the step into a
/// terminal status; otherwise the record unchanged.
pub open spec fn apply_status(r: ScanRecord, status: ScanStatus, now: i64) -> ScanRecord {
    if step_allowed(r.status, status) {
        ScanRecord {
            status,
            finished_at: if is_terminal(status) {
                Some(now)
            } else {
                r.finished_at
            },
            ..r
        }
    } else {
        r
    }
}

/// Every `set_status` outcome either keeps a record's status or moves
/// it along an allowed edge; together with `lemma_trace_is_path_prefix`
/// the observed status sequence of any record is a prefix of one of
/// the three lifecycle paths.
pub proof fn lemma_observed_step(r: ScanRecord, status: ScanStatus, now: i64)
    ensures
        apply_status(r, status, now).status == r.status || step_allowed(
            r.status,
            apply_status(r, status, now).status,
        ),
{
}

/// Output order of `list`: newest creation first, ties broken by the
/// larger id first.
pub open spec fn list_before(a: ScanRecord, b: ScanRecord) -> bool {
    a.created_at > b.created_at || (a.created_at == b.created_at && a.id.0 >= b.id.0)
}

fn list_before_exec(a: &ScanRecord, b: &ScanRecord) -> (r: bool)
    ensures
        r == list_before(*a, *b),
{
    a.created_at > b.created_at || (a.created_at == b.created_at && a.id.0 >= b.id.0)
}

/// The in-process scan record store.
pub struct ScanStore {
    pub records: Vec<ScanRecord>,
}

impl ScanStore {
    /// Record `i` carries id `i` and every record is well-formed.
    pub open spec fn wf(self) -> bool {
        forall|i: int|
            0 <= i < self.records@.len() ==> (#[trigger] self.records@[i]).id.0 == i
                && self.records@[i].wf()
    }

    /// The record stored under an id, as a spec value.
    pub open spec fn spec_get(self, id: ScanId) -> Option<ScanRecord> {
        if id.0 < self.records@.len() {
            Some(self.records@[id.0 as int])
        } else {
            None
        }
    }

    /// An empty store.
    pub fn new() -> (s: ScanStore)
        ensures
            s.wf(),
            s.records@.len() == 0,
    {
        ScanStore { records: Vec::new() }
    }

    /// Insert a fresh `Queued` record for `target_url`, created at
    /// `now`, and return its newly minted id. Always succeeds.
    pub fn create(&mut self, target_url: String, now: i64) -> (id: ScanId)
        requires
            old(self).wf(),
            old(self).records@.len() < u64::MAX,
        ensures
            final(self).wf(),
            id.0 == old(self).records@.len(),
            final(self).records@.len() == old(self).records@.len() + 1,
            forall|i: int|
                0 <= i < old(self).records@.len() ==> final(self).records@[i] == old(
                    self,
                ).records@[i],
            final(self).records@.last().id == id,
            final(self).records@.last().target_url == target_url,
            final(self).records@.last().status == ScanStatus::Queued,
            final(self).records@.last().findings@ == Seq::<Finding>::empty(),
            final(self).records@.last().created_at == now,
            final(self).records@.last().finished_at is None,
    {
        let id = ScanId(self.records.len() as u64);
        let rec = ScanRecord {
            id,
            target_url,
            status: ScanStatus::Queued,
            findings: Vec::new(),
            created_at: now,
            finished_at: None,
        };
        self.records.push(rec);
        id
    }

    /// Read one record; `None` signals the unknown id to the caller.
    pub fn get(&self, id: ScanId) -> (r: Option<ScanRecord>)
        requires
            self.wf(),
        ensures
            match r {
                Some(rec) => self.spec_get(id) matches Some(s) && rec@ == s@,
                None => self.spec_get(id) is None,
            },
    {
        let n = self.records.len();
        if id.0 < n as u64 {
            let i = id.0 as usize;
            proof {
                assert(self.records@[i as int].id.0 == i);
            }
            Some(self.records[i].duplicate())
        } else {
            None
        }
    }

    /// Apply a status transition; a no-op on an unknown id, on a
    /// disallowed edge, and out of any terminal status. `finished_at`
    /// is stamped with `now` exactly on the step into a terminal
    /// status.
    pub fn set_status(&mut self, id: ScanId, status: ScanStatus, now: i64)
        requires
            old(self).wf(),
        ensures
            final(self).wf(),
            final(self).records@.len() == old(self).records@.len(),
            forall|i: int|
                0 <= i < old(self).records@.len() && i != id.0 ==> final(self).records@[i] == old(
                    self,
                ).records@[i],
            old(self).spec_get(id) matches Some(r) ==> final(self).records@[id.0 as int]
                == apply_status(r, status, now),
    {
        let n = self.records.len();
        if id.0 < n as u64 {
            let i = id.0 as usize;
            let current = self.records[i].status;
            if transition_allowed(current, status) {
                let r = &mut self.records[i];
                r.status = status;
                if status_is_terminal(status) {
                    r.finished_at = Some(now);
                }
            }
        }
    }

    /// Replace a record's findings wholesale; a no-op on an unknown id.
    pub fn set_findings(&mut self, id: ScanId, findings: Vec<Finding>)
        requires
            old(self).wf(),
        ensures
            final(self).wf(),
            final(self).records@.len() == old(self).records@.len(),
            forall|i: int|
                0 <= i < old(self).records@.len() && i != id.0 ==> final(self).records@[i] == old(
                    self,
                ).records@[i],
            old(self).spec_get(id) matches Some(r) ==> {
                &&& final(self).records@[id.0 as int].findings@ == findings@
                &&& final(self).records@[id.0 as int].id == r.id
                &&& final(self).records@[id.0 as int].target_url == r.target_url
                &&& final(self).records@[id.0 as int].status == r.status
                &&& final(self).records@[id.0 as int].created_at == r.created_at
                &&& final(self).records@[id.0 as int].finished_at == r.finished_at
            },
    {
        let n = self.records.len();
        if id.0 < n as u64 {
            let i = id.0 as usize;
            let r = &mut self.records[i];
            r.findings = findings;
        }
    }

    /// All records, newest creation first, ties broken by id. Every
    /// created record appears exactly once.
    pub fn list(&self) -> (out: Vec<ScanRecord>)
        requires
            self.wf(),
        ensures
            out.deep_view().to_multiset() == self.records.deep_view().to_multiset(),
            out@.len() == self.records@.len(),
            forall|i: int, j: int| 0 <= i < j < out@.len() ==> list_before(out@[i], out@[j]),
    {
        broadcast use to_multiset_insert, to_multiset_build;

        let n = self.records.len();
        let mut out: Vec<ScanRecord> = Vec::new();
        proof {
            assert(out.deep_view() =~= self.records.deep_view().take(0));
        }
        let mut i: usize = 0;
        while i < n
            invariant
                n == self.records@.len(),
                i <= n,
                out@.len() == i,
                out.deep_view().to_multiset() == self.records.deep_view().take(
                    i as int,
                ).to_multiset(),
                forall|a: int, b: int| 0 <= a < b < out@.len() ==> list_before(out@[a], out@[b]),
            decreases n - i,
        {
            let r = self.records[i].duplicate();
            let p = insert_position(&out, &r);
            let ghost prevseq = out@;
            let ghost prevdeep = out.deep_view();
            out.insert(p, r);
            proof {
                assert(out@ == prevseq.insert(p as int, r));
                assert(out.deep_view() =~= prevdeep.insert(p as int, r.deep_view()));
                assert(self.records.deep_view().take(i + 1) =~= self.records.deep_view().take(
                    i as int,
                ).push(self.records@[i as int].deep_view()));
                assert(r.deep_view() == self.records@[i as int].deep_view());
                to_multiset_insert(prevdeep, p as int, r.deep_view());
                to_multiset_build(
                    self.records.deep_view().take(i as int),
                    self.records@[i as int].deep_view(),
                );
                assert(out.deep_view().to_multiset() =~= self.records.deep_view().take(
                    i + 1,
                ).to_multiset());
                assert(forall|k: int| 0 <= k < p ==> out@[k] == prevseq[k]);
                assert(out@[p as int] == r);
                assert(forall|k: int| p < k < out@.len() ==> out@[k] == prevseq[k - 1]);
                assert forall|a: int, b: int| 0 <= a < b < out@.len() implies list_before(
                    out@[a],
                    out@[b],
                ) by {
                    if a == p && b > p {
                        assert(list_before(r, prevseq[p as int]));
                        if b - 1 > p {
                            assert(list_before(prevseq[p as int], prevseq[b - 1]));
                        }
                        assert(list_before(out@[a], out@[b]));
                    }
                }
            }
            i = i + 1;
        }
        proof {
            assert(self.records.deep_view().take(n as int) =~= self.records.deep_view());
        }
        out
    }
}

/// First position whose element does not come before `r` in list
/// order; inserting `r` there keeps the output sorted.
fn insert_position(out: &Vec<ScanRecord>, r: &ScanRecord) -> (p: usize)
    ensures
        p <= out@.len(),
        forall|k: int| 0 <= k < p ==> list_before(out@[k], *r),
        p < out@.len() ==> !list_before(out@[p as int], *r),
{
    let n = out.len();
    let mut p: usize = 0;
    while p < n
        invariant
            n == out@.len(),
            p <= n,
            forall|k: int| 0 <= k < p ==> list_before(out@[k], *r),
        decreases n - p,
    {
        if !list_before_exec(&out[p], r) {
            return p;
        }
        p = p + 1;
    }
    p
}

} // verus!
