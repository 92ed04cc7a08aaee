//! The approval ledger: an append-only record of change requests, queried
//! by the worker before it executes a queued job.

use vstd::prelude::*;
use vstd::string::StringExecFns;

use crate::text::{chars_eq, chars_vec, concat2};

verus! {

/// The state of one approval record; records are never deleted.
#[derive(Clone, Copy, PartialEq, Eq, Structural, Debug)]
pub enum ApprovalStatus {
    Pending,
    Approved,
}

/// One change request in the ledger.
#[derive(Debug)]
pub struct ApprovalRecord {
    pub id: String,
    pub job_path: String,
    pub requested_by: String,
    pub note: Option<String>,
    pub status: ApprovalStatus,
}

/// The mathematical image of an approval record.
pub ghost struct ApprovalRecordV {
    pub id: Seq<char>,
    pub job_path: Seq<char>,
    pub requested_by: Seq<char>,
    pub note: Option<Seq<char>>,
    pub status: ApprovalStatus,
}

impl View for ApprovalRecord {
    type V = ApprovalRecordV;

    open spec fn view(&self) -> ApprovalRecordV {
        ApprovalRecordV {
            id: self.id@,
            job_path: self.job_path@,
            requested_by: self.requested_by@,
            note: self.note.deep_view(),
            status: self.status,
        }
    }
}

impl DeepView for ApprovalRecord {
    type V = ApprovalRecordV;

    open spec fn deep_view(&self) -> ApprovalRecordV {
        self.view()
    }
}

impl Clone for ApprovalRecord {
    /// An exact copy.
    fn clone(&self) -> (r: Self)
        ensures
            r@ == self@,
    {
        ApprovalRecord {
            id: self.id.clone(),
            job_path: self.job_path.clone(),
            requested_by: self.requested_by.clone(),
            note: match &self.note {
                Some(n) => Some(n.clone()),
                None => None,
            },
            status: self.status,
        }
    }
}

/// The ledger holds an approved record under this id.
pub open spec fn approved_spec(records: Seq<ApprovalRecordV>, id: Seq<char>) -> bool {
    exists|i: int|
        0 <= i < records.len() && records[i].id == id && records[i].status
            == ApprovalStatus::Approved
}

/// The ledger after approving the first record with the given id: its
/// status becomes approved, and an empty note records the approver.
pub open spec fn approve_spec(
    records: Seq<ApprovalRecordV>,
    id: Seq<char>,
    approver: Seq<char>,
) -> Seq<ApprovalRecordV>
    decreases records.len(),
{
    if records.len() == 0 {
        records
    } else if records[0].id == id {
        seq![
            ApprovalRecordV {
                status: ApprovalStatus::Approved,
                note: match records[0].note {
                    Some(n) => Some(n),
                    None => Some("Approved by "@ + approver),
                },
                ..records[0]
            },
        ] + records.drop_first()
    } else {
        seq![records[0]] + approve_spec(records.drop_first(), id, approver)
    }
}

/// Some record carries the given id.
pub open spec fn has_record(records: Seq<ApprovalRecordV>, id: Seq<char>) -> bool {
    exists|i: int| 0 <= i < records.len() && records[i].id == id
}

/// The persisted ledger of approval records.
pub struct ApprovalStore {
    pub records: Vec<ApprovalRecord>,
}

impl ApprovalStore {
    /// A ledger over the given records (as loaded from disk).
    pub fn new(records: Vec<ApprovalRecord>) -> (r: ApprovalStore)
        ensures
            r.records == records,
    {
        ApprovalStore { records }
    }

    /// Appends a pending request under a caller-supplied unique id.
    pub fn add_request(&mut self, id: String, job_path: String, requested_by: String, note: Option<
        String,
    >)
        ensures
            final(self).records.deep_view() == old(self).records.deep_view().push(
                ApprovalRecordV {
                    id: id@,
                    job_path: job_path@,
                    requested_by: requested_by@,
                    note: note.deep_view(),
                    status: ApprovalStatus::Pending,
                },
            ),
    {
        let ghost old_records = self.records.deep_view();
        let record = ApprovalRecord {
            id,
            job_path,
            requested_by,
            note,
            status: ApprovalStatus::Pending,
        };
        self.records.push(record);
        proof {
            assert(self.records.deep_view() =~= old_records.push(record@));
        }
    }

    /// Marks the first record with this id approved, recording the
    /// approver in an empty note; errs when the id is unknown.
    pub fn approve(&mut self, id: &str, approver: &str) -> (r: Result<(), String>)
        ensures
            r is Ok ==> has_record(old(self).records.deep_view(), id@),
            r is Ok ==> final(self).records.deep_view() == approve_spec(
                old(self).records.deep_view(),
                id@,
                approver@,
            ),
            r is Err ==> !has_record(old(self).records.deep_view(), id@),
            r is Err ==> final(self).records.deep_view() == old(self).records.deep_view(),
            r matches Err(m) ==> m@ == "approval ID "@ + id@ + " not found"@,
    {
        let ghost orig = self.records.deep_view();
        let idv = chars_vec(id);
        let mut i: usize = 0;
        proof {
            assert(orig.subrange(0, orig.len() as int) =~= orig);
        }
        while i < self.records.len()
            invariant
                orig == old(self).records.deep_view(),
                orig == self.records.deep_view(),
                orig.len() == self.records@.len(),
                i <= self.records@.len(),
                idv@ == id@,
                forall|k: int| 0 <= k < i ==> orig[k].id != id@,
                approve_spec(orig, id@, approver@) =~= orig.subrange(0, i as int) + approve_spec(
                    orig.subrange(i as int, orig.len() as int),
                    id@,
                    approver@,
                ),
            decreases self.records@.len() - i,
        {
            let ghost rest = orig.subrange(i as int, orig.len() as int);
            let rv = chars_vec(self.records[i].id.as_str());
            if chars_eq(&rv, &idv) {
                let new_note = match &self.records[i].note {
                    Some(n) => Some(n.clone()),
                    None => Some(concat2("Approved by ", approver)),
                };
                let updated = ApprovalRecord {
                    id: self.records[i].id.clone(),
                    job_path: self.records[i].job_path.clone(),
                    requested_by: self.records[i].requested_by.clone(),
                    note: new_note,
                    status: ApprovalStatus::Approved,
                };
                proof {
                    assert(updated@ == (ApprovalRecordV {
                        status: ApprovalStatus::Approved,
                        note: match orig[i as int].note {
                            Some(n) => Some(n),
                            None => Some("Approved by "@ + approver@),
                        },
                        ..orig[i as int]
                    }));
                }
                self.records.set(i, updated);
                proof {
                    assert(orig[i as int].id == id@);
                    assert(has_record(orig, id@));
                    assert(rest[0] == orig[i as int]);
                    assert(rest.drop_first() =~= orig.subrange(i + 1 as int, orig.len() as int));
                    assert(approve_spec(rest, id@, approver@) == seq![updated@]
                        + orig.subrange(i + 1 as int, orig.len() as int));
                    assert(self.records.deep_view() =~= orig.subrange(0, i as int) + (seq![updated@]
                        + orig.subrange(i + 1 as int, orig.len() as int)));
                    assert(self.records.deep_view() =~= approve_spec(orig, id@, approver@));
                }
                return Ok(());
            }
            proof {
                assert(rest[0] == orig[i as int]);
                assert(rest.drop_first() =~= orig.subrange(i + 1 as int, orig.len() as int));
                assert(orig.subrange(0, i as int) + (seq![orig[i as int]] + approve_spec(
                    orig.subrange(i + 1 as int, orig.len() as int),
                    id@,
                    approver@,
                )) =~= orig.subrange(0, i + 1 as int) + approve_spec(
                    orig.subrange(i + 1 as int, orig.len() as int),
                    id@,
                    approver@,
                ));
            }
            i = i + 1;
        }
        proof {
            if has_record(orig, id@) {
                let k = choose|k: int| 0 <= k < orig.len() && orig[k].id == id@;
                assert(orig[k].id != id@);
            }
        }
        let head = concat2("approval ID ", id);
        Err(concat2(head.as_str(), " not found"))
    }

    /// Whether the ledger holds an approved record under this id.
    pub fn is_approved(&self, id: &str) -> (r: bool)
        ensures
            r == approved_spec(self.records.deep_view(), id@),
    {
        let idv = chars_vec(id);
        let mut i: usize = 0;
        while i < self.records.len()
            invariant
                i <= self.records@.len(),
                idv@ == id@,
                forall|k: int|
                    0 <= k < i ==> !(self.records.deep_view()[k].id == id@
                        && self.records.deep_view()[k].status == ApprovalStatus::Approved),
            decreases self.records@.len() - i,
        {
            let rv = chars_vec(self.records[i].id.as_str());
            if chars_eq(&rv, &idv) && matches!(self.records[i].status, ApprovalStatus::Approved) {
                assert(self.records.deep_view()[i as int].id == id@);
                return true;
            }
            i = i + 1;
        }
        proof {
            if approved_spec(self.records.deep_view(), id@) {
                let k = choose|k: int|
                    0 <= k < self.records.deep_view().len() && self.records.deep_view()[k].id == id@
                        && self.records.deep_view()[k].status == ApprovalStatus::Approved;
            }
        }
        false
    }
}

/// The worker-side command arguments for the approval workflow.
#[derive(Debug)]
pub struct ApprovalsCmd {
    pub action: ApprovalsAction,
    pub store: String,
}

/// The approval workflow's operations.
#[derive(Debug)]
pub enum ApprovalsAction {
    Request { job: String, requested_by: String, note: Option<String> },
    Approve { id: String, approver: String },
    List,
}

} // verus!
