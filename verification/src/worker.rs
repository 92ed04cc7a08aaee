//! The worker's queue iteration: up to `limit` entries per pass, each
//! parsed line dropped when malformed, held when its job awaits approval,
//! executed otherwise, and the queue rewritten from what remains.
//!
//! File reads, JSON decoding and the engine run itself happen outside;
//! the `WorkerPass` state machine makes every decision and accounts for
//! every line, and its accounting is what the queue-durability and
//! approval-gate laws are proved about.

use vstd::prelude::*;
use vstd::string::StringExecFns;

use crate::approvals::{approved_spec, ApprovalStore};
use crate::model::Job;
use crate::queue::QueueEntry;
use crate::text::views_of;

verus! {

/// The worker command's arguments.
#[derive(Debug)]
pub struct WorkerCmd {
    pub queue: String,
    pub limit: usize,
    pub dry_run: bool,
    pub approvals: String,
    pub results_dir: String,
    pub audit_log: String,
}

/// The options one worker pass runs with.
#[derive(Debug)]
pub struct WorkerOptions {
    pub queue: String,
    pub limit: usize,
    pub approvals: String,
    pub results_dir: String,
    pub audit_log: String,
}

impl WorkerOptions {
    /// The options a worker command asks for.
    pub fn from_cmd(cmd: &WorkerCmd) -> (r: WorkerOptions)
        ensures
            r.queue@ == cmd.queue@,
            r.limit == cmd.limit,
            r.approvals@ == cmd.approvals@,
            r.results_dir@ == cmd.results_dir@,
            r.audit_log@ == cmd.audit_log@,
    {
        WorkerOptions {
            queue: cmd.queue.clone(),
            limit: cmd.limit,
            approvals: cmd.approvals.clone(),
            results_dir: cmd.results_dir.clone(),
            audit_log: cmd.audit_log.clone(),
        }
    }
}

/// What one worker pass did: entries executed, entries still queued, and
/// entries waiting on approval.
#[derive(Debug)]
pub struct WorkerStats {
    pub processed: usize,
    pub remaining: usize,
    pub pending_approvals: usize,
}

impl Default for WorkerStats {
    /// All counters at zero.
    fn default() -> (r: Self)
        ensures
            r.processed == 0 && r.remaining == 0 && r.pending_approvals == 0,
    {
        WorkerStats { processed: 0, remaining: 0, pending_approvals: 0 }
    }
}

/// One queue line together with its decoded entry, or `None` when the
/// line did not decode.
pub struct ParsedLine {
    pub raw: String,
    pub entry: Option<QueueEntry>,
}

/// What became of one consumed queue line.
pub ghost enum Fate {
    /// Malformed: dropped, not re-queued.
    Dropped,
    /// Beyond the pass limit, or left over: kept in the queue untouched.
    Retained,
    /// Waiting on approval: kept in the queue.
    Held,
    /// Executed and persisted: consumed from the queue.
    Executed,
    /// Execution failed: kept in the queue for the next pass.
    Failed,
}

/// Fates that keep the line in the queue.
pub open spec fn is_kept(f: Fate) -> bool {
    f == Fate::Retained || f == Fate::Held || f == Fate::Failed
}

/// The views of the raw lines.
pub open spec fn raw_views(s: Seq<ParsedLine>) -> Seq<Seq<char>> {
    s.map_values(|p: ParsedLine| p.raw@)
}

/// The lines whose fate keeps them in the queue, in order.
pub open spec fn kept_lines(raws: Seq<Seq<char>>, fates: Seq<Fate>) -> Seq<Seq<char>>
    decreases fates.len(),
{
    if fates.len() == 0 {
        Seq::empty()
    } else {
        let k = fates.len() - 1;
        kept_lines(raws.subrange(0, k), fates.drop_last()) + if is_kept(fates.last()) && k
            < raws.len() {
            seq![raws[k]]
        } else {
            Seq::empty()
        }
    }
}

/// The lines that were executed, in order.
pub open spec fn executed_lines(raws: Seq<Seq<char>>, fates: Seq<Fate>) -> Seq<Seq<char>>
    decreases fates.len(),
{
    if fates.len() == 0 {
        Seq::empty()
    } else {
        let k = fates.len() - 1;
        executed_lines(raws.subrange(0, k), fates.drop_last()) + if fates.last() == Fate::Executed
            && k < raws.len() {
            seq![raws[k]]
        } else {
            Seq::empty()
        }
    }
}

/// The lines that were dropped as malformed, in order.
pub open spec fn dropped_lines(raws: Seq<Seq<char>>, fates: Seq<Fate>) -> Seq<Seq<char>>
    decreases fates.len(),
{
    if fates.len() == 0 {
        Seq::empty()
    } else {
        let k = fates.len() - 1;
        dropped_lines(raws.subrange(0, k), fates.drop_last()) + if fates.last() == Fate::Dropped
            && k < raws.len() {
            seq![raws[k]]
        } else {
            Seq::empty()
        }
    }
}

/// How many fates equal the given one.
pub open spec fn count_fate(fates: Seq<Fate>, f: Fate) -> int
    decreases fates.len(),
{
    if fates.len() == 0 {
        0
    } else {
        count_fate(fates.drop_last(), f) + if fates.last() == f {
            1int
        } else {
            0int
        }
    }
}

pub proof fn lemma_count_fate_bound(fates: Seq<Fate>, f: Fate)
    ensures
        0 <= count_fate(fates, f) <= fates.len(),
    decreases fates.len(),
{
    if fates.len() > 0 {
        lemma_count_fate_bound(fates.drop_last(), f);
    }
}

/// One line consumed with fate `f` extends the kept and executed lists
/// exactly when the fate says so.
proof fn lemma_fate_step(
    raws: Seq<Seq<char>>,
    i: int,
    fates0: Seq<Fate>,
    f: Fate,
    kept0: Seq<Seq<char>>,
    exec0: Seq<Seq<char>>,
)
    requires
        0 <= i < raws.len(),
        fates0.len() == i,
        kept0 == kept_lines(raws.subrange(0, i), fates0),
        exec0 == executed_lines(raws.subrange(0, i), fates0),
    ensures
        kept_lines(raws.subrange(0, i + 1), fates0.push(f)) == if is_kept(f) {
            kept0.push(raws[i])
        } else {
            kept0
        },
        executed_lines(raws.subrange(0, i + 1), fates0.push(f)) == if f == Fate::Executed {
            exec0.push(raws[i])
        } else {
            exec0
        },
        count_fate(fates0.push(f), Fate::Executed) == count_fate(fates0, Fate::Executed) + if f
            == Fate::Executed {
            1int
        } else {
            0int
        },
        count_fate(fates0.push(f), Fate::Held) == count_fate(fates0, Fate::Held) + if f
            == Fate::Held {
            1int
        } else {
            0int
        },
{
    let p1 = raws.subrange(0, i + 1);
    let fates1 = fates0.push(f);
    assert(fates1.drop_last() =~= fates0);
    assert(p1.subrange(0, i) =~= raws.subrange(0, i));
    assert(p1[i] == raws[i]);
    if is_kept(f) {
        assert(kept_lines(p1, fates1) =~= kept0.push(raws[i]));
    } else {
        assert(kept_lines(p1, fates1) =~= kept0);
    }
    if f == Fate::Executed {
        assert(executed_lines(p1, fates1) =~= exec0.push(raws[i]));
    } else {
        assert(executed_lines(p1, fates1) =~= exec0);
    }
}

/// Queue durability: a worker pass accounts for every queue line exactly
/// once.  The lines kept in the queue, the lines moved to the processed
/// log, and the dropped malformed lines partition the original lines, so
/// after a pass every executed entry is gone from the queue and appears
/// in the processed log exactly once, and nothing else moved.
pub proof fn lemma_queue_durability(raws: Seq<Seq<char>>, fates: Seq<Fate>)
    requires
        raws.len() == fates.len(),
    ensures
        kept_lines(raws, fates).to_multiset().add(
            executed_lines(raws, fates).to_multiset(),
        ).add(dropped_lines(raws, fates).to_multiset()) == raws.to_multiset(),
        executed_lines(raws, fates).len() == count_fate(fates, Fate::Executed),
    decreases raws.len(),
{
    broadcast use vstd::seq_lib::group_to_multiset_ensures;

    if raws.len() == 0 {
        assert(kept_lines(raws, fates).to_multiset().add(
            executed_lines(raws, fates).to_multiset(),
        ).add(dropped_lines(raws, fates).to_multiset()) =~= raws.to_multiset());
    } else {
        let k = raws.len() - 1;
        let rp = raws.subrange(0, k);
        let fp = fates.drop_last();
        lemma_queue_durability(rp, fp);
        assert(raws =~= rp.push(raws[k]));
        assert(raws.to_multiset() == rp.push(raws[k]).to_multiset());
        let kl = kept_lines(rp, fp);
        let el = executed_lines(rp, fp);
        let dl = dropped_lines(rp, fp);
        if is_kept(fates.last()) {
            assert(kept_lines(raws, fates) =~= kl.push(raws[k]));
            assert(executed_lines(raws, fates) == el);
            assert(dropped_lines(raws, fates) == dl);
            assert(kl.push(raws[k]).to_multiset() =~= kl.to_multiset().insert(raws[k]));
            assert(kept_lines(raws, fates).to_multiset().add(el.to_multiset()).add(
                dl.to_multiset(),
            ) =~= raws.to_multiset());
        } else if fates.last() == Fate::Executed {
            assert(executed_lines(raws, fates) =~= el.push(raws[k]));
            assert(kept_lines(raws, fates) == kl);
            assert(dropped_lines(raws, fates) == dl);
            assert(kl.to_multiset().add(executed_lines(raws, fates).to_multiset()).add(
                dl.to_multiset(),
            ) =~= raws.to_multiset());
        } else {
            assert(fates.last() == Fate::Dropped);
            assert(dropped_lines(raws, fates) =~= dl.push(raws[k]));
            assert(kept_lines(raws, fates) == kl);
            assert(executed_lines(raws, fates) == el);
            assert(kl.to_multiset().add(el.to_multiset()).add(
                dropped_lines(raws, fates).to_multiset(),
            ) =~= raws.to_multiset());
        }
    }
}

/// A line whose job was held for approval stays in the queue: its text
/// is among the kept lines and never among the executed ones.
pub proof fn lemma_held_line_kept(raws: Seq<Seq<char>>, fates: Seq<Fate>, j: int)
    requires
        raws.len() == fates.len(),
        0 <= j < fates.len(),
        fates[j] == Fate::Held,
    ensures
        kept_lines(raws, fates).contains(raws[j]),
    decreases raws.len(),
{
    let k = raws.len() - 1;
    let rp = raws.subrange(0, k);
    let fp = fates.drop_last();
    if j == k {
        assert(kept_lines(raws, fates).last() == raws[k]);
    } else {
        lemma_held_line_kept(rp, fp, j);
        let w = choose|w: int| 0 <= w < kept_lines(rp, fp).len() && kept_lines(rp, fp)[w] == rp[j];
        assert(kept_lines(raws, fates)[w] == rp[j]);
        assert(rp[j] == raws[j]);
    }
}

/// What the worker should do with the entry it was handed.
#[derive(Clone, Copy, PartialEq, Eq, Structural, Debug)]
pub enum WorkerDirective {
    /// Run the job through the engine and persist the result.
    Execute,
    /// The job awaits approval: the entry stays queued.
    Held,
}

/// One pass over the queue: a state machine the surrounding loop drives.
/// `next_entry` hands out the next decodable entry under the limit;
/// `report_job` gates it on the approval ledger; `report_result` records
/// the engine outcome; `finish` yields the rewritten queue, the processed
/// lines and the statistics.
pub struct WorkerPass {
    pub entries: Vec<ParsedLine>,
    pub limit: usize,
    pub idx: usize,
    pub processed_count: usize,
    pub pending_approvals: usize,
    pub remaining: Vec<String>,
    pub processed: Vec<String>,
    pub current_open: bool,
    pub fates: Ghost<Seq<Fate>>,
}

/// What a finished pass hands back.
pub struct WorkerOutcome {
    pub remaining: Vec<String>,
    pub processed: Vec<String>,
    pub stats: WorkerStats,
    pub fates: Ghost<Seq<Fate>>,
}

impl WorkerPass {
    /// The pass's bookkeeping invariant: every consumed line has a fate,
    /// and the remaining and processed lines are exactly the kept and
    /// executed ones, in order.
    pub open spec fn wf(self) -> bool {
        let raws = raw_views(self.entries@).subrange(0, self.idx as int);
        &&& self.idx <= self.entries@.len()
        &&& self.fates@.len() == self.idx
        &&& views_of(self.remaining@) == kept_lines(raws, self.fates@)
        &&& views_of(self.processed@) == executed_lines(raws, self.fates@)
        &&& self.processed_count == count_fate(self.fates@, Fate::Executed)
        &&& self.pending_approvals == count_fate(self.fates@, Fate::Held)
        &&& self.processed_count <= self.limit
        &&& (self.current_open ==> self.idx < self.entries@.len() && self.entries@[
            self.idx as int
        ].entry is Some && self.processed_count < self.limit)
    }

    /// Starts a pass over the parsed queue lines.
    pub fn new(entries: Vec<ParsedLine>, limit: usize) -> (r: WorkerPass)
        ensures
            r.wf(),
            !r.current_open,
            r.entries == entries,
            r.limit == limit,
            r.idx == 0,
    {
        let r = WorkerPass {
            entries,
            limit,
            idx: 0,
            processed_count: 0,
            pending_approvals: 0,
            remaining: Vec::new(),
            processed: Vec::new(),
            current_open: false,
            fates: Ghost(Seq::empty()),
        };
        proof {
            assert(views_of(r.remaining@) =~= kept_lines(
                raw_views(r.entries@).subrange(0, 0),
                r.fates@,
            ));
            assert(views_of(r.processed@) =~= executed_lines(
                raw_views(r.entries@).subrange(0, 0),
                r.fates@,
            ));
        }
        r
    }

    /// Hands out the next decodable entry while the pass is under its
    /// limit, dropping exactly the malformed lines it skips on the way.
    /// Once the limit is reached every line left is retained, in order,
    /// and `None` comes back; `None` under the limit means every line has
    /// been consumed.
    pub fn next_entry(&mut self) -> (r: Option<QueueEntry>)
        requires
            old(self).wf(),
            !old(self).current_open,
        ensures
            final(self).wf(),
            final(self).entries == old(self).entries,
            final(self).limit == old(self).limit,
            final(self).processed == old(self).processed,
            final(self).processed_count == old(self).processed_count,
            final(self).pending_approvals == old(self).pending_approvals,
            old(self).idx <= final(self).idx <= old(self).entries@.len(),
            forall|k: int| 0 <= k < old(self).idx ==> final(self).fates@[k] == old(self).fates@[k],
            old(self).processed_count < old(self).limit ==> {
                &&& final(self).remaining == old(self).remaining
                &&& forall|k: int|
                    old(self).idx <= k < final(self).idx ==> ((#[trigger] old(self).entries@[k]).entry
                        is None && final(self).fates@[k] == Fate::Dropped)
            },
            old(self).processed_count >= old(self).limit ==> {
                &&& r is None
                &&& final(self).idx == old(self).entries@.len()
                &&& forall|k: int|
                    old(self).idx <= k < final(self).idx ==> (#[trigger] final(self).fates@[k])
                        == Fate::Retained
                &&& views_of(final(self).remaining@) == views_of(old(self).remaining@) + raw_views(
                    old(self).entries@,
                ).subrange(old(self).idx as int, old(self).entries@.len() as int)
            },
            match r {
                Some(e) => final(self).current_open && final(self).idx < old(self).entries@.len()
                    && (old(self).entries@[final(self).idx as int].entry matches Some(e0) && e@
                    == e0@),
                None => !final(self).current_open && final(self).idx == old(self).entries@.len(),
            },
    {
        let ghost raws_all = raw_views(self.entries@);
        let total = self.entries.len();
        while self.idx < self.entries.len()
            invariant
                self.wf(),
                !self.current_open,
                raws_all == raw_views(self.entries@),
                total == self.entries@.len(),
                self.entries == old(self).entries,
                self.limit == old(self).limit,
                self.processed == old(self).processed,
                self.processed_count == old(self).processed_count,
                self.pending_approvals == old(self).pending_approvals,
                old(self).idx <= self.idx,
                forall|k: int| 0 <= k < old(self).idx ==> self.fates@[k] == old(self).fates@[k],
                old(self).processed_count < old(self).limit ==> {
                    &&& self.remaining == old(self).remaining
                    &&& forall|k: int|
                        old(self).idx <= k < self.idx ==> ((#[trigger] old(self).entries@[k]).entry
                            is None && self.fates@[k] == Fate::Dropped)
                },
                old(self).processed_count >= old(self).limit ==> {
                    &&& forall|k: int|
                        old(self).idx <= k < self.idx ==> (#[trigger] self.fates@[k])
                            == Fate::Retained
                    &&& views_of(self.remaining@) == views_of(old(self).remaining@) + raws_all.subrange(
                        old(self).idx as int,
                        self.idx as int,
                    )
                },
            decreases self.entries@.len() - self.idx,
        {
            let ghost i0 = self.idx as int;
            let ghost fates0 = self.fates@;
            let ghost rem0 = self.remaining@;
            let ghost proc0 = self.processed@;
            proof {
                assert(raws_all[i0] == self.entries@[i0].raw@);
            }
            if self.processed_count >= self.limit {
                self.remaining.push(self.entries[self.idx].raw.clone());
                proof {
                    self.fates@ = self.fates@.push(Fate::Retained);
                }
                self.idx = self.idx + 1;
                proof {
                    lemma_fate_step(
                        raws_all,
                        i0,
                        fates0,
                        Fate::Retained,
                        views_of(rem0),
                        views_of(proc0),
                    );
                    assert(views_of(self.remaining@) =~= views_of(rem0).push(raws_all[i0]));
                    assert(raws_all.subrange(old(self).idx as int, self.idx as int)
                        =~= raws_all.subrange(old(self).idx as int, i0).push(raws_all[i0]));
                    assert(views_of(self.remaining@) =~= views_of(old(self).remaining@)
                        + raws_all.subrange(old(self).idx as int, self.idx as int));
                }
            } else {
                let has_entry = self.entries[self.idx].entry.is_some();
                if !has_entry {
                    proof {
                        self.fates@ = self.fates@.push(Fate::Dropped);
                    }
                    self.idx = self.idx + 1;
                    proof {
                        lemma_fate_step(
                            raws_all,
                            i0,
                            fates0,
                            Fate::Dropped,
                            views_of(rem0),
                            views_of(proc0),
                        );
                    }
                } else {
                    self.current_open = true;
                    let e = match &self.entries[self.idx].entry {
                        Some(e) => e.clone(),
                        None => {
                            proof {
                                assert(false);
                            }
                            QueueEntry {
                                job: String::new(),
                                inventory: String::new(),
                                audit_log: None,
                                dry_run: false,
                                scheduled_for: None,
                            }
                        },
                    };
                    return Some(e);
                }
            }
        }
        proof {
            if old(self).processed_count >= old(self).limit {
                assert(raws_all.subrange(old(self).idx as int, self.idx as int) =~= raw_views(
                    old(self).entries@,
                ).subrange(old(self).idx as int, old(self).entries@.len() as int));
            }
        }
        None
    }

    /// Gates the entry handed out last on the approval ledger.  A job
    /// whose `approval_id` the ledger does not show as approved is held:
    /// its line stays queued and the pending count grows.  Everything
    /// else is to be executed.
    pub fn report_job(&mut self, job: &Job, ledger: &ApprovalStore) -> (r: WorkerDirective)
        requires
            old(self).wf(),
            old(self).current_open,
        ensures
            final(self).wf(),
            final(self).entries == old(self).entries,
            final(self).limit == old(self).limit,
            final(self).processed == old(self).processed,
            final(self).processed_count == old(self).processed_count,
            (r == WorkerDirective::Held) == (job@.approval_id matches Some(id) && !approved_spec(
                ledger.records.deep_view(),
                id,
            )),
            r == WorkerDirective::Held ==> {
                &&& final(self).idx == old(self).idx + 1
                &&& final(self).fates@ == old(self).fates@.push(Fate::Held)
                &&& final(self).pending_approvals == old(self).pending_approvals + 1
                &&& !final(self).current_open
                &&& views_of(final(self).remaining@) == views_of(old(self).remaining@).push(
                    old(self).entries@[old(self).idx as int].raw@,
                )
            },
            r == WorkerDirective::Execute ==> *final(self) == *old(self),
    {
        let held = match &job.approval_id {
            Some(id) => !ledger.is_approved(id.as_str()),
            None => false,
        };
        if held {
            let _entry_count: usize = self.entries.len();
            let ghost raws_all = raw_views(self.entries@);
            let ghost i0 = self.idx as int;
            let ghost fates0 = self.fates@;
            let ghost rem0 = self.remaining@;
            let ghost proc0 = self.processed@;
            proof {
                assert(raws_all[i0] == self.entries@[i0].raw@);
                lemma_count_fate_bound(fates0, Fate::Held);
            }
            self.remaining.push(self.entries[self.idx].raw.clone());
            proof {
                self.fates@ = self.fates@.push(Fate::Held);
            }
            self.pending_approvals = self.pending_approvals + 1;
            self.idx = self.idx + 1;
            self.current_open = false;
            proof {
                lemma_fate_step(raws_all, i0, fates0, Fate::Held, views_of(rem0), views_of(proc0));
                assert(views_of(self.remaining@) =~= views_of(rem0).push(raws_all[i0]));
            }
            WorkerDirective::Held
        } else {
            WorkerDirective::Execute
        }
    }

    /// Records the engine's outcome for the entry handed out last: a
    /// success consumes the line into the processed list, a failure keeps
    /// it queued for the next pass.
    pub fn report_result(&mut self, ok: bool)
        requires
            old(self).wf(),
            old(self).current_open,
        ensures
            final(self).wf(),
            final(self).entries == old(self).entries,
            final(self).limit == old(self).limit,
            final(self).idx == old(self).idx + 1,
            !final(self).current_open,
            final(self).pending_approvals == old(self).pending_approvals,
            ok ==> {
                &&& final(self).fates@ == old(self).fates@.push(Fate::Executed)
                &&& final(self).processed_count == old(self).processed_count + 1
                &&& views_of(final(self).processed@) == views_of(old(self).processed@).push(
                    old(self).entries@[old(self).idx as int].raw@,
                )
                &&& final(self).remaining == old(self).remaining
            },
            !ok ==> {
                &&& final(self).fates@ == old(self).fates@.push(Fate::Failed)
                &&& final(self).processed_count == old(self).processed_count
                &&& views_of(final(self).remaining@) == views_of(old(self).remaining@).push(
                    old(self).entries@[old(self).idx as int].raw@,
                )
                &&& final(self).processed == old(self).processed
            },
    {
        let _entry_count: usize = self.entries.len();
        let ghost raws_all = raw_views(self.entries@);
        let ghost i0 = self.idx as int;
        let ghost fates0 = self.fates@;
        let ghost rem0 = self.remaining@;
        let ghost proc0 = self.processed@;
        proof {
            assert(raws_all[i0] == self.entries@[i0].raw@);
        }
        if ok {
            self.processed.push(self.entries[self.idx].raw.clone());
            proof {
                self.fates@ = self.fates@.push(Fate::Executed);
            }
            self.processed_count = self.processed_count + 1;
        } else {
            self.remaining.push(self.entries[self.idx].raw.clone());
            proof {
                self.fates@ = self.fates@.push(Fate::Failed);
            }
        }
        self.idx = self.idx + 1;
        self.current_open = false;
        proof {
            let f = if ok {
                Fate::Executed
            } else {
                Fate::Failed
            };
            lemma_fate_step(raws_all, i0, fates0, f, views_of(rem0), views_of(proc0));
            if ok {
                assert(views_of(self.processed@) =~= views_of(proc0).push(raws_all[i0]));
            } else {
                assert(views_of(self.remaining@) =~= views_of(rem0).push(raws_all[i0]));
            }
        }
    }

    /// Ends the pass: any line not yet consumed is retained, and the
    /// rewritten queue, the processed lines and the statistics come back
    /// together with the ghost fate of every line.
    pub fn finish(self) -> (o: WorkerOutcome)
        requires
            self.wf(),
            !self.current_open,
        ensures
            o.fates@.len() == self.entries@.len(),
            views_of(o.remaining@) == kept_lines(raw_views(self.entries@), o.fates@),
            views_of(o.processed@) == executed_lines(raw_views(self.entries@), o.fates@),
            o.stats.processed == count_fate(o.fates@, Fate::Executed),
            o.stats.pending_approvals == count_fate(o.fates@, Fate::Held),
            o.stats.remaining == o.remaining@.len(),
            forall|k: int| 0 <= k < self.idx ==> o.fates@[k] == self.fates@[k],
            forall|k: int| self.idx <= k < self.entries@.len() ==> o.fates@[k] == Fate::Retained,
    {
        let ghost raws_all = raw_views(self.entries@);
        let mut pass = self;
        while pass.idx < pass.entries.len()
            invariant
                pass.wf(),
                !pass.current_open,
                raws_all == raw_views(pass.entries@),
                pass.entries == self.entries,
                pass.limit == self.limit,
                pass.processed == self.processed,
                pass.processed_count == self.processed_count,
                pass.pending_approvals == self.pending_approvals,
                self.idx <= pass.idx,
                forall|k: int| 0 <= k < self.idx ==> pass.fates@[k] == self.fates@[k],
                forall|k: int| self.idx <= k < pass.idx ==> pass.fates@[k] == Fate::Retained,
            decreases pass.entries@.len() - pass.idx,
        {
            let ghost i0 = pass.idx as int;
            let ghost fates0 = pass.fates@;
            let ghost rem0 = pass.remaining@;
            let ghost proc0 = pass.processed@;
            proof {
                assert(raws_all[i0] == pass.entries@[i0].raw@);
            }
            pass.remaining.push(pass.entries[pass.idx].raw.clone());
            proof {
                pass.fates@ = pass.fates@.push(Fate::Retained);
            }
            pass.idx = pass.idx + 1;
            proof {
                lemma_fate_step(
                    raws_all,
                    i0,
                    fates0,
                    Fate::Retained,
                    views_of(rem0),
                    views_of(proc0),
                );
                assert(views_of(pass.remaining@) =~= views_of(rem0).push(raws_all[i0]));
            }
        }
        proof {
            assert(raws_all.subrange(0, pass.entries@.len() as int) =~= raws_all);
        }
        let stats = WorkerStats {
            processed: pass.processed_count,
            remaining: pass.remaining.len(),
            pending_approvals: pass.pending_approvals,
        };
        WorkerOutcome {
            remaining: pass.remaining,
            processed: pass.processed,
            stats,
            fates: Ghost(pass.fates@),
        }
    }
}

} // verus!
