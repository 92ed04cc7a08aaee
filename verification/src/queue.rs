//! The durable work queue's format: one JSON-encoded entry per line,
//! blank lines skipped.  The library frames and joins the lines and names
//! the sibling paths; turning a line into an entry and back is the
//! serializer's work in the binary around the library.

use vstd::prelude::*;
use vstd::string::StringExecFns;

use crate::model::Job;
use crate::text::{
    chars_vec, clean_lines, concat2, joined_lines, join_lines, rfind, rfind_exec,
    split_clean_lines, string_from_chars, suffix_from, views_of,
};

verus! {

/// One line of the work queue: the job and inventory documents to run,
/// an optional audit-log override, a dry-run flag, and an informational
/// schedule timestamp.
#[derive(Debug)]
pub struct QueueEntry {
    pub job: String,
    pub inventory: String,
    pub audit_log: Option<String>,
    pub dry_run: bool,
    pub scheduled_for: Option<String>,
}

/// The mathematical image of a queue entry.
pub ghost struct QueueEntryV {
    pub job: Seq<char>,
    pub inventory: Seq<char>,
    pub audit_log: Option<Seq<char>>,
    pub dry_run: bool,
    pub scheduled_for: Option<Seq<char>>,
}

impl View for QueueEntry {
    type V = QueueEntryV;

    open spec fn view(&self) -> QueueEntryV {
        QueueEntryV {
            job: self.job@,
            inventory: self.inventory@,
            audit_log: self.audit_log.deep_view(),
            dry_run: self.dry_run,
            scheduled_for: self.scheduled_for.deep_view(),
        }
    }
}

impl DeepView for QueueEntry {
    type V = QueueEntryV;

    open spec fn deep_view(&self) -> QueueEntryV {
        self.view()
    }
}

impl Clone for QueueEntry {
    /// An exact copy.
    fn clone(&self) -> (r: Self)
        ensures
            r@ == self@,
    {
        QueueEntry {
            job: self.job.clone(),
            inventory: self.inventory.clone(),
            audit_log: match &self.audit_log {
                Some(a) => Some(a.clone()),
                None => None,
            },
            dry_run: self.dry_run,
            scheduled_for: match &self.scheduled_for {
                Some(s) => Some(s.clone()),
                None => None,
            },
        }
    }
}

/// Splits a queue file body into its non-blank lines, in order.
pub fn split_queue_lines(body: &str) -> (r: Vec<String>)
    ensures
        views_of(r@) == clean_lines(body@),
{
    split_clean_lines(body)
}

/// The body to rewrite the queue file with: each remaining line followed
/// by a line feed; empty when nothing remains.
pub fn queue_body(remaining: &Vec<String>) -> (r: String)
    ensures
        r@ == joined_lines(views_of(remaining@)),
{
    join_lines(remaining)
}

/// The file name part of a path: everything after the last slash.
pub open spec fn file_name_of(p: Seq<char>) -> Seq<char> {
    p.subrange(rfind(p, '/') + 1, p.len() as int)
}

/// The path of the processed-lines sibling: the queue path with
/// `.processed` appended to its file name (or to `jobs.jsonl` when the
/// path has no file name part).
pub open spec fn processed_path_spec(p: Seq<char>) -> Seq<char> {
    let dir = p.subrange(0, rfind(p, '/') + 1);
    let name = if file_name_of(p).len() > 0 {
        file_name_of(p)
    } else {
        "jobs.jsonl"@
    };
    dir + name + ".processed"@
}

/// The sibling path that executed queue lines are appended to.
pub fn processed_path_name(queue_path: &str) -> (r: String)
    ensures
        r@ == processed_path_spec(queue_path@),
{
    let v = chars_vec(queue_path);
    proof {
        crate::text::lemma_rfind(v@, '/');
    }
    let split: usize = match rfind_exec(&v, '/') {
        Some(i) => i + 1,
        None => 0,
    };
    let mut dir: Vec<char> = Vec::new();
    let mut i: usize = 0;
    while i < split
        invariant
            split <= v@.len(),
            i <= split,
            dir@ =~= v@.subrange(0, i as int),
        decreases split - i,
    {
        dir.push(v[i]);
        proof {
            assert(dir@ =~= v@.subrange(0, i + 1 as int));
        }
        i = i + 1;
    }
    let name = suffix_from(&v, split);
    let dir_str = string_from_chars(&dir);
    let r = if name.len() > 0 {
        let name_str = string_from_chars(&name);
        let head = concat2(dir_str.as_str(), name_str.as_str());
        concat2(head.as_str(), ".processed")
    } else {
        let head = concat2(dir_str.as_str(), "jobs.jsonl");
        concat2(head.as_str(), ".processed")
    };
    proof {
        assert(r@ =~= processed_path_spec(queue_path@));
    }
    r
}

/// The file a result document is written to: `job-<id>.json` inside the
/// results directory.
pub open spec fn result_file_spec(results_dir: Seq<char>, job_id: Seq<char>) -> Seq<char> {
    results_dir + "/job-"@ + job_id + ".json"@
}

/// Names the result document for a job id.
pub fn result_file_name(results_dir: &str, job_id: &str) -> (r: String)
    ensures
        r@ == result_file_spec(results_dir@, job_id@),
{
    let head = concat2(results_dir, "/job-");
    let mid = concat2(head.as_str(), job_id);
    concat2(mid.as_str(), ".json")
}

/// A file-backed job queue handle.
pub struct FileJobQueue {
    pub path: String,
}

impl FileJobQueue {
    /// A handle on the queue file at the given path.
    pub fn new(path: &str) -> (r: FileJobQueue)
        ensures
            r.path@ == path@,
    {
        FileJobQueue { path: String::from_str(path) }
    }

    /// Queue submission through this handle is not wired up yet; entries
    /// are enqueued by writing the queue file directly.
    pub fn enqueue(&self, job: &Job, inventory_path: &str) -> (r: Result<(), String>)
        ensures
            r is Ok,
    {
        Ok(())
    }

    /// Queue consumption through this handle is not wired up yet; the
    /// worker reads the queue file directly.
    pub fn dequeue(&self) -> (r: Result<Option<(Job, String)>, String>)
        ensures
            r matches Ok(e) && e is None,
    {
        Ok(None)
    }
}

} // verus!
