//! Staged change transactions: validating the plan parameters and
//! splitting a device list into a canary stage and batches.

use vstd::prelude::*;
use vstd::string::StringExecFns;

use crate::model::clone_string_vec;

verus! {

/// The arguments of a transaction-planning run.
#[derive(Debug)]
pub struct TransactionsCmd {
    pub job: String,
    pub inventory: String,
    pub output: String,
    pub canary_size: usize,
    pub batch_size: usize,
}

impl TransactionsCmd {
    /// Rejects zero-sized canary or batch stages.
    pub fn ensure_valid(&self) -> (r: Result<(), String>)
        ensures
            r is Ok <==> (self.canary_size > 0 && self.batch_size > 0),
            self.canary_size == 0 ==> (r matches Err(m) && m@
                == "canary-size must be greater than zero"@),
            self.canary_size > 0 && self.batch_size == 0 ==> (r matches Err(m) && m@
                == "batch-size must be greater than zero"@),
    {
        if self.canary_size == 0 {
            Err(String::from_str("canary-size must be greater than zero"))
        } else if self.batch_size == 0 {
            Err(String::from_str("batch-size must be greater than zero"))
        } else {
            Ok(())
        }
    }
}

/// A staged rollout plan: the canary devices first, then batches.
#[derive(Debug)]
pub struct TransactionPlan {
    pub job_name: String,
    pub canary: Vec<String>,
    pub batches: Vec<Vec<String>>,
}

/// A list split into chunks of the given size, the last possibly
/// shorter.
pub open spec fn chunks_of(ids: Seq<Seq<char>>, size: int) -> Seq<Seq<Seq<char>>>
    recommends
        size >= 1,
    decreases ids.len(),
{
    if ids.len() == 0 || size < 1 {
        Seq::empty()
    } else {
        let take = if ids.len() < size {
            ids.len() as int
        } else {
            size
        };
        seq![ids.subrange(0, take)] + chunks_of(ids.subrange(take, ids.len() as int), size)
    }
}

/// Builds the staged plan over a device-id list (in the order given):
/// the first `canary_size` ids form the canary, the rest fall into
/// batches of `batch_size`.
pub fn build_transaction_plan(
    job_name: String,
    device_ids: &Vec<String>,
    canary_size: usize,
    batch_size: usize,
) -> (r: TransactionPlan)
    requires
        canary_size >= 1,
        batch_size >= 1,
    ensures
        r.job_name@ == job_name@,
        r.canary.deep_view() == device_ids.deep_view().subrange(
            0,
            if device_ids@.len() < canary_size {
                device_ids@.len() as int
            } else {
                canary_size as int
            },
        ),
        r.batches.deep_view() == chunks_of(
            device_ids.deep_view().subrange(
                if device_ids@.len() < canary_size {
                    device_ids@.len() as int
                } else {
                    canary_size as int
                },
                device_ids@.len() as int,
            ),
            batch_size as int,
        ),
{
    let ghost dvs = device_ids.deep_view();
    let cut = if device_ids.len() < canary_size {
        device_ids.len()
    } else {
        canary_size
    };
    let mut canary: Vec<String> = Vec::new();
    let mut i: usize = 0;
    while i < cut
        invariant
            dvs == device_ids.deep_view(),
            dvs.len() == device_ids@.len(),
            cut <= device_ids@.len(),
            i <= cut,
            canary@.len() == i,
            forall|k: int| 0 <= k < i ==> canary.deep_view()[k] == dvs[k],
        decreases cut - i,
    {
        canary.push(device_ids[i].clone());
        i = i + 1;
    }
    proof {
        assert(canary.deep_view() =~= dvs.subrange(0, cut as int));
    }
    let mut batches: Vec<Vec<String>> = Vec::new();
    let mut pos: usize = cut;
    proof {
        assert(batches.deep_view() =~= Seq::<Seq<Seq<char>>>::empty());
        assert(chunks_of(dvs.subrange(cut as int, dvs.len() as int), batch_size as int)
            =~= batches.deep_view() + chunks_of(
            dvs.subrange(pos as int, dvs.len() as int),
            batch_size as int,
        ));
    }
    while pos < device_ids.len()
        invariant
            dvs == device_ids.deep_view(),
            dvs.len() == device_ids@.len(),
            cut <= pos <= device_ids@.len(),
            batch_size >= 1,
            chunks_of(dvs.subrange(cut as int, dvs.len() as int), batch_size as int)
                == batches.deep_view() + chunks_of(
                dvs.subrange(pos as int, dvs.len() as int),
                batch_size as int,
            ),
        decreases device_ids@.len() - pos,
    {
        let ghost rest = dvs.subrange(pos as int, dvs.len() as int);
        let room = device_ids.len() - pos;
        let take = if room < batch_size {
            room
        } else {
            batch_size
        };
        let mut chunk: Vec<String> = Vec::new();
        let mut j: usize = 0;
        while j < take
            invariant
                dvs == device_ids.deep_view(),
                dvs.len() == device_ids@.len(),
                device_ids@.len() <= usize::MAX,
                pos + take <= device_ids@.len(),
                j <= take,
                chunk@.len() == j,
                forall|k: int| 0 <= k < j ==> chunk.deep_view()[k] == dvs[pos + k],
            decreases take - j,
        {
            let ghost old_chunk = chunk.deep_view();
            chunk.push(device_ids[pos + j].clone());
            proof {
                assert(chunk.deep_view() =~= old_chunk.push(dvs[pos + j]));
            }
            j = j + 1;
        }
        let ghost old_batches = batches.deep_view();
        batches.push(chunk);
        proof {
            assert(chunk.deep_view() =~= rest.subrange(0, take as int));
            assert(batches.deep_view() =~= old_batches.push(rest.subrange(0, take as int)));
            assert(rest.subrange(take as int, rest.len() as int) =~= dvs.subrange(
                pos + take,
                dvs.len() as int,
            ));
            assert(old_batches + (seq![rest.subrange(0, take as int)] + chunks_of(
                rest.subrange(take as int, rest.len() as int),
                batch_size as int,
            )) =~= batches.deep_view() + chunks_of(
                dvs.subrange(pos + take, dvs.len() as int),
                batch_size as int,
            ));
        }
        pos = pos + take;
    }
    proof {
        let tail = dvs.subrange(pos as int, dvs.len() as int);
        assert(tail.len() == 0);
        assert(chunks_of(tail, batch_size as int) =~= Seq::<Seq<Seq<char>>>::empty());
        assert(batches.deep_view() + chunks_of(tail, batch_size as int) =~= batches.deep_view());
    }
    TransactionPlan { job_name, canary, batches }
}

/// The stages a plan runs, canary first, skipping empty stages.
pub open spec fn plan_stages(canary: Seq<Seq<char>>, batches: Seq<Seq<Seq<char>>>) -> Seq<
    Seq<Seq<char>>,
> {
    if canary.len() > 0 {
        seq![canary] + batches
    } else {
        batches
    }
}

/// Orders a plan's stages for execution: the canary first when it has
/// any devices, then the batches.
pub fn staged_rollout(plan: &TransactionPlan) -> (r: Vec<Vec<String>>)
    ensures
        r.deep_view() == plan_stages(plan.canary.deep_view(), plan.batches.deep_view()),
{
    let mut r: Vec<Vec<String>> = Vec::new();
    if plan.canary.len() > 0 {
        r.push(clone_string_vec(&plan.canary));
    }
    let mut i: usize = 0;
    let ghost base = r.deep_view();
    while i < plan.batches.len()
        invariant
            base == (if plan.canary.deep_view().len() > 0 {
                seq![plan.canary.deep_view()]
            } else {
                Seq::<Seq<Seq<char>>>::empty()
            }),
            i <= plan.batches@.len(),
            r.deep_view() == base + plan.batches.deep_view().subrange(0, i as int),
        decreases plan.batches@.len() - i,
    {
        let ghost old_r = r.deep_view();
        r.push(clone_string_vec(&plan.batches[i]));
        proof {
            assert(r.deep_view() =~= old_r.push(plan.batches.deep_view()[i as int]));
            assert(r.deep_view() =~= base + plan.batches.deep_view().subrange(0, i + 1 as int));
        }
        i = i + 1;
    }
    proof {
        assert(plan.batches.deep_view().subrange(0, plan.batches.deep_view().len() as int)
            =~= plan.batches.deep_view());
        assert(r.deep_view() =~= plan_stages(plan.canary.deep_view(), plan.batches.deep_view()));
    }
    r
}

} // verus!
