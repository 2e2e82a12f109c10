use vstd::prelude::*;

use crate::error::FetchError;
use crate::limiter::Limiter;
use crate::stage::{StageResult, StageRunner};

verus! {

/// What a completed run hands to the reporting sink: the bodies fetched,
/// the identifiers whose fetch failed, and the partitions whose search
/// failed — each failure with its cause. Records of partitions that failed
/// were never searched, so their identifiers appear nowhere; everything
/// else is accounted for in exactly one of the three collections.
pub struct RunOutput {
    pub bodies: Vec<String>,
    pub failed_identifiers: Vec<(u64, FetchError)>,
    pub failed_partitions: Vec<(String, FetchError)>,
}

/// The combined identifier stream: the successful per-partition batches of
/// the identifier stage, flattened in recorded order. Order within a batch
/// is preserved; order across batches carries no meaning. Nothing is
/// deduplicated — a duplicate across partitions would be a remote anomaly
/// worth surfacing, not silently fixing.
pub open spec fn flatten_batches(s: Seq<(usize, Vec<u64>)>) -> Seq<u64>
    decreases s.len(),
{
    if s.len() == 0 {
        Seq::empty()
    } else {
        flatten_batches(s.drop_last()) + s.last().1@
    }
}

/// Begin a run from the discovery result. A discovery failure is fatal:
/// the error comes back alone, no stage is set up, and no further work can
/// be attempted. A successful discovery yields the identifier stage over
/// exactly the discovered partitions, with nothing launched yet.
pub fn start_run(discovery: Result<Vec<String>, FetchError>, limiter: Limiter) -> (r: Result<
    StageRunner<String, Vec<u64>>,
    FetchError,
>)
    requires
        limiter.inv(),
        limiter.held() == 0,
    ensures
        discovery is Err ==> r is Err && r->Err_0 == discovery->Err_0,
        discovery is Ok ==> r is Ok,
        discovery is Ok ==> r->Ok_0.wf() && r->Ok_0.inputs_seq() == discovery->Ok_0@
            && r->Ok_0.launched_count() == 0 && r->Ok_0.running_count() == 0
            && r->Ok_0.successes_seq().len() == 0 && r->Ok_0.failures_seq().len() == 0
            && r->Ok_0.limit() == limiter.max_slots(),
{
    match discovery {
        Ok(partitions) => Ok(StageRunner::new(partitions, limiter)),
        Err(e) => Err(e),
    }
}

/// Seal the identifier stage: flatten every successful batch into the one
/// stream the body stage will consume, and turn each recorded failure into
/// a (partition, cause) pair. A failed partition costs the run only its own
/// batch — every other batch reaches the stream untouched.
#[verifier::loop_isolation(false)]
pub fn combine_identifiers(stage: StageResult<String, Vec<u64>>) -> (r: (
    Vec<u64>,
    Vec<(String, FetchError)>,
))
    requires
        stage.accounted(),
    ensures
        r.0@ == flatten_batches(stage.successes@),
        r.1@.len() == stage.failures@.len(),
        forall|k: int|
            0 <= k < stage.failures@.len() ==> (#[trigger] r.1@[k]).0 == stage.inputs@[(
            #[trigger] stage.failures@[k]).0 as int] && r.1@[k].1 == stage.failures@[k].1,
{
    let mut ids: Vec<u64> = Vec::new();
    let ns = stage.successes.len();
    let mut k: usize = 0;
    while k < ns
        invariant
            k <= ns,
            ids@ == flatten_batches(stage.successes@.take(k as int)),
        decreases ns - k,
    {
        let batch = &stage.successes[k].1;
        let bn = batch.len();
        let mut j: usize = 0;
        while j < bn
            invariant
                j <= bn,
                ids@ == flatten_batches(stage.successes@.take(k as int)) + batch@.take(j as int),
            decreases bn - j,
        {
            ids.push(batch[j]);
            proof {
                assert(batch@.take(j as int).push(batch@[j as int]) =~= batch@.take(j as int + 1));
            }
            j = j + 1;
        }
        proof {
            let s = stage.successes@;
            assert(s.take(k as int + 1).drop_last() =~= s.take(k as int));
            assert(s.take(k as int + 1).last() == s[k as int]);
            assert(batch@.take(bn as int) =~= batch@);
        }
        k = k + 1;
    }
    proof {
        assert(stage.successes@.take(ns as int) =~= stage.successes@);
    }
    let nf = stage.failures.len();
    let mut failed: Vec<(String, FetchError)> = Vec::new();
    let mut m: usize = 0;
    while m < nf
        invariant
            m <= nf,
            failed@.len() == m,
            forall|i: int|
                0 <= i < m ==> (#[trigger] failed@[i]).0 == stage.inputs@[(
                #[trigger] stage.failures@[i]).0 as int] && failed@[i].1 == stage.failures@[i].1,
        decreases nf - m,
    {
        let idx = stage.failures[m].0;
        let cause = stage.failures[m].1;
        let name = stage.inputs[idx].clone();
        failed.push((name, cause));
        m = m + 1;
    }
    (ids, failed)
}

/// Seal the body stage and produce the run's output: successful bodies in
/// recorded order, each failed fetch as an (identifier, cause) pair, and
/// the partition failures carried over from the identifier stage.
#[verifier::loop_isolation(false)]
pub fn assemble_output(
    stage: StageResult<u64, String>,
    failed_partitions: Vec<(String, FetchError)>,
) -> (r: RunOutput)
    requires
        stage.accounted(),
    ensures
        r.bodies@.len() == stage.successes@.len(),
        forall|k: int|
            0 <= k < stage.successes@.len() ==> r.bodies@[k] == (
            #[trigger] stage.successes@[k]).1,
        r.failed_identifiers@.len() == stage.failures@.len(),
        forall|k: int|
            0 <= k < stage.failures@.len() ==> (#[trigger] r.failed_identifiers@[k]).0
                == stage.inputs@[(#[trigger] stage.failures@[k]).0 as int]
                && r.failed_identifiers@[k].1 == stage.failures@[k].1,
        r.failed_partitions == failed_partitions,
{
    let ns = stage.successes.len();
    let mut bodies: Vec<String> = Vec::new();
    let mut k: usize = 0;
    while k < ns
        invariant
            k <= ns,
            bodies@.len() == k,
            forall|i: int|
                0 <= i < k ==> bodies@[i] == (#[trigger] stage.successes@[i]).1,
        decreases ns - k,
    {
        let body = stage.successes[k].1.clone();
        bodies.push(body);
        k = k + 1;
    }
    let nf = stage.failures.len();
    let mut failed_ids: Vec<(u64, FetchError)> = Vec::new();
    let mut m: usize = 0;
    while m < nf
        invariant
            m <= nf,
            failed_ids@.len() == m,
            forall|i: int|
                0 <= i < m ==> (#[trigger] failed_ids@[i]).0 == stage.inputs@[(
                #[trigger] stage.failures@[i]).0 as int] && failed_ids@[i].1
                    == stage.failures@[i].1,
        decreases nf - m,
    {
        let idx = stage.failures[m].0;
        let cause = stage.failures[m].1;
        failed_ids.push((stage.inputs[idx], cause));
        m = m + 1;
    }
    RunOutput { bodies, failed_identifiers: failed_ids, failed_partitions }
}

/// A partition failure costs the run nothing beyond its own batch: every
/// identifier of every successful batch still appears in the combined
/// stream that the body stage consumes.
pub proof fn lemma_no_successful_batch_is_lost(s: Seq<(usize, Vec<u64>)>, k: int, j: int)
    requires
        0 <= k < s.len(),
        0 <= j < s[k].1@.len(),
    ensures
        flatten_batches(s).contains(s[k].1@[j]),
    decreases s.len(),
{
    if k == s.len() - 1 {
        let prefix = flatten_batches(s.drop_last());
        assert(flatten_batches(s)[prefix.len() + j] == s[k].1@[j]);
    } else {
        lemma_no_successful_batch_is_lost(s.drop_last(), k, j);
        assert(s.drop_last()[k] == s[k]);
        let x = s[k].1@[j];
        let prefix = flatten_batches(s.drop_last());
        let i = choose|i: int| 0 <= i < prefix.len() && prefix[i] == x;
        assert(flatten_batches(s)[i] == x);
    }
}

} // verus!
