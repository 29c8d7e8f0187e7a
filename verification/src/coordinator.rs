use vstd::prelude::*;
use crate::text::{decimal, push_decimal, push_text};
use crate::worker::{WorkerConfig, WorkerConfigView};

verus! {

/// The number of workers or agents that run at once: as many as were asked for, but
/// one at least and three at most.
pub open spec fn held_parallelism(requested: usize) -> usize {
    if requested < 1 {
        1
    } else if requested > 3 {
        3
    } else {
        requested
    }
}

/// Holds the number of workers or agents to the range from one to three.
pub fn clamp_parallelism(requested: usize) -> (granted: usize)
    ensures
        granted == held_parallelism(requested),
        1 <= granted <= 3,
{
    if requested < 1 {
        1
    } else if requested > 3 {
        3
    } else {
        requested
    }
}

/// How the worker at `index` of the integrated mode runs: it is named by its place,
/// counted from one, leases for five minutes, rests for half a second, runs the checks
/// and claims an entry five times at most.
pub open spec fn integrated_worker(index: nat) -> WorkerConfigView {
    WorkerConfigView {
        worker_id: "worker-"@ + decimal(index + 1),
        lease_seconds: 300,
        poll_interval_ms: 500,
        run_checks: true,
        max_attempts: 5,
    }
}

/// The views of a sequence of worker configurations, one for one.
pub open spec fn configs_view(v: Seq<WorkerConfig>) -> Seq<WorkerConfigView> {
    v.map_values(|c: WorkerConfig| c@)
}

/// The workers of the integrated mode: as many as were asked for, but one at least
/// and three at most.
pub fn run_integrated(worker_count: usize) -> (workers: Vec<WorkerConfig>)
    ensures
        configs_view(workers@) == Seq::new(
            held_parallelism(worker_count) as nat,
            |i: int| integrated_worker(i as nat),
        ),
        forall|i: int| 0 <= i < workers@.len() ==> (#[trigger] workers@[i])@.valid(),
{
    let count = clamp_parallelism(worker_count);
    let mut workers: Vec<WorkerConfig> = Vec::new();
    let mut index: usize = 0;
    while index < count
        invariant
            index <= count <= 3,
            workers@.len() == index,
            forall|i: int| 0 <= i < index ==> (#[trigger] workers@[i])@ == integrated_worker(i as nat),
        decreases count - index,
    {
        let mut worker_id = String::new();
        push_text(&mut worker_id, "worker-");
        push_decimal(&mut worker_id, (index as u64) + 1);
        proof {
            assert(worker_id@ =~= "worker-"@ + decimal((index + 1) as nat));
        }
        workers.push(
            WorkerConfig {
                worker_id,
                lease_seconds: 300,
                poll_interval_ms: 500,
                run_checks: true,
                max_attempts: 5,
            },
        );
        index = index + 1;
    }
    proof {
        assert(configs_view(workers@) =~= Seq::new(
            held_parallelism(worker_count) as nat,
            |i: int| integrated_worker(i as nat),
        ));
    }
    workers
}

} // verus!
