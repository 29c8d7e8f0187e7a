use vstd::prelude::*;
use crate::journal::{logs_view, measure, read_measure, ChangeQueueLog, ChangeQueueLogView};
use crate::models::StatusCounts;
use crate::text::text_eq;

verus! {

/// What the journal of a stretch of time adds up to. The averages are the totals
/// divided by the numbers of samples; where there is no sample there is no average.
#[derive(Clone, Copy, Debug, PartialEq, Eq, Structural)]
pub struct QueueMetrics {
    /// The length of the stretch, in seconds; at least one.
    pub window_seconds: i64,
    pub status_counts: StatusCounts,
    pub dequeue_latency_total_ms: u128,
    pub dequeue_samples: usize,
    pub apply_duration_total_ms: u128,
    pub apply_samples: usize,
    pub poll_interval_total_ms: u128,
    pub poll_samples: usize,
    /// How many entries were applied in the stretch. The throughput per minute is this
    /// number times sixty, divided by the window.
    pub applied_count: usize,
    /// How many claims took longer than the pause between two polls.
    pub lease_contention_events: usize,
    /// When the metrics were taken.
    pub timestamp: i64,
}

impl Default for QueueMetrics {
    fn default() -> (out: Self)
        ensures
            out.window_seconds == 60,
            out.timestamp == 0,
            out.status_counts == (StatusCounts { pending: 0, in_progress: 0, applied: 0, failed: 0 }),
            out.tally() == Tally::zero(),
    {
        QueueMetrics {
            window_seconds: 60,
            status_counts: StatusCounts { pending: 0, in_progress: 0, applied: 0, failed: 0 },
            dequeue_latency_total_ms: 0,
            dequeue_samples: 0,
            apply_duration_total_ms: 0,
            apply_samples: 0,
            poll_interval_total_ms: 0,
            poll_samples: 0,
            applied_count: 0,
            lease_contention_events: 0,
            timestamp: 0,
        }
    }
}

/// The sums and counts that the events of a stretch of time add up to.
pub struct Tally {
    pub dequeue_latency_total_ms: nat,
    pub dequeue_samples: nat,
    pub apply_duration_total_ms: nat,
    pub apply_samples: nat,
    pub poll_interval_total_ms: nat,
    pub poll_samples: nat,
    pub applied_count: nat,
    pub lease_contention_events: nat,
}

/// One if the condition holds, zero otherwise.
pub open spec fn one_if(cond: bool) -> nat {
    if cond {
        1
    } else {
        0
    }
}

/// The measure, or zero where there is none.
pub open spec fn amount(m: Option<u64>) -> nat {
    match m {
        Some(v) => v as nat,
        None => 0,
    }
}

impl Tally {
    /// What no event adds up to.
    pub open spec fn zero() -> Tally {
        Tally {
            dequeue_latency_total_ms: 0,
            dequeue_samples: 0,
            apply_duration_total_ms: 0,
            apply_samples: 0,
            poll_interval_total_ms: 0,
            poll_samples: 0,
            applied_count: 0,
            lease_contention_events: 0,
        }
    }

    /// The tally with one more event. An event from before `since` adds nothing. An
    /// event `dequeue_metrics` adds its latency and its poll interval, each where it
    /// is given, and one contention where both are given and the latency is the
    /// longer. An event `applied` adds one applied entry and, where it is given, the
    /// time that applying took.
    pub open spec fn with_event(self, event: ChangeQueueLogView, since: int) -> Tally {
        if event.created_at < since {
            self
        } else if event.message == "dequeue_metrics"@ {
            let latency = measure(event.details, "dequeue_latency_ms"@);
            let poll = measure(event.details, "poll_interval_ms"@);
            Tally {
                dequeue_latency_total_ms: self.dequeue_latency_total_ms + amount(latency),
                dequeue_samples: self.dequeue_samples + one_if(latency.is_some()),
                poll_interval_total_ms: self.poll_interval_total_ms + amount(poll),
                poll_samples: self.poll_samples + one_if(poll.is_some()),
                lease_contention_events: self.lease_contention_events + one_if(
                    latency.is_some() && poll.is_some() && latency.unwrap() > poll.unwrap(),
                ),
                ..self
            }
        } else if event.message == "applied"@ {
            let duration = measure(event.details, "apply_duration_ms"@);
            Tally {
                applied_count: self.applied_count + 1,
                apply_duration_total_ms: self.apply_duration_total_ms + amount(duration),
                apply_samples: self.apply_samples + one_if(duration.is_some()),
                ..self
            }
        } else {
            self
        }
    }

    /// What the first `n` events add up to, counting those from `since` on.
    pub open spec fn of(events: Seq<ChangeQueueLogView>, since: int, n: nat) -> Tally
        decreases n,
    {
        if n == 0 {
            Tally::zero()
        } else {
            Tally::of(events, since, (n - 1) as nat).with_event(events[n - 1], since)
        }
    }

    /// No count is above `n`, and no total above what `n` measures can come to.
    pub open spec fn within(self, n: nat) -> bool {
        &&& self.dequeue_samples <= n
        &&& self.apply_samples <= n
        &&& self.poll_samples <= n
        &&& self.applied_count <= n
        &&& self.lease_contention_events <= n
        &&& self.dequeue_latency_total_ms <= n * u64::MAX
        &&& self.apply_duration_total_ms <= n * u64::MAX
        &&& self.poll_interval_total_ms <= n * u64::MAX
    }
}

impl QueueMetrics {
    /// The sums and counts of the metrics.
    pub open spec fn tally(self) -> Tally {
        Tally {
            dequeue_latency_total_ms: self.dequeue_latency_total_ms as nat,
            dequeue_samples: self.dequeue_samples as nat,
            apply_duration_total_ms: self.apply_duration_total_ms as nat,
            apply_samples: self.apply_samples as nat,
            poll_interval_total_ms: self.poll_interval_total_ms as nat,
            poll_samples: self.poll_samples as nat,
            applied_count: self.applied_count as nat,
            lease_contention_events: self.lease_contention_events as nat,
        }
    }

    /// The average time that a claim took, in whole milliseconds, rounded down.
    pub fn avg_dequeue_latency_ms(&self) -> (avg: Option<u128>)
        ensures
            avg == if self.dequeue_samples > 0 {
                Some((self.dequeue_latency_total_ms / self.dequeue_samples as u128) as u128)
            } else {
                None
            },
    {
        if self.dequeue_samples > 0 {
            Some(self.dequeue_latency_total_ms / (self.dequeue_samples as u128))
        } else {
            None
        }
    }

    /// The average time that applying took, in whole milliseconds, rounded down.
    pub fn avg_apply_duration_ms(&self) -> (avg: Option<u128>)
        ensures
            avg == if self.apply_samples > 0 {
                Some((self.apply_duration_total_ms / self.apply_samples as u128) as u128)
            } else {
                None
            },
    {
        if self.apply_samples > 0 {
            Some(self.apply_duration_total_ms / (self.apply_samples as u128))
        } else {
            None
        }
    }

    /// The average pause between two polls, in whole milliseconds, rounded down.
    pub fn avg_poll_interval_ms(&self) -> (avg: Option<u128>)
        ensures
            avg == if self.poll_samples > 0 {
                Some((self.poll_interval_total_ms / self.poll_samples as u128) as u128)
            } else {
                None
            },
    {
        if self.poll_samples > 0 {
            Some(self.poll_interval_total_ms / (self.poll_samples as u128))
        } else {
            None
        }
    }
}

/// The window that is meant: sixty seconds where none is given, and at least one.
pub open spec fn window_of(window_seconds: Option<i64>) -> i64 {
    match window_seconds {
        Some(w) => if w < 1 {
            1
        } else {
            w
        },
        None => 60,
    }
}

/// The time from which events count: the window before `now`, or the earliest time
/// that can be written.
pub open spec fn window_start(window_seconds: Option<i64>, now: i64) -> i64 {
    if now - window_of(window_seconds) < i64::MIN {
        i64::MIN
    } else {
        (now - window_of(window_seconds)) as i64
    }
}

/// One more event keeps the tally within what one more event allows.
proof fn lemma_tally_within(events: Seq<ChangeQueueLogView>, since: int, n: nat)
    ensures
        Tally::of(events, since, n).within(n),
    decreases n,
{
    if n > 0 {
        lemma_tally_within(events, since, (n - 1) as nat);
        assert((n - 1) * u64::MAX + u64::MAX == n * u64::MAX) by (nonlinear_arith);
    }
}

/// Adds up the events from `since` on.
pub fn tally_events(events: &Vec<ChangeQueueLog>, since: i64) -> (out: QueueMetrics)
    ensures
        out.tally() == Tally::of(logs_view(events@), since as int, events@.len()),
        out.window_seconds == 60,
        out.timestamp == 0,
        out.status_counts == (StatusCounts { pending: 0, in_progress: 0, applied: 0, failed: 0 }),
{
    let mut out = QueueMetrics::default();
    let ghost views = logs_view(events@);
    let mut i: usize = 0;
    while i < events.len()
        invariant
            i <= events.len(),
            views == logs_view(events@),
            out.tally() == Tally::of(views, since as int, i as nat),
            out.window_seconds == 60,
            out.timestamp == 0,
            out.status_counts == (StatusCounts {
                pending: 0,
                in_progress: 0,
                applied: 0,
                failed: 0,
            }),
        decreases events.len() - i,
    {
        let event = &events[i];
        proof {
            assert(views[i as int] == event@);
            lemma_tally_within(views, since as int, i as nat);
            lemma_tally_within(views, since as int, (i + 1) as nat);
            assert(i * u64::MAX + u64::MAX <= usize::MAX * u64::MAX) by (nonlinear_arith)
                requires
                    i < usize::MAX,
            ;
            assert(usize::MAX * u64::MAX <= u64::MAX * u64::MAX) by (nonlinear_arith);
            assert(u64::MAX * u64::MAX < u128::MAX) by (nonlinear_arith);
        }
        if event.created_at >= since {
            if text_eq(event.message.as_str(), "dequeue_metrics") {
                let latency = read_measure(&event.details, "dequeue_latency_ms");
                let poll = read_measure(&event.details, "poll_interval_ms");
                match latency {
                    Some(l) => {
                        out.dequeue_latency_total_ms = out.dequeue_latency_total_ms + (l as u128);
                        out.dequeue_samples = out.dequeue_samples + 1;
                    },
                    None => {},
                }
                match poll {
                    Some(p) => {
                        out.poll_interval_total_ms = out.poll_interval_total_ms + (p as u128);
                        out.poll_samples = out.poll_samples + 1;
                        match latency {
                            Some(l) => {
                                if l > p {
                                    out.lease_contention_events = out.lease_contention_events + 1;
                                }
                            },
                            None => {},
                        }
                    },
                    None => {},
                }
            } else if text_eq(event.message.as_str(), "applied") {
                out.applied_count = out.applied_count + 1;
                match read_measure(&event.details, "apply_duration_ms") {
                    Some(d) => {
                        out.apply_duration_total_ms = out.apply_duration_total_ms + (d as u128);
                        out.apply_samples = out.apply_samples + 1;
                    },
                    None => {},
                }
            }
        }
        i = i + 1;
    }
    out
}

} // verus!
