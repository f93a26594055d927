//! Bot-level state and the small computations behind its status reports.
use vstd::prelude::*;
use vstd::string::StringExecFns;
use std::sync::atomic::{AtomicBool, Ordering};
use crate::transcode::{decimal, decimal_string};

verus! {

#[verifier::external_type_specification]
#[verifier::external_body]
pub struct ExSystemTime(std::time::SystemTime);

/// Key under which the gateway's shard manager is shared.
pub struct ShardManagerWrapper;

/// State of the gateway event handler.
pub struct Handler {
    /// Set once the periodic status loop has been started.
    pub is_loop_running: AtomicBool,
    /// When the process started.
    pub start_time: std::time::SystemTime,
}

impl Handler {
    /// A handler whose status loop has not started yet.
    pub fn new(start_time: std::time::SystemTime) -> (r: Self)
        ensures
            r.start_time == start_time,
    {
        Handler { is_loop_running: AtomicBool::new(false), start_time }
    }

    /// Marks the status loop as running; `true` only for the one caller that
    /// found it not running yet and so must start it.
    pub fn claim_stats_loop(&self) -> (r: bool) {
        !self.is_loop_running.swap(true, Ordering::Relaxed)
    }
}

/// The activity line shown for the bot named `name`.
pub open spec fn activity_spec(name: Seq<char>) -> Seq<char> {
    "@"@ + name + " help"@
}

/// The activity line shown for the bot named `name`.
pub fn activity_text(name: &str) -> (r: String)
    ensures
        r@ == activity_spec(name@),
{
    let mut s = "@".to_owned();
    s.append(name);
    s.append(" help");
    proof {
        reveal_strlit("@");
        reveal_strlit(" help");
    }
    s
}

/// How many shards report a latency.
pub open spec fn reporting(l: Seq<Option<u64>>) -> nat
    decreases l.len(),
{
    if l.len() == 0 {
        0
    } else {
        reporting(l.drop_last()) + if l.last() is Some {
            1nat
        } else {
            0nat
        }
    }
}

/// The sum of the latencies that shards report.
pub open spec fn latency_sum(l: Seq<Option<u64>>) -> nat
    decreases l.len(),
{
    if l.len() == 0 {
        0
    } else {
        latency_sum(l.drop_last()) + match l.last() {
            Some(v) => v as nat,
            None => 0nat,
        }
    }
}

/// A prefix reports no more than the whole.
proof fn lemma_reporting_prefix(l: Seq<Option<u64>>, i: int)
    requires
        0 <= i <= l.len(),
    ensures
        reporting(l.subrange(0, i)) <= reporting(l),
    decreases l.len(),
{
    if i < l.len() {
        assert(l.drop_last().subrange(0, i) =~= l.subrange(0, i));
        lemma_reporting_prefix(l.drop_last(), i);
    } else {
        assert(l.subrange(0, i) =~= l);
    }
}

/// The average latency, in milliseconds, of the shards that report one (0 when
/// none does), and how many do.
pub fn get_avg_ws_latency(latencies: &[Option<u64>]) -> (r: (u128, u8))
    requires
        reporting(latencies@) <= 255,
    ensures
        r.1 as nat == reporting(latencies@),
        r.0 as nat == if reporting(latencies@) == 0 {
            0
        } else {
            latency_sum(latencies@) / reporting(latencies@)
        },
{
    let mut total: u8 = 0;
    let mut sum: u128 = 0;
    let mut i: usize = 0;
    while i < latencies.len()
        invariant
            i <= latencies@.len(),
            reporting(latencies@) <= 255,
            total as nat == reporting(latencies@.subrange(0, i as int)),
            sum as nat == latency_sum(latencies@.subrange(0, i as int)),
            total <= i,
            sum <= i * 0xffff_ffff_ffff_ffffu128,
        decreases latencies@.len() - i,
    {
        proof {
            let next = latencies@.subrange(0, i + 1);
            assert(next.drop_last() =~= latencies@.subrange(0, i as int));
            lemma_reporting_prefix(latencies@, i + 1);
            assert((i + 1) * 0xffff_ffff_ffff_ffffu128 <= u128::MAX) by (nonlinear_arith)
                requires
                    i < 0x1_0000_0000_0000_0000int,
            ;
        }
        match latencies[i] {
            Some(l) => {
                total = total + 1;
                sum = sum + l as u128;
            },
            None => {},
        }
        i = i + 1;
    }
    assert(latencies@.subrange(0, latencies@.len() as int) =~= latencies@);
    if total == 0 {
        (0, 0)
    } else {
        (sum / (total as u128), total)
    }
}

/// The average latency as shown in a status report.
pub open spec fn latency_text_spec(ms: u128) -> Seq<char> {
    if ms == 0 {
        "NaN"@
    } else {
        decimal(ms as nat)
    }
}

/// The average latency as shown in a status report: `NaN` when no shard reported.
pub fn latency_text(ms: u128) -> (r: String)
    ensures
        r@ == latency_text_spec(ms),
{
    if ms == 0 {
        proof {
            reveal_strlit("NaN");
        }
        "NaN".to_owned()
    } else {
        decimal_string(ms)
    }
}

} // verus!
