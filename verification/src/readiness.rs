//! How long startup waits for the selection service.
use vstd::prelude::*;

verus! {

/// How long startup waits for the service to be ready before it serves anyway,
/// in milliseconds. Every pick looks again.
pub const SELECTOR_READY_WAIT_MS: u64 = 30_000;

/// How long to sleep between two looks, in milliseconds.
pub const SELECTOR_READY_POLL_MS: u64 = 500;

/// How the wait goes on.
#[derive(Debug, Clone, Copy, PartialEq, Eq)]
pub enum ReadyWait {
    /// It is over: the service is ready.
    Ready,
    /// It is over: the service is not ready, and is not waited for any longer.
    TimedOut,
    /// Sleep this many milliseconds and look again.
    Sleep(u64),
}

/// Readiness ends the wait at any time; the bound ends it without.
pub open spec fn ready_wait(any_ready: bool, elapsed_ms: u64) -> ReadyWait {
    if any_ready {
        ReadyWait::Ready
    } else if elapsed_ms >= SELECTOR_READY_WAIT_MS {
        ReadyWait::TimedOut
    } else {
        ReadyWait::Sleep(SELECTOR_READY_POLL_MS)
    }
}

/// Decides how the wait goes on, given whether the service is ready now and how
/// many milliseconds ago the wait began.
pub fn wait_for_selector_ready(any_ready: bool, elapsed_ms: u64) -> (r: ReadyWait)
    ensures
        r == ready_wait(any_ready, elapsed_ms),
{
    if any_ready {
        ReadyWait::Ready
    } else if elapsed_ms >= SELECTOR_READY_WAIT_MS {
        ReadyWait::TimedOut
    } else {
        ReadyWait::Sleep(SELECTOR_READY_POLL_MS)
    }
}

/// Each look but the first comes after the sleep that the look before it asked
/// for.
pub open spec fn slept(looks: Seq<u64>) -> bool {
    forall|i: int|
        0 < i < looks.len() ==> looks[i - 1] + SELECTOR_READY_POLL_MS <= #[trigger] looks[i]
}

/// Startup is not held up for good: where each sleep takes the time it was asked
/// for, the wait sleeps at most as often as the bound holds the poll interval.
pub proof fn law_wait_is_bounded(looks: Seq<u64>)
    requires
        slept(looks),
        forall|i: int| 0 <= i < looks.len() ==> ready_wait(false, #[trigger] looks[i]) is Sleep,
    ensures
        looks.len() * SELECTOR_READY_POLL_MS <= SELECTOR_READY_WAIT_MS,
{
    if looks.len() > 0 {
        lemma_elapsed(looks, looks.len() - 1);
        assert(ready_wait(false, looks[looks.len() - 1]) is Sleep);
    }
}

proof fn lemma_elapsed(looks: Seq<u64>, n: int)
    requires
        slept(looks),
        0 <= n < looks.len(),
    ensures
        n * SELECTOR_READY_POLL_MS <= looks[n],
    decreases n,
{
    if n > 0 {
        lemma_elapsed(looks, n - 1);
        assert(looks[n - 1] + SELECTOR_READY_POLL_MS <= looks[n]);
    }
}

/// The wait is over as soon as the service is ready, however long it took. It is
/// given up exactly where the service is not ready and half a minute has passed;
/// until then it sleeps half a second at a time.
pub proof fn law_wait_ends_when_it_should(any_ready: bool, elapsed_ms: u64, next: ReadyWait)
    requires
        call_ensures(wait_for_selector_ready, (any_ready, elapsed_ms), next),
    ensures
        next is Ready <==> any_ready,
        next is TimedOut <==> !any_ready && elapsed_ms >= 30 * 1000,
        next matches ReadyWait::Sleep(ms) ==> 2 * ms == 1000,
{
}

} // verus!
