use vstd::prelude::*;

use crate::errors::{AppError, AppErrorV};
use crate::status::spec_status_error;

verus! {

/// Fixed retry configuration: at most three attempts, first backoff delay
/// of one time unit, doubled before each further retry.
pub const MAX_ATTEMPTS: u8 = 3;

/// A transport response reduced to what the engine reads from it:
/// the status code and the body text.
#[derive(Debug, Clone)]
pub struct HttpResponse {
    pub status: u16,
    pub body: String,
}

pub ghost struct HttpResponseV {
    pub status: u16,
    pub body: Seq<char>,
}

impl View for HttpResponse {
    type V = HttpResponseV;

    open spec fn view(&self) -> HttpResponseV {
        HttpResponseV { status: self.status, body: self.body@ }
    }
}

/// What one transport attempt came back with: a response, or a transport
/// failure. `retryable` marks connect/timeout conditions; `network_related`
/// marks the failures that surface as a network error rather than an
/// unclassified one.
#[derive(Debug, Clone)]
pub enum AttemptResult {
    Got(HttpResponse),
    TransportFailed { retryable: bool, network_related: bool, detail: String },
}

pub ghost enum AttemptResultV {
    Got(HttpResponseV),
    TransportFailed { retryable: bool, network_related: bool, detail: Seq<char> },
}

impl View for AttemptResult {
    type V = AttemptResultV;

    open spec fn view(&self) -> AttemptResultV {
        match self {
            AttemptResult::Got(r) => AttemptResultV::Got(r@),
            AttemptResult::TransportFailed { retryable, network_related, detail } => {
                AttemptResultV::TransportFailed {
                    retryable: *retryable,
                    network_related: *network_related,
                    detail: detail@,
                }
            },
        }
    }
}

/// Where a retry sequence stands: the number of the attempt about to be
/// made (1-based) and the delay to sleep before the next retry.
#[derive(Debug, Clone, Copy, PartialEq, Eq, Structural)]
pub struct RetryState {
    pub attempt: u8,
    pub wait: u64,
}

/// What to do after one attempt: sleep and try again, or stop with the
/// terminal result.
#[derive(Debug)]
pub enum RetryStep {
    Sleep { delay: u64, next: RetryState },
    Finish(Result<HttpResponse, AppError>),
}

pub ghost enum RetryStepV {
    Sleep { delay: u64, next: RetryState },
    Finish(Result<HttpResponseV, AppErrorV>),
}

impl View for RetryStep {
    type V = RetryStepV;

    open spec fn view(&self) -> RetryStepV {
        match self {
            RetryStep::Sleep { delay, next } => RetryStepV::Sleep { delay: *delay, next: *next },
            RetryStep::Finish(r) => RetryStepV::Finish(
                match r {
                    Ok(resp) => Ok(resp@),
                    Err(e) => Err(e@),
                },
            ),
        }
    }
}

/// The error a terminal transport failure surfaces as.
pub open spec fn spec_transport_error(network_related: bool, detail: Seq<char>) -> AppErrorV {
    if network_related {
        AppErrorV::Network(detail)
    } else {
        AppErrorV::Unknown(detail)
    }
}

/// The state a retry sequence starts in.
pub open spec fn spec_retry_start() -> RetryState {
    RetryState { attempt: 1, wait: 1 }
}

/// One transition of the retry policy. A rate-limited response or a
/// retryable transport failure is retried, with the current backoff
/// delay, while attempts remain; every other attempt result is terminal
/// and is classified exactly once.
pub open spec fn spec_retry_step(st: RetryState, ev: AttemptResultV) -> RetryStepV {
    match ev {
        AttemptResultV::Got(resp) => {
            if resp.status == 429 && st.attempt < MAX_ATTEMPTS {
                RetryStepV::Sleep {
                    delay: st.wait,
                    next: RetryState {
                        attempt: (st.attempt + 1) as u8,
                        wait: (st.wait * 2) as u64,
                    },
                }
            } else if resp.status == 200 {
                RetryStepV::Finish(Ok(resp))
            } else {
                RetryStepV::Finish(Err(spec_status_error(resp.status)))
            }
        },
        AttemptResultV::TransportFailed { retryable, network_related, detail } => {
            if retryable && st.attempt < MAX_ATTEMPTS {
                RetryStepV::Sleep {
                    delay: st.wait,
                    next: RetryState {
                        attempt: (st.attempt + 1) as u8,
                        wait: (st.wait * 2) as u64,
                    },
                }
            } else {
                RetryStepV::Finish(Err(spec_transport_error(network_related, detail)))
            }
        },
    }
}

/// The state a retry sequence starts in: attempt 1, backoff delay 1.
pub fn retry_start() -> (st: RetryState)
    ensures
        st == spec_retry_start(),
{
    RetryState { attempt: 1, wait: 1 }
}

/// Decide what follows one attempt. The caller performs the sleep and the
/// next attempt; this function only decides.
pub fn retry_step(st: RetryState, ev: AttemptResult) -> (r: RetryStep)
    requires
        st.wait <= u64::MAX / 2,
    ensures
        r@ == spec_retry_step(st, ev@),
{
    match ev {
        AttemptResult::Got(resp) => {
            if resp.status == 429 && st.attempt < MAX_ATTEMPTS {
                RetryStep::Sleep {
                    delay: st.wait,
                    next: RetryState { attempt: st.attempt + 1, wait: st.wait * 2 },
                }
            } else if resp.status == 200 {
                RetryStep::Finish(Ok(resp))
            } else {
                match crate::status::map_status_code(resp.status) {
                    Ok(_) => RetryStep::Finish(Ok(resp)),
                    Err(e) => RetryStep::Finish(Err(e)),
                }
            }
        },
        AttemptResult::TransportFailed { retryable, network_related, detail } => {
            if retryable && st.attempt < MAX_ATTEMPTS {
                RetryStep::Sleep {
                    delay: st.wait,
                    next: RetryState { attempt: st.attempt + 1, wait: st.wait * 2 },
                }
            } else if network_related {
                RetryStep::Finish(Err(AppError::Network(detail)))
            } else {
                RetryStep::Finish(Err(AppError::Unknown(detail)))
            }
        },
    }
}

pub open spec fn events_view(s: Seq<AttemptResult>) -> Seq<AttemptResultV> {
    s.map_values(|e: AttemptResult| e@)
}

/// Fold of the retry policy over a sequence of attempt results: the
/// terminal outcome, if one is reached before the attempt results run
/// out, and the backoff delays slept on the way. `None` is the exhausted
/// case that the driver turns into its defensive fallback error.
pub open spec fn spec_run_retry(events: Seq<AttemptResultV>, st: RetryState) -> (Option<
    Result<HttpResponseV, AppErrorV>,
>, Seq<u64>)
    decreases events.len(),
{
    if events.len() == 0 {
        (None, Seq::<u64>::empty())
    } else {
        match spec_retry_step(st, events[0]) {
            RetryStepV::Finish(r) => (Some(r), Seq::<u64>::empty()),
            RetryStepV::Sleep { delay, next } => {
                let (r, ds) = spec_run_retry(events.skip(1), next);
                (r, seq![delay] + ds)
            },
        }
    }
}

/// Starting from attempt `a`, a sequence of at least `MAX_ATTEMPTS - a + 1`
/// attempt results always reaches a terminal outcome: the defensive
/// fallback of the driver is unreachable on a full schedule.
pub proof fn lemma_retry_reaches_terminal(events: Seq<AttemptResultV>, st: RetryState)
    requires
        st.attempt + events.len() > MAX_ATTEMPTS,
        events.len() >= 1,
    ensures
        spec_run_retry(events, st).0 is Some,
    decreases events.len(),
{
    match spec_retry_step(st, events[0]) {
        RetryStepV::Finish(_) => {},
        RetryStepV::Sleep { delay, next } => {
            lemma_retry_reaches_terminal(events.skip(1), next);
        },
    }
}

spec fn pow2(n: nat) -> nat
    decreases n,
{
    if n == 0 {
        1
    } else {
        2 * pow2((n - 1) as nat)
    }
}

/// Run a whole retry sequence against recorded attempt results: feed the
/// results in order to the policy until it finishes or they run out.
/// Returns the terminal result and the delays the policy asked for, in
/// order. The actual transport performs the attempts and the sleeps; this
/// driver is the policy itself, including the defensive fallback for an
/// exhausted schedule.
#[verifier::loop_isolation(false)]
pub fn run_retry(events: Vec<AttemptResult>) -> (r: (Result<HttpResponse, AppError>, Vec<u64>))
    ensures
        ({
            let (sr, sd) = spec_run_retry(events_view(events@), spec_retry_start());
            &&& r.1@ == sd
            &&& match sr {
                Some(res) => {
                    match (r.0, res) {
                        (Ok(got), Ok(want)) => got@ == want,
                        (Err(got), Err(want)) => got@ == want,
                        _ => false,
                    }
                },
                None => r.0 matches Err(e) && e@ == AppErrorV::Unknown("retry loop exhausted"@),
            }
        }),
{
    let ghost full: Seq<AttemptResultV> = events_view(events@);
    let mut st = retry_start();
    let mut delays: Vec<u64> = Vec::new();
    let mut remaining = events;
    proof {
        assert(delays@ + spec_run_retry(full, spec_retry_start()).1 =~= spec_run_retry(
            full,
            spec_retry_start(),
        ).1);
    }
    while remaining.len() > 0
        invariant
            1 <= st.attempt <= MAX_ATTEMPTS,
            st.wait == pow2((st.attempt - 1) as nat),
            spec_run_retry(full, spec_retry_start()).0 == spec_run_retry(
                events_view(remaining@),
                st,
            ).0,
            spec_run_retry(full, spec_retry_start()).1 == delays@ + spec_run_retry(
                events_view(remaining@),
                st,
            ).1,
        decreases remaining@.len(),
    {
        proof {
            assert(st.wait <= 4) by {
                reveal_with_fuel(pow2, 4);
            }
        }
        let ghost before = remaining@;
        let ev = remaining.remove(0);
        proof {
            assert(events_view(before)[0] == ev@);
            assert(events_view(remaining@) =~= events_view(before).skip(1));
        }
        let step = retry_step(st, ev);
        match step {
            RetryStep::Finish(res) => {
                proof {
                    assert(delays@ + Seq::<u64>::empty() =~= delays@);
                }
                return (res, delays);
            },
            RetryStep::Sleep { delay, next } => {
                let ghost dprev = delays@;
                delays.push(delay);
                st = next;
                proof {
                    let (r2, ds) = spec_run_retry(events_view(remaining@), st);
                    assert(dprev + (seq![delay] + ds) =~= delays@ + ds);
                }
            },
        }
    }
    proof {
        assert(events_view(remaining@).len() == 0);
        assert(delays@ + Seq::<u64>::empty() =~= delays@);
    }
    (Err(AppError::Unknown("retry loop exhausted".to_owned())), delays)
}

} // verus!
