//! Retry controller: drive repeated forwarding attempts against the
//! scheduler until one succeeds or the retry budget is spent.
//!
//! The transport itself (sending one HTTP request and waiting for the reply)
//! happens outside this crate; here every attempt's outcome is a value, and
//! the controller's decisions — which upstream, when to rotate, how long to
//! back off, when to give up — are verified.

use vstd::prelude::*;

use crate::round_robin::RoundRobin;
use crate::round_robin::SchedState;
use crate::round_robin::pick_find;
use crate::round_robin::pick_state;
use crate::round_robin::rotate_state;

verus! {

/// Retry budget: how many attempts one inbound request may spend.
pub const MAX_RETRIES: u32 = 3;

/// Base of the exponential backoff between attempts, in milliseconds.
pub const BASE_DELAY_MS: u64 = 100;

/// Two to the power `n`.
pub open spec fn pow2(n: nat) -> nat
    decreases n,
{
    if n == 0 {
        1
    } else {
        2 * pow2((n - 1) as nat)
    }
}

proof fn lemma_pow2_monotone(a: nat, b: nat)
    requires
        a <= b,
    ensures
        pow2(a) <= pow2(b),
    decreases b,
{
    if a < b {
        lemma_pow2_monotone(a, (b - 1) as nat);
    }
}

/// Backoff to wait after failed attempt number `attempt` (counted from 0):
/// the base delay doubled `attempt + 1` times.
pub fn backoff_delay_ms(attempt: u32) -> (r: u64)
    requires
        attempt < 32,
    ensures
        r == BASE_DELAY_MS * pow2((attempt + 1) as nat),
{
    let mut d: u64 = BASE_DELAY_MS;
    let mut i: u32 = 0;
    while i <= attempt
        invariant
            attempt < 32,
            i <= attempt + 1,
            d == BASE_DELAY_MS * pow2(i as nat),
        decreases attempt + 1 - i,
    {
        proof {
            lemma_pow2_monotone((i + 1) as nat, 33nat);
            assert(pow2(33) == 0x2_0000_0000) by {
                reveal_with_fuel(pow2, 34);
            }
            assert(2 * (BASE_DELAY_MS * pow2(i as nat)) == BASE_DELAY_MS * pow2(
                (i + 1) as nat,
            )) by (nonlinear_arith)
                requires
                    pow2((i + 1) as nat) == 2 * pow2(i as nat),
            ;
            assert(BASE_DELAY_MS * pow2((i + 1) as nat) <= BASE_DELAY_MS * pow2(
                33nat,
            )) by (nonlinear_arith)
                requires
                    pow2((i + 1) as nat) <= pow2(33nat),
            ;
        }
        d = d * 2;
        i = i + 1;
    }
    d
}

/// A reply counts as a success exactly when its status is in the 2xx range.
pub open spec fn is_success(status: u16) -> bool {
    200 <= status < 300
}

/// Classify an upstream status: 2xx is success, anything else a failure.
pub fn is_success_status(status: u16) -> (r: bool)
    ensures
        r == is_success(status),
{
    200 <= status && status < 300
}

/// What the handler captures from the inbound request — once — and reuses
/// for every retry attempt.
pub struct RequestContext {
    /// The inbound HTTP method, copied verbatim.
    pub method: String,
    /// The inbound body, read once and bounded by the body limit.
    pub body_bytes: Vec<u8>,
}

/// One outbound request, ready for the transport: the chosen upstream URL
/// taken verbatim, the inbound method, and the captured body.
pub struct ForwardRequest {
    pub url: String,
    pub method: String,
    pub body: Vec<u8>,
}

impl RequestContext {
    /// Build the outbound request for one attempt against `url`. Whatever
    /// the attempt number, the body handed out is the captured body,
    /// byte for byte.
    pub fn forward_request(&self, url: &String) -> (r: ForwardRequest)
        ensures
            r.url@ == url@,
            r.method@ == self.method@,
            r.body@ == self.body_bytes@,
    {
        let body = self.body_bytes.clone();
        proof {
            assert(body@ =~= self.body_bytes@);
        }
        ForwardRequest { url: url.clone(), method: self.method.clone(), body }
    }
}

/// The transport's verdict on one forwarded attempt.
pub enum SendOutcome {
    /// The upstream replied, with this status and body.
    Reply { status: u16, body: Vec<u8> },
    /// Transport error: no reply arrived.
    Failed,
}

/// What the controller decides after looking at one attempt.
pub enum RetryDecision {
    /// A 2xx reply: hand it back to the client now.
    Done { status: u16, body: Vec<u8> },
    /// Failed attempt with budget left: rotate the scheduler, wait this
    /// long, then try again.
    RetryAfter { delay_ms: u64 },
    /// The final attempt failed: rotate and give up.
    GiveUp,
}

/// Decide what to do after attempt number `attempt` (counted from 0) came
/// back with `outcome`: pass a 2xx reply through unchanged; otherwise retry
/// after the exponential backoff while budget remains, and give up on the
/// final attempt.
pub fn evaluate_attempt(attempt: u32, max_retries: u32, outcome: SendOutcome) -> (d: RetryDecision)
    requires
        attempt < max_retries,
        max_retries <= 32,
    ensures
        match outcome {
            SendOutcome::Reply { status, body } => {
                if is_success(status) {
                    d == RetryDecision::Done { status, body }
                } else if attempt + 1 < max_retries {
                    d == RetryDecision::RetryAfter {
                        delay_ms: (BASE_DELAY_MS * pow2((attempt + 1) as nat)) as u64,
                    }
                } else {
                    d == RetryDecision::GiveUp
                }
            },
            SendOutcome::Failed => {
                if attempt + 1 < max_retries {
                    d == RetryDecision::RetryAfter {
                        delay_ms: (BASE_DELAY_MS * pow2((attempt + 1) as nat)) as u64,
                    }
                } else {
                    d == RetryDecision::GiveUp
                }
            },
        },
{
    match outcome {
        SendOutcome::Reply { status, body } => {
            if is_success_status(status) {
                return RetryDecision::Done { status, body };
            }
        },
        SendOutcome::Failed => {},
    }
    if attempt + 1 < max_retries {
        RetryDecision::RetryAfter { delay_ms: backoff_delay_ms(attempt) }
    } else {
        RetryDecision::GiveUp
    }
}

/// Everything one whole retry run does: the scheduler it leaves behind, the
/// reply handed back (if any), and the URLs forwarded to, in order.
#[verifier::ext_equal]
pub struct RetryRun {
    pub sched: SchedState,
    pub reply: Option<(u16, Seq<u8>)>,
    pub sent: Seq<Seq<char>>,
}

/// The retry loop as a function of the scheduler, the transcript of
/// transport outcomes (one entry per forwarded attempt), and the remaining
/// budget. Each attempt picks an upstream; a picked upstream is forwarded
/// to and its outcome consumed from the transcript; a 2xx reply ends the
/// run; any other outcome — including an empty pick and an exhausted
/// transcript — rotates the scheduler and spends one attempt.
pub open spec fn retry_model(s: SchedState, outcomes: Seq<SendOutcome>, attempts: nat) -> RetryRun
    decreases attempts,
{
    if attempts == 0 {
        RetryRun { sched: s, reply: None, sent: Seq::empty() }
    } else {
        match pick_find(s) {
            Some(j) => {
                let url = s.urls[j].url@;
                let s1 = pick_state(s);
                let oc = if outcomes.len() > 0 {
                    outcomes[0]
                } else {
                    SendOutcome::Failed
                };
                let rest = if outcomes.len() > 0 {
                    outcomes.drop_first()
                } else {
                    outcomes
                };
                match oc {
                    SendOutcome::Reply { status, body } => {
                        if is_success(status) {
                            RetryRun { sched: s1, reply: Some((status, body@)), sent: seq![url] }
                        } else {
                            let r = retry_model(rotate_state(s1), rest, (attempts - 1) as nat);
                            RetryRun { sched: r.sched, reply: r.reply, sent: seq![url] + r.sent }
                        }
                    },
                    SendOutcome::Failed => {
                        let r = retry_model(rotate_state(s1), rest, (attempts - 1) as nat);
                        RetryRun { sched: r.sched, reply: r.reply, sent: seq![url] + r.sent }
                    },
                }
            },
            None => retry_model(rotate_state(s), outcomes, (attempts - 1) as nat),
        }
    }
}

/// The URLs a list of outbound requests goes to, in order.
pub open spec fn sent_urls(sent: Seq<ForwardRequest>) -> Seq<Seq<char>> {
    sent.map_values(|f: ForwardRequest| f.url@)
}

/// Drive up to `max_retries` attempts against the scheduler: pick an
/// upstream, forward the captured context to it, and on anything but a 2xx
/// reply rotate and move on. The transcript `outcomes` stands in for the
/// transport, one entry consumed per forwarded attempt. Returns the first
/// successful reply — or `None` once the budget is spent — together with
/// every outbound request that was built. Between two attempts the caller
/// is expected to wait `backoff_delay_ms` of the attempt just failed.
pub fn retry_with_backoff(
    rr: &mut RoundRobin,
    ctx: &RequestContext,
    outcomes: Vec<SendOutcome>,
    max_retries: u32,
) -> (r: (Option<(u16, Vec<u8>)>, Vec<ForwardRequest>))
    requires
        old(rr).wf(),
    ensures
        final(rr).wf(),
        ({
            let run = retry_model(old(rr).sched(), outcomes@, max_retries as nat);
            &&& final(rr).sched() == run.sched
            &&& match r.0 {
                Some((status, body)) => run.reply == Some((status, body@)),
                None => run.reply is None,
            }
            &&& sent_urls(r.1@) == run.sent
            &&& forall|t: int|
                0 <= t < r.1@.len() ==> {
                    &&& (#[trigger] r.1@[t]).body@ == ctx.body_bytes@
                    &&& r.1@[t].method@ == ctx.method@
                }
        }),
{
    let ghost run = retry_model(rr.sched(), outcomes@, max_retries as nat);
    let mut pending = outcomes;
    let mut sent: Vec<ForwardRequest> = Vec::new();
    let mut attempt: u32 = 0;
    proof {
        assert(sent_urls(sent@) + run.sent =~= run.sent);
    }
    while attempt < max_retries
        invariant
            rr.wf(),
            attempt <= max_retries,
            run == retry_model(old(rr).sched(), outcomes@, max_retries as nat),
            run.sched == retry_model(
                rr.sched(),
                pending@,
                (max_retries - attempt) as nat,
            ).sched,
            run.reply == retry_model(rr.sched(), pending@, (max_retries - attempt) as nat).reply,
            run.sent == sent_urls(sent@) + retry_model(
                rr.sched(),
                pending@,
                (max_retries - attempt) as nat,
            ).sent,
            forall|t: int|
                0 <= t < sent@.len() ==> {
                    &&& (#[trigger] sent@[t]).body@ == ctx.body_bytes@
                    &&& sent@[t].method@ == ctx.method@
                },
        decreases max_retries - attempt,
    {
        let ghost cur = rr.sched();
        let ghost rem = pending@;
        let ghost k = (max_retries - attempt) as nat;
        let url_opt = rr.get_next();
        match url_opt {
            Some(url) => {
                let fwd = ctx.forward_request(&url);
                let ghost prev_sent = sent@;
                sent.push(fwd);
                proof {
                    assert(sent_urls(sent@) =~= sent_urls(prev_sent) + seq![url@]);
                }
                let oc = if pending.len() > 0 {
                    let first = pending.remove(0);
                    proof {
                        assert(pending@ =~= rem.drop_first());
                    }
                    first
                } else {
                    SendOutcome::Failed
                };
                match oc {
                    SendOutcome::Reply { status, body } => {
                        if is_success_status(status) {
                            proof {
                                assert(retry_model(cur, rem, k).sent =~= seq![url@]);
                                assert(run.sent =~= sent_urls(sent@));
                            }
                            return (Some((status, body)), sent);
                        }
                        rr.rotate();
                    },
                    SendOutcome::Failed => {
                        rr.rotate();
                    },
                }
                proof {
                    assert(retry_model(cur, rem, k).sent =~= seq![url@] + retry_model(
                        rr.sched(),
                        pending@,
                        (k - 1) as nat,
                    ).sent);
                    assert(run.sent =~= sent_urls(sent@) + retry_model(
                        rr.sched(),
                        pending@,
                        (k - 1) as nat,
                    ).sent);
                }
            },
            None => {
                rr.rotate();
            },
        }
        attempt = attempt + 1;
    }
    proof {
        assert(run.sent =~= sent_urls(sent@));
    }
    (None, sent)
}

/// Retry idempotence: under the transcript contract of `retry_with_backoff`
/// — every outbound request carries the captured body — the bytes forwarded
/// on any retry are byte-identical to those of any other, in particular to
/// those of the first attempt.
pub proof fn lemma_retry_body_identical(
    sent: Seq<ForwardRequest>,
    ctx: RequestContext,
    a: int,
    b: int,
)
    requires
        forall|t: int| 0 <= t < sent.len() ==> (#[trigger] sent[t]).body@ == ctx.body_bytes@,
        0 <= a < sent.len(),
        0 <= b < sent.len(),
    ensures
        sent[a].body@ == sent[b].body@,
{
}

} // verus!
