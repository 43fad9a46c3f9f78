//! Request handler: turn one inbound request into one outbound response.
//!
//! The handler resolves the chain in the registry, takes the inbound body
//! (read once, bounded), drives the retry controller against the chain's
//! scheduler, and shapes the response: the upstream's reply passed through,
//! or one of the handler's own error responses.

use vstd::prelude::*;
use vstd::string::StringExecFns;

use crate::registry::LoadBalancer;
use crate::registry::chain_at;
use crate::registry::has_chain;
use crate::registry::registry_names;
use crate::retry::ForwardRequest;
use crate::retry::RequestContext;
use crate::retry::SendOutcome;
use crate::retry::retry_model;
use crate::retry::retry_with_backoff;
use crate::retry::sent_urls;

verus! {

/// Largest inbound body the handler accepts: 1 MiB.
pub const MAX_BODY: usize = 1024 * 1024;

/// Body of a response: upstream bytes passed through, or one of the
/// handler's own messages.
pub enum ResponseBody {
    Bytes(Vec<u8>),
    Text(String),
}

/// One outbound response. Every response is sent with
/// `Content-Type: application/json`.
pub struct HttpResponse {
    pub status: u16,
    pub body: ResponseBody,
}

/// The Content-Type every response carries.
pub fn content_type() -> (r: String)
    ensures
        r@ == "application/json"@,
{
    <String as StringExecFns>::from_str("application/json")
}

/// Check an inbound body length against the limit.
pub fn within_body_limit(len: usize) -> (r: bool)
    ensures
        r == (len <= MAX_BODY),
{
    len <= MAX_BODY
}

/// Reading the inbound body, as the handler sees it: the bytes, or a read
/// that failed — an unreadable stream or a body over the limit.
pub enum BodyRead {
    Complete(Vec<u8>),
    TooLargeOrFailed,
}

/// The 400 response for a request naming an unknown chain.
pub fn invalid_chain_response(chain: &String) -> (r: HttpResponse)
    ensures
        r.status == 400,
        r.body matches ResponseBody::Text(t) && t@ == "Invalid chain: "@ + chain@,
{
    let mut msg = <String as StringExecFns>::from_str("Invalid chain: ");
    msg.append(chain.as_str());
    HttpResponse { status: 400, body: ResponseBody::Text(msg) }
}

/// The 400 response for an unreadable or oversize inbound body.
pub fn body_read_failure_response() -> (r: HttpResponse)
    ensures
        r.status == 400,
        r.body matches ResponseBody::Text(t) && t@ == "Failed to read request body"@,
{
    HttpResponse {
        status: 400,
        body: ResponseBody::Text(<String as StringExecFns>::from_str("Failed to read request body")),
    }
}

/// The 503 response when the retry budget is spent without one upstream
/// reply.
pub fn no_upstream_response() -> (r: HttpResponse)
    ensures
        r.status == 503,
        r.body matches ResponseBody::Text(t) && t@ == "No available RPC URLs"@,
{
    HttpResponse {
        status: 503,
        body: ResponseBody::Text(<String as StringExecFns>::from_str("No available RPC URLs")),
    }
}

/// An upstream reply passed through unchanged: its status, its bytes.
pub fn upstream_response(status: u16, body: Vec<u8>) -> (r: HttpResponse)
    ensures
        r.status == status,
        r.body matches ResponseBody::Bytes(b) && b@ == body@,
{
    HttpResponse { status, body: ResponseBody::Bytes(body) }
}

/// One whole request against the registry, transport outcomes supplied by
/// the caller: resolve the chain, check the body, run the retry loop on the
/// chain's scheduler, shape the response. Exactly the named chain's
/// scheduler moves; a rejected request touches nothing and forwards
/// nothing.
pub fn handle_request(
    lb: &mut LoadBalancer,
    chain: &String,
    method: String,
    body: BodyRead,
    outcomes: Vec<SendOutcome>,
    max_retries: u32,
) -> (r: (HttpResponse, Vec<ForwardRequest>))
    requires
        old(lb).wf(),
    ensures
        final(lb).wf(),
        !has_chain(old(lb).load_balancers@, chain@) ==> {
            &&& r.0.status == 400
            &&& r.0.body matches ResponseBody::Text(t) && t@ == "Invalid chain: "@ + chain@
            &&& *final(lb) == *old(lb)
            &&& r.1@.len() == 0
        },
        has_chain(old(lb).load_balancers@, chain@) && body is TooLargeOrFailed ==> {
            &&& r.0.status == 400
            &&& r.0.body matches ResponseBody::Text(t) && t@ == "Failed to read request body"@
            &&& *final(lb) == *old(lb)
            &&& r.1@.len() == 0
        },
        match body {
            BodyRead::TooLargeOrFailed => true,
            BodyRead::Complete(bytes) => has_chain(old(lb).load_balancers@, chain@) ==> ({
            let j = chain_at(old(lb).load_balancers@, chain@);
            let run = retry_model(
                old(lb).load_balancers@[j].1.sched(),
                outcomes@,
                max_retries as nat,
            );
            &&& final(lb).load_balancers@.len() == old(lb).load_balancers@.len()
            &&& forall|k: int|
                0 <= k < old(lb).load_balancers@.len() && k != j ==> final(lb).load_balancers@[k]
                    == old(lb).load_balancers@[k]
            &&& final(lb).load_balancers@[j].0 == old(lb).load_balancers@[j].0
            &&& final(lb).load_balancers@[j].1.sched() == run.sched
            &&& match run.reply {
                Some((status, reply_body)) => {
                    &&& r.0.status == status
                    &&& r.0.body matches ResponseBody::Bytes(b) && b@ == reply_body
                },
                None => {
                    &&& r.0.status == 503
                    &&& r.0.body matches ResponseBody::Text(t) && t@ == "No available RPC URLs"@
                },
            }
            &&& sent_urls(r.1@) == run.sent
            &&& forall|t: int|
                0 <= t < r.1@.len() ==> {
                    &&& (#[trigger] r.1@[t]).body@ == bytes@
                    &&& r.1@[t].method@ == method@
                }
        }),
        },
{
    let idx_opt = lb.get_index(chain);
    let j = match idx_opt {
        None => {
            proof {
                assert(!has_chain(lb.load_balancers@, chain@));
            }
            return (invalid_chain_response(chain), Vec::new());
        },
        Some(j) => j,
    };
    proof {
        assert(has_chain(lb.load_balancers@, chain@));
        assert(chain_at(lb.load_balancers@, chain@) == j as int) by {
            let w = chain_at(lb.load_balancers@, chain@);
            assert(registry_names(lb.load_balancers@)[w] == lb.load_balancers@[w].0@);
            assert(registry_names(lb.load_balancers@)[j as int] == lb.load_balancers@[j as int].0@);
        }
    }
    let bytes = match body {
        BodyRead::TooLargeOrFailed => {
            return (body_read_failure_response(), Vec::new());
        },
        BodyRead::Complete(bytes) => bytes,
    };
    let ghost entries0 = lb.load_balancers@;
    let ctx = RequestContext { method, body_bytes: bytes };
    let entry = &mut lb.load_balancers[j];
    let (reply, sent) = retry_with_backoff(&mut entry.1, &ctx, outcomes, max_retries);
    proof {
        assert(lb.load_balancers@[j as int].0 == entries0[j as int].0);
        assert(registry_names(lb.load_balancers@) =~= registry_names(entries0));
    }
    match reply {
        Some((status, reply_body)) => (upstream_response(status, reply_body), sent),
        None => (no_upstream_response(), sent),
    }
}

} // verus!

