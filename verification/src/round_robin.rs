//! Round-robin scheduler over the upstream endpoints of one chain.
//!
//! The scheduler owns an ordered list of upstreams, each with a per-window
//! token budget, and a cursor. `get_next` hands out the URL of the first
//! upstream with a token left, probing cyclically from the cursor; `rotate`
//! skips the current upstream; `refill_limits` restores every budget.

use vstd::prelude::*;

verus! {

/// One upstream RPC endpoint together with its per-window token budget.
pub struct RpcServer {
    /// Absolute URL of the endpoint.
    pub url: String,
    /// Tokens still available in the current window.
    pub current_limit: u32,
    /// Per-window quota; `refill` resets `current_limit` to this value.
    pub request_limit: u32,
}

impl RpcServer {
    /// Token-budget invariant: the remaining tokens never exceed the quota.
    pub open spec fn wf(self) -> bool {
        self.current_limit <= self.request_limit
    }
}

/// The position after `i` when walking a ring of `len` slots.
pub open spec fn next_idx(i: int, len: int) -> int {
    if i + 1 >= len {
        0
    } else {
        i + 1
    }
}

/// Position of the first upstream holding a token, probing at most `probes`
/// slots cyclically from `start`; `None` when every probed slot is drained.
pub open spec fn find_from(s: Seq<RpcServer>, start: int, probes: nat) -> Option<int>
    decreases probes,
{
    if probes == 0 {
        None
    } else if s[start].current_limit > 0 {
        Some(start)
    } else {
        find_from(s, next_idx(start, s.len() as int), (probes - 1) as nat)
    }
}

/// The slot reached from `start` after `d` single steps around a ring of
/// `len` slots.
pub open spec fn idx_add(start: int, d: nat, len: int) -> int
    decreases d,
{
    if d == 0 {
        start
    } else {
        next_idx(idx_add(start, (d - 1) as nat, len), len)
    }
}

/// Round-robin scheduler for one chain.
pub struct RoundRobin {
    /// The chain's upstreams, in configuration order.
    pub urls: Vec<RpcServer>,
    /// Cursor: the slot the next probe starts from.
    pub index: usize,
}

/// Ghost snapshot of a scheduler: the upstream list and the cursor.
#[verifier::ext_equal]
pub struct SchedState {
    pub urls: Seq<RpcServer>,
    pub cursor: int,
}

/// Well-formedness of a scheduler snapshot.
pub open spec fn state_wf(s: SchedState) -> bool {
    &&& s.urls.len() > 0
    &&& 0 <= s.cursor < s.urls.len()
    &&& forall|i: int| 0 <= i < s.urls.len() ==> (#[trigger] s.urls[i]).wf()
}

/// The slot `get_next` takes a token from, if any.
pub open spec fn pick_find(s: SchedState) -> Option<int> {
    find_from(s.urls, s.cursor, s.urls.len() as nat)
}

/// `s.urls` with one token consumed at slot `j`.
pub open spec fn consume_at(urls: Seq<RpcServer>, j: int) -> Seq<RpcServer> {
    urls.update(
        j,
        RpcServer {
            url: urls[j].url,
            current_limit: (urls[j].current_limit - 1) as u32,
            request_limit: urls[j].request_limit,
        },
    )
}

/// Scheduler snapshot after one `get_next` call.
pub open spec fn pick_state(s: SchedState) -> SchedState {
    match pick_find(s) {
        Some(j) => SchedState { urls: consume_at(s.urls, j), cursor: j },
        None => s,
    }
}

/// Scheduler snapshot after one `rotate` call.
pub open spec fn rotate_state(s: SchedState) -> SchedState {
    SchedState { urls: s.urls, cursor: next_idx(s.cursor, s.urls.len() as int) }
}

impl RoundRobin {
    /// The ghost snapshot of this scheduler.
    pub open spec fn sched(self) -> SchedState {
        SchedState { urls: self.urls@, cursor: self.index as int }
    }

    /// Scheduler invariant: at least one upstream, cursor in range, and
    /// every upstream within its quota.
    pub open spec fn wf(self) -> bool {
        state_wf(self.sched())
    }

    /// Build a scheduler over `urls`, cursor at the first slot.
    pub fn new(urls: Vec<RpcServer>) -> (r: Self)
        requires
            urls@.len() > 0,
            forall|i: int| 0 <= i < urls@.len() ==> (#[trigger] urls@[i]).wf(),
        ensures
            r.wf(),
            r.urls@ == urls@,
            r.index == 0,
    {
        Self { urls, index: 0 }
    }

    /// Hand out the URL of the first upstream with a token left, probing
    /// cyclically from the cursor, and consume one of its tokens. The cursor
    /// ends on the chosen slot, so later calls keep draining the same
    /// upstream. Returns `None`, leaving the scheduler unchanged, exactly
    /// when every upstream is drained.
    pub fn get_next(&mut self) -> (r: Option<String>)
        requires
            old(self).wf(),
        ensures
            final(self).wf(),
            final(self).sched() == pick_state(old(self).sched()),
            match pick_find(old(self).sched()) {
                Some(j) => {
                    &&& r matches Some(u) && u@ == old(self).urls@[j].url@
                    &&& old(self).urls@[j].current_limit > 0
                },
                None => {
                    &&& r is None
                    &&& forall|i: int|
                        0 <= i < old(self).urls@.len() ==> old(
                            self,
                        ).urls@[i].current_limit == 0
                },
            },
    {
        let ghost s0 = self.sched();
        let len = self.urls.len();
        let mut probes: usize = 0;
        while probes < len
            invariant
                s0 == old(self).sched(),
                state_wf(s0),
                self.urls@ == s0.urls,
                len == s0.urls.len(),
                probes <= len,
                self.index < len,
                self.index as int == (if s0.cursor + probes < len {
                    s0.cursor + probes as int
                } else {
                    s0.cursor + probes - len
                }),
                pick_find(s0) == find_from(s0.urls, self.index as int, (len - probes) as nat),
            decreases len - probes,
        {
            let i = self.index;
            let cur = self.urls[i].current_limit;
            if cur > 0 {
                let url = self.urls[i].url.clone();
                let chosen = &mut self.urls[i];
                chosen.current_limit = cur - 1;
                proof {
                    assert(pick_find(s0) == Some(i as int));
                    assert(self.urls@ =~= consume_at(s0.urls, i as int));
                    assert(self.sched() =~= pick_state(s0));
                }
                return Some(url);
            }
            proof {
                assert(find_from(s0.urls, self.index as int, (len - probes) as nat)
                    == find_from(
                    s0.urls,
                    next_idx(self.index as int, len as int),
                    (len - probes - 1) as nat,
                ));
            }
            self.index = if i + 1 >= len {
                0
            } else {
                i + 1
            };
            probes = probes + 1;
        }
        proof {
            assert(pick_find(s0) is None);
            lemma_exhausted_all_zero(s0);
            assert(self.index as int == s0.cursor);
            assert(self.sched() =~= pick_state(s0));
        }
        None
    }

    /// Advance the cursor one slot, consuming no token. The retry loop calls
    /// this after a failed attempt so the next probe starts elsewhere.
    pub fn rotate(&mut self)
        requires
            old(self).wf(),
        ensures
            final(self).wf(),
            final(self).sched() == rotate_state(old(self).sched()),
            final(self).urls@ == old(self).urls@,
            final(self).index as int == next_idx(
                old(self).index as int,
                old(self).urls@.len() as int,
            ),
    {
        let len = self.urls.len();
        self.index = if self.index + 1 >= len {
            0
        } else {
            self.index + 1
        };
    }

    /// Restore every upstream's token budget to its configured quota.
    pub fn refill_limits(&mut self)
        requires
            old(self).wf(),
        ensures
            final(self).wf(),
            final(self).index == old(self).index,
            final(self).urls@.len() == old(self).urls@.len(),
            forall|i: int|
                0 <= i < old(self).urls@.len() ==> {
                    &&& (#[trigger] final(self).urls@[i]).url == old(self).urls@[i].url
                    &&& final(self).urls@[i].request_limit == old(self).urls@[i].request_limit
                    &&& final(self).urls@[i].current_limit == old(self).urls@[i].request_limit
                },
    {
        let len = self.urls.len();
        let mut i: usize = 0;
        while i < len
            invariant
                len == self.urls@.len(),
                self.index == old(self).index,
                i <= len,
                old(self).wf(),
                forall|k: int|
                    0 <= k < i ==> {
                        &&& (#[trigger] self.urls@[k]).url == old(self).urls@[k].url
                        &&& self.urls@[k].request_limit == old(self).urls@[k].request_limit
                        &&& self.urls@[k].current_limit == old(self).urls@[k].request_limit
                    },
                forall|k: int| i <= k < len ==> self.urls@[k] == old(self).urls@[k],
            decreases len - i,
        {
            let quota = self.urls[i].request_limit;
            let server = &mut self.urls[i];
            server.current_limit = quota;
            i = i + 1;
        }
    }

    /// Skip the current upstream, then pick: advance the cursor one slot and
    /// run `get_next` from there.
    pub fn retry_connection(&mut self) -> (r: Option<String>)
        requires
            old(self).wf(),
        ensures
            final(self).wf(),
            final(self).sched() == pick_state(rotate_state(old(self).sched())),
            match pick_find(rotate_state(old(self).sched())) {
                Some(j) => {
                    &&& r matches Some(u) && u@ == old(self).urls@[j].url@
                    &&& old(self).urls@[j].current_limit > 0
                },
                None => {
                    &&& r is None
                    &&& forall|i: int|
                        0 <= i < old(self).urls@.len() ==> old(
                            self,
                        ).urls@[i].current_limit == 0
                },
            },
    {
        self.rotate();
        self.get_next()
    }
}

/// A scheduler in which `get_next` finds no token holds no token anywhere:
/// probing `len` slots from the cursor visits every upstream.
pub proof fn lemma_exhausted_all_zero(s: SchedState)
    requires
        state_wf(s),
        pick_find(s) is None,
    ensures
        forall|i: int| 0 <= i < s.urls.len() ==> s.urls[i].current_limit == 0,
{
    assert forall|i: int| 0 <= i < s.urls.len() implies s.urls[i].current_limit == 0 by {
        lemma_exhausted_rec(s.urls, s.cursor, s.urls.len() as nat, i);
    }
}

/// Any slot within the first `p` probes from `c` is drained when `find_from`
/// comes back empty.
proof fn lemma_exhausted_rec(s: Seq<RpcServer>, c: int, p: nat, i: int)
    requires
        s.len() > 0,
        0 <= c < s.len(),
        p <= s.len(),
        find_from(s, c, p) is None,
        0 <= i < s.len(),
        (if i >= c {
            i - c
        } else {
            i + s.len() - c
        }) < p,
    ensures
        s[i].current_limit == 0,
    decreases p,
{
    let len = s.len() as int;
    let d = if i >= c {
        i - c
    } else {
        i + len - c
    };
    if d == 0 {
        assert(i == c);
    } else {
        lemma_exhausted_rec(s, next_idx(c, len), (p - 1) as nat, i);
    }
}

} // verus!
