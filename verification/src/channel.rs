//! Channel numbering for the two endpoints of one connection.
//!
//! Both endpoints issue calls on the same connection. Each call travels
//! under a channel identifier that the response echoes. The identifiers are
//! split by parity: an endpoint issues `start`, `start + 2`, `start + 4`, ...
//! and its peer starts at a number of the other parity, so the two never
//! issue the same identifier. By convention the endpoint that dials starts at
//! 2 and the endpoint that accepts starts at 1.
//!
//! An inbound message in the peer's class is a request to dispatch. One in
//! the endpoint's own class is a response: it goes to the call that waits
//! for it, or is dropped where no call waits.

use vstd::prelude::*;

verus! {

/// Distance between two identifiers that the same endpoint issues.
pub const STRIDE: u32 = 2;

/// First identifier of the endpoint that dials the connection.
pub const DIALER_START: u32 = 2;

/// First identifier of the endpoint that accepts the connection.
pub const ACCEPTOR_START: u32 = 1;

/// What an endpoint does with an inbound message.
#[derive(Debug, Clone, Copy, PartialEq, Eq, Structural)]
pub enum Route {
    /// A request of the peer: hand it to the local dispatcher.
    Dispatch,
    /// The response to a call that waits: hand it to that call.
    Deliver,
    /// A response that no call waits for: drop it.
    Drop,
}

/// Mathematical value of an endpoint.
pub struct EndpointView {
    /// The first identifier of the endpoint's class.
    pub start: u32,
    /// The next identifier to issue. It lies beyond `u32::MAX` once the
    /// class is used up.
    pub next: nat,
    /// The identifiers of the calls that wait for a response, in the order
    /// in which they were issued.
    pub pending: Seq<u32>,
}

/// Whether `id` belongs to the class that starts at `start`.
pub open spec fn same_class(start: u32, id: u32) -> bool {
    id % 2 == start % 2
}

/// The `n`-th identifier, counted from 0, of the class that starts at
/// `start`.
pub open spec fn nth_id(start: u32, n: nat) -> int {
    start + STRIDE * n
}

/// Whether the endpoint has issued `id`.
pub open spec fn was_issued(v: EndpointView, id: u32) -> bool {
    same_class(v.start, id) && v.start <= id < v.next
}

/// When a value is an endpoint: the next identifier lies in the endpoint's
/// class, at or after its start and no further beyond `u32::MAX` than one
/// stride; the pending identifiers were issued and stand in ascending order,
/// so that none waits twice.
pub open spec fn endpoint_wf(v: EndpointView) -> bool {
    &&& v.start <= v.next <= u32::MAX + STRIDE
    &&& v.next % 2 == v.start % 2
    &&& forall|i: int| 0 <= i < v.pending.len() ==> was_issued(v, #[trigger] v.pending[i])
    &&& forall|i: int, j: int|
        0 <= i < j < v.pending.len() ==> #[trigger] v.pending[i] < #[trigger] v.pending[j]
}

/// What the endpoint does with an inbound message on channel `id`.
pub open spec fn route_of(v: EndpointView, id: u32) -> Route {
    if !same_class(v.start, id) {
        Route::Dispatch
    } else if v.pending.contains(id) {
        Route::Deliver
    } else {
        Route::Drop
    }
}

/// The pending identifiers without `id`.
pub open spec fn without(pending: Seq<u32>, id: u32) -> Seq<u32> {
    pending.filter(|p: u32| p != id)
}

/// The numbering state of one endpoint of a connection.
pub struct Endpoint {
    start: u32,
    next: u64,
    pending: Vec<u32>,
}

impl View for Endpoint {
    type V = EndpointView;

    closed spec fn view(&self) -> EndpointView {
        EndpointView { start: self.start, next: self.next as nat, pending: self.pending@ }
    }
}

/// Removing the element at `k` from an ascending sequence removes the
/// value that stands there and no other.
proof fn lemma_without(pending: Seq<u32>, k: int)
    requires
        0 <= k < pending.len(),
        forall|i: int, j: int|
            0 <= i < j < pending.len() ==> #[trigger] pending[i] < #[trigger] pending[j],
    ensures
        without(pending, pending[k]) == pending.remove(k),
    decreases pending.len(),
{
    reveal(Seq::filter);
    let id = pending[k];
    let rest = pending.drop_last();
    let last = pending.len() - 1;
    if k == last {
        lemma_without_absent(rest, id);
        assert(pending.remove(k) =~= rest);
    } else {
        assert(rest[k] == id);
        lemma_without(rest, k);
        assert(pending[k] < pending[last]);
        assert(pending.remove(k) =~= rest.remove(k).push(pending.last()));
    }
}

/// Removing a value that does not occur changes nothing.
proof fn lemma_without_absent(pending: Seq<u32>, id: u32)
    requires
        forall|i: int| 0 <= i < pending.len() ==> pending[i] != id,
    ensures
        without(pending, id) == pending,
    decreases pending.len(),
{
    reveal(Seq::filter);
    if pending.len() > 0 {
        lemma_without_absent(pending.drop_last(), id);
        assert(pending.drop_last().push(pending.last()) =~= pending);
    }
}

impl Endpoint {
    /// The endpoint is well-formed.
    pub open spec fn wf(&self) -> bool {
        endpoint_wf(self@)
    }

    /// An endpoint that issues `start`, `start + 2`, `start + 4`, ... No
    /// call is pending.
    pub fn with_channel_start(start: u32) -> (r: Endpoint)
        ensures
            r.wf(),
            r@ == (EndpointView { start, next: start as nat, pending: Seq::empty() }),
    {
        Endpoint { start, next: start as u64, pending: Vec::new() }
    }

    /// The endpoint that dials the connection: it issues the even
    /// identifiers from 2 on.
    pub fn dialer() -> (r: Endpoint)
        ensures
            r.wf(),
            r@ == (EndpointView {
                start: DIALER_START,
                next: DIALER_START as nat,
                pending: Seq::empty(),
            }),
    {
        Endpoint::with_channel_start(DIALER_START)
    }

    /// The endpoint that accepts the connection: it issues the odd
    /// identifiers from 1 on.
    pub fn acceptor() -> (r: Endpoint)
        ensures
            r.wf(),
            r@ == (EndpointView {
                start: ACCEPTOR_START,
                next: ACCEPTOR_START as nat,
                pending: Seq::empty(),
            }),
    {
        Endpoint::with_channel_start(ACCEPTOR_START)
    }

    /// Whether `id` lies in this endpoint's own class.
    pub fn is_own(&self, id: u32) -> (b: bool)
        ensures
            b == same_class(self@.start, id),
    {
        id % 2 == self.start % 2
    }

    /// Number of calls that wait for a response.
    pub fn pending_len(&self) -> (n: usize)
        ensures
            n == self@.pending.len(),
    {
        self.pending.len()
    }

    /// Whether a call waits on channel `id`.
    pub fn is_pending(&self, id: u32) -> (b: bool)
        ensures
            b == self@.pending.contains(id),
    {
        self.position(id).is_some()
    }

    /// The position of `id` among the pending identifiers.
    fn position(&self, id: u32) -> (r: Option<usize>)
        ensures
            match r {
                Some(k) => k < self@.pending.len() && self@.pending[k as int] == id,
                None => !self@.pending.contains(id),
            },
    {
        let mut k: usize = 0;
        while k < self.pending.len()
            invariant
                k <= self.pending@.len(),
                forall|j: int| 0 <= j < k ==> self.pending@[j] != id,
            decreases self.pending@.len() - k,
        {
            if self.pending[k] == id {
                return Some(k);
            }
            k += 1;
        }
        None
    }

    /// Starts an outbound call: issues the next unused identifier of the
    /// endpoint's class and records that a call waits on it. Returns `None`,
    /// and changes nothing, once the class is used up.
    pub fn begin_call(&mut self) -> (r: Option<u32>)
        requires
            old(self).wf(),
        ensures
            final(self).wf(),
            final(self)@.start == old(self)@.start,
            match r {
                Some(id) => {
                    &&& id == old(self)@.next
                    &&& final(self)@.next == old(self)@.next + STRIDE
                    &&& final(self)@.pending == old(self)@.pending.push(id)
                    &&& same_class(old(self)@.start, id)
                    &&& !was_issued(old(self)@, id)
                },
                None => old(self)@.next > u32::MAX && final(self)@ == old(self)@,
            },
    {
        if self.next > u32::MAX as u64 {
            return None;
        }
        let id = self.next as u32;
        self.next = self.next + STRIDE as u64;
        self.pending.push(id);
        proof {
            let v = self@;
            assert forall|i: int| 0 <= i < v.pending.len() implies was_issued(
                v,
                #[trigger] v.pending[i],
            ) by {
                if i < old(self)@.pending.len() {
                    assert(was_issued(old(self)@, old(self)@.pending[i]));
                }
            }
            assert forall|i: int, j: int| 0 <= i < j < v.pending.len() implies #[trigger] v.pending[i]
                < #[trigger] v.pending[j] by {
                assert(was_issued(old(self)@, old(self)@.pending[i]));
            }
        }
        Some(id)
    }

    /// Routes an inbound message on channel `id`. A response that is
    /// delivered ends the wait of its call; nothing else changes.
    pub fn on_inbound(&mut self, id: u32) -> (r: Route)
        requires
            old(self).wf(),
        ensures
            final(self).wf(),
            r == route_of(old(self)@, id),
            final(self)@.start == old(self)@.start,
            final(self)@.next == old(self)@.next,
            final(self)@.pending == without(old(self)@.pending, id),
            r != Route::Deliver ==> final(self)@ == old(self)@,
            !final(self)@.pending.contains(id),
    {
        if id % 2 != self.start % 2 {
            proof {
                assert forall|i: int| 0 <= i < self@.pending.len() implies self@.pending[i]
                    != id by {
                    assert(was_issued(self@, self@.pending[i]));
                }
                lemma_without_absent(self@.pending, id);
            }
            return Route::Dispatch;
        }
        match self.position(id) {
            Some(k) => {
                proof {
                    lemma_without(self@.pending, k as int);
                }
                self.pending.remove(k);
                proof {
                    let before = old(self)@;
                    let v = self@;
                    assert forall|i: int| 0 <= i < v.pending.len() implies #[trigger] v.pending[i]
                        == before.pending[if i < k { i } else { i + 1 }] by {}
                    assert forall|i: int| 0 <= i < v.pending.len() implies was_issued(
                        v,
                        #[trigger] v.pending[i],
                    ) by {
                        let s = if i < k { i } else { i + 1 };
                        assert(was_issued(before, before.pending[s]));
                    }
                    assert forall|i: int, j: int|
                        0 <= i < j < v.pending.len() implies #[trigger] v.pending[i]
                        < #[trigger] v.pending[j] by {
                        let si = if i < k { i } else { i + 1 };
                        let sj = if j < k { j } else { j + 1 };
                        assert(before.pending[si] < before.pending[sj]);
                    }
                    assert forall|i: int| 0 <= i < v.pending.len() implies v.pending[i] != id by {
                        let s = if i < k { i } else { i + 1 };
                        if s < k {
                            assert(before.pending[s] < before.pending[k as int]);
                        } else {
                            assert(before.pending[k as int] < before.pending[s]);
                        }
                    }
                }
                Route::Deliver
            },
            None => {
                proof {
                    lemma_without_absent(self@.pending, id);
                }
                Route::Drop
            },
        }
    }

    /// Closes the connection: returns the identifiers of all calls that
    /// still wait, each of which is to fail as closed, and leaves none
    /// pending.
    pub fn on_close(&mut self) -> (r: Vec<u32>)
        requires
            old(self).wf(),
        ensures
            final(self).wf(),
            r@ == old(self)@.pending,
            final(self)@.pending.len() == 0,
            final(self)@.start == old(self)@.start,
            final(self)@.next == old(self)@.next,
    {
        let mut released: Vec<u32> = Vec::new();
        std::mem::swap(&mut released, &mut self.pending);
        released
    }
}

/// Two endpoints whose starts differ in parity never issue the same
/// identifier, and one endpoint never issues an identifier twice.
pub proof fn endpoints_never_collide(a: u32, b: u32, n: nat, m: nat)
    requires
        a % 2 != b % 2,
    ensures
        nth_id(a, n) != nth_id(b, m),
        n != m ==> nth_id(a, n) != nth_id(a, m),
        nth_id(a, n) % 2 == a % 2,
{
    assert((a + 2 * n) % 2 == a % 2) by (nonlinear_arith);
    assert((b + 2 * m) % 2 == b % 2) by (nonlinear_arith);
}

/// Between two endpoints whose starts differ in parity, what one has
/// issued is a request to the other, and an endpoint's own identifier is
/// never one: it is delivered while its call waits and dropped afterwards.
pub proof fn routing_separates_classes(local: EndpointView, peer: EndpointView, id: u32)
    requires
        endpoint_wf(local),
        endpoint_wf(peer),
        local.start % 2 != peer.start % 2,
    ensures
        was_issued(peer, id) ==> route_of(local, id) == Route::Dispatch,
        was_issued(local, id) ==> route_of(local, id) != Route::Dispatch,
        local.pending.contains(id) ==> route_of(local, id) == Route::Deliver,
        route_of(local, id) == Route::Deliver ==> was_issued(local, id),
{
    if local.pending.contains(id) {
        let i = choose|i: int| 0 <= i < local.pending.len() && local.pending[i] == id;
        assert(was_issued(local, local.pending[i]));
    }
}

} // verus!
