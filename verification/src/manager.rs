//! The sensor connection manager's state: a FIFO queue of addresses
//! awaiting a connection attempt, the set of currently connected
//! addresses, and the at-most-one connection attempt in flight. Every
//! operation preserves the invariant that an address is in at most one
//! of {queued, connecting, connected}.

use std::collections::VecDeque;

use vstd::prelude::*;

use crate::address::SensorAddress;

verus! {

/// Whether a sequence of addresses holds no duplicates.
pub open spec fn nodup(s: Seq<SensorAddress>) -> bool {
    forall|i: int, j: int| 0 <= i < j < s.len() ==> s[i] != s[j]
}

/// What pushing at the back does to membership and to duplicate-freedom.
proof fn lemma_push_facts(s: Seq<SensorAddress>, x: SensorAddress)
    ensures
        forall|y: SensorAddress| #[trigger] s.push(x).contains(y) <==> (s.contains(y) || y == x),
        nodup(s) && !s.contains(x) ==> nodup(s.push(x)),
{
    assert forall|y: SensorAddress| #[trigger] s.push(x).contains(y) implies (s.contains(y) || y
        == x) by {
        let i = choose|i: int| 0 <= i < s.push(x).len() && s.push(x)[i] == y;
        if i < s.len() {
            assert(s[i] == y);
        }
    }
    assert forall|y: SensorAddress| (s.contains(y) || y == x) implies #[trigger] s.push(
        x,
    ).contains(y) by {
        if s.contains(y) {
            let i = choose|i: int| 0 <= i < s.len() && s[i] == y;
            assert(s.push(x)[i] == y);
        } else {
            assert(s.push(x)[s.len() as int] == y);
        }
    }
    if nodup(s) && !s.contains(x) {
        assert forall|i: int, j: int| 0 <= i < j < s.push(x).len() implies s.push(x)[i] != s.push(
            x,
        )[j] by {
            if j == s.len() {
                if s[i] == x {
                    assert(s.contains(x));
                }
            }
        }
    }
}

/// What removing the element at `k` does to membership and to
/// duplicate-freedom, given that there are no duplicates.
proof fn lemma_remove_facts(s: Seq<SensorAddress>, k: int)
    requires
        nodup(s),
        0 <= k < s.len(),
    ensures
        nodup(s.remove(k)),
        forall|y: SensorAddress| #[trigger] s.remove(k).contains(y) <==> (s.contains(y) && y != s[k]),
{
    let t = s.remove(k);
    assert(forall|j: int| 0 <= j < t.len() ==> t[j] == (if j < k {
        s[j]
    } else {
        s[j + 1]
    }));
    assert forall|y: SensorAddress| #[trigger] t.contains(y) implies (s.contains(y) && y != s[k]) by {
        let j = choose|j: int| 0 <= j < t.len() && t[j] == y;
        if j < k {
            assert(s[j] == y);
        } else {
            assert(s[j + 1] == y);
        }
    }
    assert forall|y: SensorAddress| (s.contains(y) && y != s[k]) implies #[trigger] t.contains(
        y,
    ) by {
        let j = choose|j: int| 0 <= j < s.len() && s[j] == y;
        if j < k {
            assert(t[j] == y);
        } else {
            assert(j != k);
            assert(t[j - 1] == y);
        }
    }
}

/// What dropping the front does to membership and to duplicate-freedom,
/// given that there are no duplicates.
proof fn lemma_drop_first_facts(s: Seq<SensorAddress>)
    requires
        nodup(s),
        s.len() > 0,
    ensures
        nodup(s.drop_first()),
        forall|y: SensorAddress| #[trigger] s.drop_first().contains(y) <==> (s.contains(y) && y
            != s[0]),
{
    assert(s.drop_first() =~= s.remove(0));
    lemma_remove_facts(s, 0);
}

/// Connection bookkeeping for the whole fleet. An address moves
/// `queued -> connecting` when its attempt is dequeued, `connecting ->
/// connected` on success, `connecting -> queued` (at the back) on
/// failure, and `connected -> queued` (at the back) on an observed
/// disconnect.
pub struct SensorManager {
    to_connect: VecDeque<SensorAddress>,
    connected: Vec<SensorAddress>,
    connecting: Option<SensorAddress>,
}

impl SensorManager {
    /// The FIFO queue of addresses awaiting a connection attempt,
    /// front first.
    pub closed spec fn queue(self) -> Seq<SensorAddress> {
        self.to_connect@
    }

    /// Whether `a` is awaiting a connection attempt.
    pub open spec fn queued(self, a: SensorAddress) -> bool {
        self.queue().contains(a)
    }

    /// The address whose connection attempt is in flight, if any.
    pub closed spec fn connecting(self) -> Option<SensorAddress> {
        self.connecting
    }

    /// Whether `a` is currently connected (and so has a registered node).
    pub closed spec fn is_connected(self, a: SensorAddress) -> bool {
        self.connected@.contains(a)
    }

    /// The number of currently connected addresses.
    pub closed spec fn connected_count(self) -> nat {
        self.connected@.len()
    }

    /// The connection invariant: the queue and the connected list hold
    /// no duplicates, and no address is in more than one of {queued,
    /// connecting, connected}.
    pub closed spec fn wf(self) -> bool {
        &&& nodup(self.to_connect@)
        &&& nodup(self.connected@)
        &&& forall|a: SensorAddress| !(#[trigger] self.queued(a) && self.is_connected(a))
        &&& (self.connecting matches Some(a) ==> !self.queued(a) && !self.is_connected(a))
    }

    /// An address is never simultaneously in the connect queue and the
    /// connected set.
    pub proof fn lemma_queue_connected_disjoint(self, a: SensorAddress)
        requires
            self.wf(),
        ensures
            !(self.queued(a) && self.is_connected(a)),
    {
    }

    /// A manager with nothing queued, nothing connected, and no attempt
    /// in flight.
    pub fn new() -> (r: SensorManager)
        ensures
            r.wf(),
            r.queue() == Seq::<SensorAddress>::empty(),
            forall|a: SensorAddress| !r.is_connected(a),
            r.connecting() is None,
    {
        let r = SensorManager {
            to_connect: VecDeque::new(),
            connected: Vec::new(),
            connecting: None,
        };
        proof {
            assert(forall|a: SensorAddress| !r.queue().contains(a));
            assert(forall|a: SensorAddress| !r.connected@.contains(a));
        }
        r
    }

    /// Whether a discovery event for `a` enqueues it: only a known
    /// (named) sensor that is in none of the three connection states.
    pub open spec fn should_enqueue(self, a: SensorAddress, known: bool) -> bool {
        &&& known
        &&& !self.queued(a)
        &&& !self.is_connected(a)
        &&& self.connecting() != Some(a)
    }

    /// Handles a discovery event for `a`, where `known` says whether the
    /// address appears in the name table: enqueues it at the back of the
    /// queue exactly when `should_enqueue` holds, and otherwise changes
    /// nothing.
    pub fn handle_discovery(&mut self, a: SensorAddress, known: bool)
        requires
            old(self).wf(),
        ensures
            final(self).wf(),
            old(self).should_enqueue(a, known) ==> final(self).queue() == old(self).queue().push(
                a,
            ),
            !old(self).should_enqueue(a, known) ==> *final(self) == *old(self),
            forall|x: SensorAddress| final(self).is_connected(x) == old(self).is_connected(x),
            final(self).connecting() == old(self).connecting(),
    {
        if !known {
            return ;
        }
        if deque_contains(&self.to_connect, &a) {
            return ;
        }
        if vec_contains(&self.connected, &a) {
            return ;
        }
        match &self.connecting {
            Some(c) => {
                if *c == a {
                    return ;
                }
            },
            None => {},
        }
        self.to_connect.push_back(a);
        proof {
            lemma_push_facts(old(self).to_connect@, a);
            assert forall|x: SensorAddress| !(#[trigger] self.queued(x) && self.is_connected(
                x,
            )) by {
                if self.queued(x) && x != a {
                    assert(old(self).queued(x));
                }
            }
        }
    }

    /// Dequeues the next address for a connection attempt, which is then
    /// in flight. Returns `None` (and changes nothing) when the queue is
    /// empty. At most one attempt is ever in flight.
    pub fn begin_connect(&mut self) -> (r: Option<SensorAddress>)
        requires
            old(self).wf(),
            old(self).connecting() is None,
        ensures
            final(self).wf(),
            old(self).queue().len() == 0 ==> r is None && *final(self) == *old(self),
            old(self).queue().len() > 0 ==> {
                &&& r == Some(old(self).queue()[0])
                &&& final(self).queue() == old(self).queue().drop_first()
                &&& final(self).connecting() == Some(old(self).queue()[0])
            },
            forall|x: SensorAddress| final(self).is_connected(x) == old(self).is_connected(x),
    {
        if self.to_connect.len() == 0 {
            return None;
        }
        match self.to_connect.pop_front() {
            Some(a) => {
                self.connecting = Some(a);
                proof {
                    assert(self.to_connect@ =~= old(self).to_connect@.drop_first());
                    lemma_drop_first_facts(old(self).to_connect@);
                    assert(old(self).queued(a)) by {
                        assert(old(self).to_connect@[0] == a);
                    }
                    assert forall|x: SensorAddress| !(#[trigger] self.queued(x)
                        && self.is_connected(x)) by {
                        if self.queued(x) {
                            assert(old(self).queued(x));
                        }
                    }
                }
                Some(a)
            },
            None => unreached(),
        }
    }

    /// Records that the in-flight connection attempt succeeded: the
    /// address joins the connected set and nothing is left in flight.
    pub fn connect_succeeded(&mut self)
        requires
            old(self).wf(),
            old(self).connecting() is Some,
        ensures
            final(self).wf(),
            final(self).queue() == old(self).queue(),
            final(self).connecting() is None,
            forall|x: SensorAddress|
                final(self).is_connected(x) <==> (old(self).is_connected(x) || Some(x) == old(
                    self,
                ).connecting()),
            final(self).connected_count() == old(self).connected_count() + 1,
    {
        let a = match &self.connecting {
            Some(a) => *a,
            None => unreached(),
        };
        self.connected.push(a);
        self.connecting = None;
        proof {
            lemma_push_facts(old(self).connected@, a);
            assert forall|x: SensorAddress| !(#[trigger] self.queued(x) && self.is_connected(
                x,
            )) by {
                if self.queued(x) && x != a {
                    assert(old(self).queued(x));
                }
            }
        }
    }

    /// Records that the in-flight connection attempt failed: the address
    /// is requeued at the back, behind every other queued address, and
    /// nothing is left in flight. Failure never discards the address.
    pub fn connect_failed(&mut self)
        requires
            old(self).wf(),
            old(self).connecting() is Some,
        ensures
            final(self).wf(),
            final(self).queue() == old(self).queue().push(old(self).connecting()->Some_0),
            final(self).connecting() is None,
            forall|x: SensorAddress| final(self).is_connected(x) == old(self).is_connected(x),
    {
        let a = match &self.connecting {
            Some(a) => *a,
            None => unreached(),
        };
        self.to_connect.push_back(a);
        self.connecting = None;
        proof {
            lemma_push_facts(old(self).to_connect@, a);
            assert forall|x: SensorAddress| !(#[trigger] self.queued(x) && self.is_connected(
                x,
            )) by {
                if self.queued(x) && x != a {
                    assert(old(self).queued(x));
                }
            }
        }
    }

    /// Handles an externally observed disconnect event for `a`. When `a`
    /// was connected it leaves the connected set and is requeued at the
    /// back; the return value says whether that happened (the caller
    /// must first remove the corresponding node). A disconnect for an
    /// address not known to be connected changes nothing.
    #[verifier::loop_isolation(false)]
    pub fn handle_disconnect(&mut self, a: SensorAddress) -> (was_connected: bool)
        requires
            old(self).wf(),
            old(self).connecting() != Some(a),
        ensures
            final(self).wf(),
            was_connected == old(self).is_connected(a),
            !was_connected ==> *final(self) == *old(self),
            was_connected ==> {
                &&& final(self).queue() == old(self).queue().push(a)
                &&& forall|x: SensorAddress|
                    final(self).is_connected(x) <==> (old(self).is_connected(x) && x != a)
                &&& final(self).connected_count() + 1 == old(self).connected_count()
            },
            final(self).connecting() == old(self).connecting(),
    {
        let ghost c = old(self).connected@;
        let mut i: usize = 0;
        while i < self.connected.len()
            invariant
                *self == *old(self),
                i <= c.len(),
                forall|j: int| 0 <= j < i ==> c[j] != a,
            decreases c.len() - i,
        {
            if self.connected[i] == a {
                self.connected.remove(i);
                self.to_connect.push_back(a);
                proof {
                    assert(old(self).is_connected(a)) by {
                        assert(c[i as int] == a);
                    }
                    lemma_remove_facts(c, i as int);
                    lemma_push_facts(old(self).to_connect@, a);
                    assert(!old(self).queued(a));
                    assert forall|x: SensorAddress| !(#[trigger] self.queued(x)
                        && self.is_connected(x)) by {
                        if self.queued(x) && x != a {
                            assert(old(self).queued(x));
                        }
                    }
                }
                return true;
            }
            i += 1;
        }
        proof {
            assert(!old(self).is_connected(a)) by {
                if old(self).is_connected(a) {
                    let j = choose|j: int| 0 <= j < c.len() && c[j] == a;
                }
            }
        }
        false
    }

    /// Whether `a` is currently connected.
    pub fn connected_contains(&self, a: &SensorAddress) -> (r: bool)
        ensures
            r == self.is_connected(*a),
    {
        vec_contains(&self.connected, a)
    }

    /// The address whose connection attempt is in flight, if any.
    pub fn current_attempt(&self) -> (r: Option<SensorAddress>)
        ensures
            r == self.connecting(),
    {
        match &self.connecting {
            Some(a) => Some(*a),
            None => None,
        }
    }

    /// The number of addresses awaiting a connection attempt.
    pub fn queue_len(&self) -> (r: usize)
        ensures
            r == self.queue().len(),
    {
        self.to_connect.len()
    }

    /// The number of currently connected addresses.
    pub fn connected_len(&self) -> (r: usize)
        ensures
            r == self.connected_count(),
    {
        self.connected.len()
    }
}

/// Whether the deque holds `a`.
#[verifier::loop_isolation(false)]
fn deque_contains(q: &VecDeque<SensorAddress>, a: &SensorAddress) -> (r: bool)
    ensures
        r == q@.contains(*a),
{
    let mut i: usize = 0;
    while i < q.len()
        invariant
            i <= q@.len(),
            forall|j: int| 0 <= j < i ==> q@[j] != *a,
        decreases q@.len() - i,
    {
        if q[i] == *a {
            return true;
        }
        i += 1;
    }
    false
}

/// Whether the vector holds `a`.
#[verifier::loop_isolation(false)]
fn vec_contains(v: &Vec<SensorAddress>, a: &SensorAddress) -> (r: bool)
    ensures
        r == v@.contains(*a),
{
    let mut i: usize = 0;
    while i < v.len()
        invariant
            i <= v@.len(),
            forall|j: int| 0 <= j < i ==> v@[j] != *a,
        decreases v@.len() - i,
    {
        if v[i] == *a {
            return true;
        }
        i += 1;
    }
    false
}

} // verus!
