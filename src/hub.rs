//! The broadcast hub's registry and its fan-out decisions. The hub thread
//! owns the write handles; this type decides who is written to and who is
//! dropped.
use vstd::prelude::*;

verus! {

/// The peers that the hub writes to, in the order they were registered.
pub struct Hub {
    peers: Vec<u32>,
}

/// The peers of `peers` whose write succeeded (`ok` at the same index),
/// order kept.
pub open spec fn survivors(peers: Seq<u32>, ok: Seq<bool>) -> Seq<u32>
    decreases peers.len(),
{
    if peers.len() == 0 {
        seq![]
    } else {
        let rest = survivors(peers.drop_last(), ok.drop_last());
        if ok.last() {
            rest.push(peers.last())
        } else {
            rest
        }
    }
}

/// A peer survives a broadcast exactly when one of its writes succeeded.
pub proof fn lemma_survivors_contains(peers: Seq<u32>, ok: Seq<bool>, p: u32)
    requires
        ok.len() == peers.len(),
    ensures
        survivors(peers, ok).contains(p) <==> exists|i: int|
            0 <= i < peers.len() && peers[i] == p && ok[i],
    decreases peers.len(),
{
    if peers.len() > 0 {
        let (pd, od) = (peers.drop_last(), ok.drop_last());
        lemma_survivors_contains(pd, od, p);
        let n = peers.len() - 1;
        if survivors(peers, ok).contains(p) {
            if !(ok.last() && peers.last() == p) {
                assert(survivors(pd, od).contains(p)) by {
                    if ok.last() {
                        let k = choose|k: int|
                            0 <= k < survivors(peers, ok).len() && survivors(peers, ok)[k] == p;
                        assert(k < survivors(pd, od).len());
                        assert(survivors(pd, od)[k] == p);
                    }
                }
                let i = choose|i: int| 0 <= i < pd.len() && pd[i] == p && od[i];
                assert(peers[i] == p && ok[i]);
            } else {
                assert(peers[n] == p && ok[n]);
            }
        }
        if exists|i: int| 0 <= i < peers.len() && peers[i] == p && ok[i] {
            let i = choose|i: int| 0 <= i < peers.len() && peers[i] == p && ok[i];
            if i < n {
                assert(pd[i] == p && od[i]);
                assert(survivors(pd, od).contains(p));
                if ok.last() {
                    let k = choose|k: int|
                        0 <= k < survivors(pd, od).len() && survivors(pd, od)[k] == p;
                    assert(survivors(peers, ok)[k] == p);
                }
            } else {
                assert(survivors(peers, ok).last() == p);
            }
        }
    }
}

/// Pruning keeps registered peers distinct.
pub proof fn lemma_survivors_distinct(peers: Seq<u32>, ok: Seq<bool>)
    requires
        ok.len() == peers.len(),
        peers.no_duplicates(),
    ensures
        survivors(peers, ok).no_duplicates(),
    decreases peers.len(),
{
    if peers.len() > 0 {
        let (pd, od) = (peers.drop_last(), ok.drop_last());
        lemma_survivors_distinct(pd, od);
        if ok.last() {
            lemma_survivors_contains(pd, od, peers.last());
            let s = survivors(peers, ok);
            let r = survivors(pd, od);
            assert forall|a: int, b: int| 0 <= a < s.len() && 0 <= b < s.len() && a != b implies s[a]
                != s[b] by {
                if a == r.len() || b == r.len() {
                    let k = if a == r.len() { b } else { a };
                    if r[k] == peers.last() {
                        assert(r.contains(peers.last()));
                    }
                }
            }
        }
    }
}

impl Hub {
    /// The registered peers, in registration order.
    pub closed spec fn view(&self) -> Seq<u32> {
        self.peers@
    }

    /// No peer is registered twice.
    pub open spec fn wf(&self) -> bool {
        self@.no_duplicates()
    }

    /// A hub with no peers.
    pub fn new() -> (r: Hub)
        ensures
            r.wf(),
            r@ == Seq::<u32>::empty(),
    {
        Hub { peers: Vec::new() }
    }

    /// Whether `id` is registered.
    pub fn contains(&self, id: u32) -> (r: bool)
        ensures
            r == self@.contains(id),
    {
        let mut i: usize = 0;
        while i < self.peers.len()
            invariant
                0 <= i <= self@.len(),
                self@ == self.peers@,
                forall|k: int| 0 <= k < i ==> self@[k] != id,
            decreases self@.len() - i,
        {
            if self.peers[i] == id {
                return true;
            }
            i += 1;
        }
        false
    }

    /// Registers the write side of connection `id`. An identity that is
    /// already registered stays where it is.
    pub fn register(&mut self, id: u32)
        requires
            old(self).wf(),
        ensures
            final(self).wf(),
            final(self)@ == if old(self)@.contains(id) {
                old(self)@
            } else {
                old(self)@.push(id)
            },
    {
        if !self.contains(id) {
            self.peers.push(id);
        }
    }

    /// Who a message goes to: every registered peer once, the sender
    /// included, in registration order. The hub writes the message to each
    /// of them, whatever became of the writes before.
    pub fn targets(&self) -> (r: Vec<u32>)
        ensures
            r@ == self@,
    {
        self.peers.clone()
    }

    /// After a broadcast to `targets()`, drops every peer whose write failed
    /// (`delivered[i]` is false for `targets()[i]`) and keeps the others in
    /// their order.
    pub fn prune(&mut self, delivered: &Vec<bool>)
        requires
            old(self).wf(),
            delivered@.len() == old(self)@.len(),
        ensures
            final(self).wf(),
            final(self)@ == survivors(old(self)@, delivered@),
    {
        let ghost p0 = self@;
        let mut kept: Vec<u32> = Vec::new();
        let mut i: usize = 0;
        while i < self.peers.len()
            invariant
                0 <= i <= p0.len(),
                self.peers@ == p0,
                delivered@.len() == p0.len(),
                kept@ == survivors(p0.take(i as int), delivered@.take(i as int)),
            decreases p0.len() - i,
        {
            proof {
                assert(p0.take(i + 1).drop_last() =~= p0.take(i as int));
                assert(delivered@.take(i + 1).drop_last() =~= delivered@.take(i as int));
            }
            if delivered[i] {
                kept.push(self.peers[i]);
            }
            i += 1;
        }
        proof {
            assert(p0.take(p0.len() as int) =~= p0);
            assert(delivered@.take(p0.len() as int) =~= delivered@);
            lemma_survivors_distinct(p0, delivered@);
        }
        self.peers = kept;
    }
}

/// A failed write is local to its peer: after pruning, a registered peer is
/// still registered exactly when its write in this broadcast succeeded, so
/// one dead handle takes no live peer with it.
pub proof fn lemma_failure_is_local(peers: Seq<u32>, delivered: Seq<bool>, i: int)
    requires
        peers.no_duplicates(),
        delivered.len() == peers.len(),
        0 <= i < peers.len(),
    ensures
        survivors(peers, delivered).contains(peers[i]) == delivered[i],
{
    lemma_survivors_contains(peers, delivered, peers[i]);
}

} // verus!
