//! How what one connection sends reaches the others: the handler's output
//! over a run of events, and the hub's fan-out of it.
use vstd::prelude::*;
use crate::codec::{decode, encode, lemma_decode_encode, DecodeError, Opcode};
use crate::handler::{Connection, Event};

verus! {

/// The frames a handler submits to the hub while it takes `evs` in turn,
/// starting from `c`, in the order it submits them.
pub open spec fn submitted(c: Connection, evs: Seq<Event>) -> Seq<Seq<u8>>
    decreases evs.len(),
{
    if evs.len() == 0 {
        seq![]
    } else {
        let (s, out, _) = c.next(evs[0]);
        let rest = submitted(s, evs.drop_first());
        match out {
            Some(b) => seq![b] + rest,
            None => rest,
        }
    }
}

/// A closed handler submits nothing more, whatever it is given.
pub proof fn lemma_closed_is_silent(c: Connection, evs: Seq<Event>)
    requires
        !c.open,
    ensures
        submitted(c, evs) == Seq::<Seq<u8>>::empty(),
    decreases evs.len(),
{
    if evs.len() > 0 {
        lemma_closed_is_silent(c, evs.drop_first());
    }
}

/// When the read side of an open connection fails, its handler submits one
/// `Disconnect` for its own identity and nothing else, whatever events
/// follow; and that frame reads back as that `Disconnect`.
pub proof fn lemma_disconnect_once(c: Connection, evs: Seq<Event>)
    requires
        c.open,
        evs.len() > 0,
        evs[0] is ReadFailed,
    ensures
        submitted(c, evs) == seq![encode(Opcode::Disconnect { id: c.client_id })],
        decode(submitted(c, evs)[0]) == Ok::<Opcode, DecodeError>(
            Opcode::Disconnect { id: c.client_id },
        ),
{
    let (s, out, _) = c.next(evs[0]);
    lemma_closed_is_silent(s, evs.drop_first());
    assert(submitted(c, evs) =~= seq![encode(Opcode::Disconnect { id: c.client_id })]);
    lemma_decode_encode(Opcode::Disconnect { id: c.client_id });
}

/// Every event of `evs` is an opcode that the handler, from `c` on, accepts
/// in its turn.
pub open spec fn all_accepted(c: Connection, evs: Seq<Event>) -> bool
    decreases evs.len(),
{
    if evs.len() == 0 {
        true
    } else {
        match evs[0] {
            Event::Received(o) => c.open && c.accepts(o) && all_accepted(
                c.after(o),
                evs.drop_first(),
            ),
            Event::ReadFailed => false,
        }
    }
}

/// What one sender has accepted reaches the hub once each and in the order
/// it was sent: the `i`-th frame submitted is the encoding of the `i`-th
/// opcode.
pub proof fn lemma_order_kept(c: Connection, evs: Seq<Event>)
    requires
        all_accepted(c, evs),
    ensures
        submitted(c, evs).len() == evs.len(),
        forall|i: int| 0 <= i < evs.len() ==> submitted(c, evs)[i] == encode(evs[i]->Received_0),
    decreases evs.len(),
{
    if evs.len() > 0 {
        let o = evs[0]->Received_0;
        let rest = evs.drop_first();
        lemma_order_kept(c.after(o), rest);
        assert forall|i: int| 0 <= i < evs.len() implies submitted(c, evs)[i] == encode(
            evs[i]->Received_0,
        ) by {
            if i > 0 {
                assert(evs[i] == rest[i - 1]);
            }
        }
    }
}

/// A move that an open connection accepts is handed to the hub as its exact
/// encoding, which reads back as the same move; the hub's targets (its
/// registered peers, without duplicates) name each peer exactly once, so
/// every other peer receives those bytes once.
pub proof fn lemma_fan_out(c: Connection, o: Opcode, peers: Seq<u32>)
    requires
        c.open,
        o is Move,
        c.accepts(o),
        peers.no_duplicates(),
    ensures
        c.next(Event::Received(o)).1 == Some(encode(o)),
        !c.next(Event::Received(o)).2,
        decode(encode(o)) == Ok::<Opcode, DecodeError>(o),
        forall|p: u32| peers.contains(p) ==> #[trigger] peers.to_multiset().count(p) == 1,
{
    lemma_decode_encode(o);
    peers.lemma_multiset_has_no_duplicates();
    assert forall|p: u32| peers.contains(p) implies #[trigger] peers.to_multiset().count(p) == 1 by {
        peers.to_multiset_ensures();
    }
}

} // verus!
