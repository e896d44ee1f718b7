//! Hands out connection identities: sequential from 1, never reused within
//! a run of the server.
use vstd::prelude::*;
use crate::codec::{encode, Opcode};

verus! {

/// The first identity handed out.
pub const FIRST_ID: u32 = 1;

/// The listener's identity counter.
pub struct Registrar {
    next_id: u64,
}

impl Registrar {
    /// The identity the next accepted connection gets; past `u32::MAX` the
    /// identities are used up.
    pub closed spec fn next(&self) -> nat {
        self.next_id as nat
    }

    /// The counter stays within the identities it can hand out, one past.
    pub open spec fn wf(&self) -> bool {
        FIRST_ID <= self.next() <= u32::MAX as nat + 1
    }

    /// The identities handed out so far.
    pub open spec fn issued(&self) -> Set<u32> {
        Set::new(|id: u32| FIRST_ID <= id && (id as nat) < self.next())
    }

    /// A registrar that has handed out nothing.
    pub fn new() -> (r: Registrar)
        ensures
            r.wf(),
            r.next() == FIRST_ID as nat,
            r.issued() == Set::<u32>::empty(),
    {
        let r = Registrar { next_id: FIRST_ID as u64 };
        assert(r.issued() =~= Set::<u32>::empty());
        r
    }

    /// Takes in one accepted connection: gives it the next identity and the `Welcome`
    /// frame to send it. `None` once every `u32` identity has been given out.
    pub fn accept(&mut self) -> (r: Option<(u32, Vec<u8>)>)
        requires
            old(self).wf(),
        ensures
            final(self).wf(),
            match r {
                Some((id, welcome)) => {
                    &&& id as nat == old(self).next()
                    &&& !old(self).issued().contains(id)
                    &&& final(self).issued() == old(self).issued().insert(id)
                    &&& final(self).next() == old(self).next() + 1
                    &&& welcome@ == encode(Opcode::Welcome { id })
                },
                None => old(self).next() == u32::MAX as nat + 1 && *final(self) == *old(self),
            },
    {
        if self.next_id > u32::MAX as u64 {
            return None;
        }
        let id = self.next_id as u32;
        self.next_id = self.next_id + 1;
        assert(final(self).issued() =~= old(self).issued().insert(id));
        let w = Opcode::Welcome { id };
        Some((id, w.asbytes()))
    }
}

} // verus!
