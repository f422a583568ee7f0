//! The append-only conversation log.

use vstd::prelude::*;

use crate::common::Message;

verus! {

broadcast use vstd::std_specs::vec::group_vec_axioms, vstd::seq::group_seq_axioms;

/// Working memory: an ordered log of messages. Entries are only ever
/// appended — no compaction, no truncation, no reordering.
pub struct WorkingMemory {
    fresh: Vec<Message>,
}

impl View for WorkingMemory {
    type V = Seq<crate::common::MessageV>;

    closed spec fn view(&self) -> Seq<crate::common::MessageV> {
        self.fresh@.map_values(|m: Message| m@)
    }
}

impl WorkingMemory {
    pub fn new() -> (r: Self)
        ensures
            r@ =~= Seq::<crate::common::MessageV>::empty(),
    {
        WorkingMemory { fresh: Vec::new() }
    }

    /// A full copy of the current message sequence, for request
    /// construction: every step resends the whole history.
    pub fn messages(&self) -> (r: Vec<Message>)
        ensures
            r@.map_values(|m: Message| m@) == self@,
    {
        let n = self.fresh.len();
        let mut out: Vec<Message> = Vec::new();
        let mut i: usize = 0;
        while i < n
            invariant
                n == self.fresh@.len(),
                0 <= i <= n,
                out@.len() == i,
                forall|k: int| 0 <= k < i ==> (#[trigger] out@[k])@ == self.fresh@[k]@,
            decreases n - i,
        {
            let c = self.fresh[i].clone();
            out.push(c);
            i += 1;
        }
        proof {
            assert(out@.map_values(|m: Message| m@) =~= self@);
        }
        out
    }

    /// Appends a batch of messages. Prior entries are never removed or
    /// edited: the old log is a prefix of the new one.
    pub fn add_messages(&mut self, new_history: Vec<Message>)
        ensures
            final(self)@ =~= old(self)@ + new_history@.map_values(|m: Message| m@),
    {
        let mut new_history = new_history;
        let n = new_history.len();
        let mut i: usize = 0;
        let ghost added = new_history@.map_values(|m: Message| m@);
        let ghost start = self@;
        while i < n
            invariant
                n == added.len(),
                0 <= i <= n,
                new_history@.map_values(|m: Message| m@) == added,
                new_history@.len() == n,
                self@ =~= start + added.subrange(0, i as int),
            decreases n - i,
        {
            proof {
                assert(added[i as int] == new_history@[i as int]@);
            }
            let m = new_history[i].clone();
            let ghost prev = self@;
            self.fresh.push(m);
            proof {
                assert(self@ =~= prev.push(new_history@[i as int]@));
                assert(added.subrange(0, i + 1).drop_last() =~= added.subrange(0, i as int));
                assert(self@ =~= start + added.subrange(0, i + 1));
            }
            i += 1;
        }
        proof {
            assert(added.subrange(0, n as int) =~= added);
        }
    }
}

/// Appending never disturbs what was already committed: every prior
/// entry stays at its index, and the old log is a prefix of the new.
pub proof fn law_append_preserves_prior(
    prior: Seq<crate::common::MessageV>,
    added: Seq<crate::common::MessageV>,
)
    ensures
        (prior + added).len() == prior.len() + added.len(),
        (prior + added).subrange(0, prior.len() as int) =~= prior,
        forall|i: int| 0 <= i < prior.len() ==> (prior + added)[i] == prior[i],
        forall|i: int| 0 <= i < added.len() ==> (prior + added)[prior.len() + i] == added[i],
{
}

} // verus!
