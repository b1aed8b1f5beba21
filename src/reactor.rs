//! How a replica reacts to each protocol message.
use vstd::prelude::*;
use crate::context::{append_at, offer_at, Context};
use crate::phase::Phase;
use crate::types::{bytes_eq, copy_bytes, zero_bytes, Certificate, Propose, Replica, Vote, HASH_LEN};

verus! {

/// Whether all votes of `c` carry the same message.
pub fn votes_agree(c: &Certificate) -> (r: bool)
    ensures
        r == c.is_uniform(),
{
    let n = c.votes.len();
    if n == 0 {
        return true;
    }
    let mut i: usize = 1;
    while i < n
        invariant
            1 <= i <= n,
            n == c.votes@.len(),
            forall|j: int| 0 <= j < i ==> #[trigger] c.votes@[j].msg@ == c.votes@[0].msg@,
        decreases n - i,
    {
        if !bytes_eq(&c.votes[i].msg, &c.votes[0].msg) {
            return false;
        }
        i = i + 1;
    }
    true
}

impl Context {
    /// The height that certificate `c` lets the leader adopt, if any: the
    /// leader is in Propose, every vote's signature verified, all votes are
    /// for the same block, that block (genesis, for the empty certificate) is
    /// committed here, and it stands higher than the highest certified block
    /// known so far.
    pub open spec fn adoptable(self, c: Certificate, votes_verified: bool) -> Option<int> {
        if self.is_leader() && self.phase == Phase::Propose && votes_verified && c.is_uniform() {
            match self.storage.by_hash(c.subject()) {
                Some(b) => if b.height > self.highest_height { Some(b.height) } else { None },
                None => None,
            }
        } else {
            None
        }
    }

    /// Handles a `Certificate` message; `votes_verified` tells whether every
    /// vote's signature verified under its origin's key.
    pub fn on_certificate(&mut self, c: Certificate, votes_verified: bool)
        requires
            old(self).wf(),
        ensures
            final(self).wf(),
            *final(self) == (Context {
                highest_cert: final(self).highest_cert,
                highest_height: final(self).highest_height,
                ..*old(self)
            }),
            match old(self).adoptable(c, votes_verified) {
                Some(h) => final(self).highest_cert@ == c@ && final(self).highest_height == h,
                None => final(self).highest_cert@ == old(self).highest_cert@
                    && final(self).highest_height == old(self).highest_height,
            },
    {
        if self.myid != self.last_leader || self.phase != Phase::Propose || !votes_verified {
            return;
        }
        if !votes_agree(&c) {
            return;
        }
        let subject = if c.votes.len() == 0 { zero_bytes(HASH_LEN) } else { copy_bytes(&c.votes[0].msg) };
        let found = match self.storage.get_by_hash(&subject) {
            Some(b) => if b.header.height > self.highest_height { Some(b.header.height) } else { None },
            None => None,
        };
        match found {
            Some(h) => {
                self.highest_cert = c;
                self.highest_height = h;
            },
            None => {},
        }
    }

    /// Handles a `Propose` message: keeps the proposal and its authenticator.
    pub fn on_propose(&mut self, p: Propose, sign: Vec<u8>)
        requires
            old(self).wf(),
        ensures
            *final(self) == (Context {
                received_propose: Some(p),
                received_propose_sign: Some(sign),
                ..*old(self)
            }),
    {
        self.received_propose = Some(p);
        self.received_propose_sign = Some(sign);
    }

    /// Handles a `Vote` message: keeps the vote, and tells whether the votes
    /// now number exactly `f + 1`, enough to form a certificate.
    pub fn on_vote(&mut self, v: Vote) -> (formed: bool)
        requires
            old(self).wf(),
        ensures
            *final(self) == (Context { received_vote: final(self).received_vote, ..*old(self) }),
            final(self).received_vote@ == old(self).received_vote@.push(v),
            formed == (final(self).received_vote@.len() == old(self).num_faults + 1),
    {
        self.received_vote.push(v);
        self.received_vote.len() == (self.num_faults as usize) + 1
    }

    /// The certificate formed by the votes received so far.
    pub fn vote_certificate(&self) -> (c: Certificate)
        ensures
            c@ == crate::types::votes_view(self.received_vote@),
    {
        Certificate { votes: crate::types::copy_votes(&self.received_vote) }
    }

    /// Handles an `Ack` message: keeps it for the body of this replica's next block.
    pub fn on_ack(&mut self, v: Vote)
        requires
            old(self).wf(),
        ensures
            *final(self) == (Context { received_ack: final(self).received_ack, ..*old(self) }),
            final(self).received_ack@ == old(self).received_ack@.push(v),
    {
        self.received_ack.push(v);
    }

    /// Handles a `Reconstruct` message: queues the beacon share `share` of
    /// author `author` for epoch `e`, unless the author is out of range or
    /// that author's queue already holds a share for a later epoch.
    pub fn on_reconstruct(&mut self, share: Vec<u8>, author: Replica, e: i64) -> (accepted: bool)
        requires
            old(self).wf(),
        ensures
            *final(self) == (Context { reconstruct_queue: final(self).reconstruct_queue, ..*old(self) }),
            final(self).wf(),
            final(self).reconstruct_queue@.len() == old(self).reconstruct_queue@.len(),
            accepted == (author < old(self).num_nodes && (old(self).reconstruct_queue@[author as int]@.len() == 0
                || e >= old(self).reconstruct_queue@[author as int]@.last().1)),
            forall|j: int| 0 <= j < old(self).num_nodes && (j != author || !accepted) ==>
                (#[trigger] final(self).reconstruct_queue@[j])@ == old(self).reconstruct_queue@[j]@,
            accepted ==> final(self).reconstruct_queue@[author as int]@
                == old(self).reconstruct_queue@[author as int]@.push((share@, e as int)),
    {
        if author >= self.num_nodes {
            return false;
        }
        offer_at(&mut self.reconstruct_queue, author as usize, share, e)
    }

    /// Handles a `Commit` message from the next leader: queues this replica's
    /// beacon shares under the next leader and keeps the commitments with
    /// their authenticator.
    pub fn on_commit(&mut self, shares: Vec<Vec<u8>>, commits: Vec<Vec<u8>>, sign: Vec<u8>)
        requires
            old(self).wf(),
        ensures
            *final(self) == (Context {
                rand_beacon_queue: final(self).rand_beacon_queue,
                received_commit: Some(commits),
                received_commit_sign: Some(sign),
                ..*old(self)
            }),
            final(self).wf(),
            final(self).rand_beacon_queue@.len() == old(self).rand_beacon_queue@.len(),
            forall|j: int| 0 <= j < old(self).num_nodes && j != old(self).succ(old(self).last_leader) ==>
                (#[trigger] final(self).rand_beacon_queue@[j])@ == old(self).rand_beacon_queue@[j]@,
            final(self).rand_beacon_queue@[old(self).succ(old(self).last_leader) as int]@
                == old(self).rand_beacon_queue@[old(self).succ(old(self).last_leader) as int]@
                + shares@.map_values(|x: Vec<u8>| (x@, old(self).epoch as int)),
    {
        let next = self.next_leader();
        append_at(&mut self.rand_beacon_queue, next as usize, shares, self.epoch);
        self.received_commit = Some(commits);
        self.received_commit_sign = Some(sign);
    }
}

} // verus!
