//! What a replica does when the deadline of its current phase passes.
use vstd::prelude::*;
use crate::context::Context;
use crate::dispersal::slot_order;
use crate::msg::{is_deliver, Destination, Dispersal, Outgoing, ProtocolMsg};
use crate::phase::{end_of_epoch, within_epoch, Deadline, Phase};
use crate::types::{
    bytes_view, copy_byte_list, copy_bytes, copy_votes, votes_view, zero_bytes, Block, BlockHeader, BlockModel,
    Content, Propose, Vote, VoteModel, HASH_LEN,
};

verus! {

/// The parent hash of the block a leader proposes on top of certificate `c`.
pub open spec fn parent_of(c: crate::types::Certificate) -> Seq<u8> {
    c.subject()
}

impl Context {
    /// Start of the Propose phase: the block this leader proposes, on top of
    /// its highest certificate, at the next height, carrying the staged beacon
    /// commitments and the acknowledgements received (which are consumed).
    /// Its hash is left empty, to be set with `Block::update_hash`.
    pub fn build_proposal(&mut self) -> (p: Propose)
        requires
            old(self).wf(),
            old(self).highest_height < i64::MAX,
        ensures
            p.new_block@ == (BlockModel {
                prev: parent_of(old(self).highest_cert),
                author: old(self).myid,
                height: old(self).highest_height + 1,
                commits: bytes_view(old(self).commits@),
                acks: votes_view(old(self).received_ack@),
                hash: Seq::empty(),
            }),
            p.certificate@ == old(self).highest_cert@,
            p.epoch == old(self).epoch,
            *final(self) == (Context { received_ack: final(self).received_ack, ..*old(self) }),
            final(self).received_ack@.len() == 0,
    {
        let prev = if self.highest_cert.votes.len() == 0 {
            zero_bytes(HASH_LEN)
        } else {
            copy_bytes(&self.highest_cert.votes[0].msg)
        };
        let block = Block {
            header: BlockHeader { prev, author: self.myid, height: self.highest_height + 1 },
            body: Content { commits: copy_byte_list(&self.commits), acks: copy_votes(&self.received_ack) },
            hash: Vec::new(),
        };
        self.received_ack = Vec::new();
        let p = Propose { new_block: block, certificate: self.highest_cert.copy(), epoch: self.epoch };
        assert(p.new_block@.hash =~= Seq::<u8>::empty());
        p
    }

    /// End of the Propose phase: broadcasts proposal `p` with its dispersal
    /// authenticator `sign`, keeps both, and disperses `p` cut into `shards`.
    /// The next phase is DeliverCommit, 8 quanta into the epoch.
    pub fn finish_propose(&mut self, p: Propose, sign: Vec<u8>, shards: &Vec<Vec<u8>>, own_valid: bool)
        -> (r: (Vec<Outgoing>, Deadline))
        requires
            old(self).wf(),
            old(self).phase == Phase::Propose,
            shards@.len() == old(self).num_nodes,
        ensures
            final(self).wf(),
            final(self).keeps_epoch_state(*old(self)),
            final(self).phase == Phase::DeliverCommit,
            r.1 == Deadline::SinceBegin((11 * (old(self).epoch - 1) + 8) as u64),
            final(self).received_propose is Some && final(self).received_propose->0@ == p@,
            final(self).received_propose_sign is Some && final(self).received_propose_sign->0@ == sign@,
            final(self).propose_share_sent,
            r.0@.len() == old(self).num_nodes + 1,
            r.0@[0].to == Destination::Broadcast,
            match r.0@[0].msg {
                ProtocolMsg::Propose(q, z) => q@ == p@ && z@ == sign@,
                _ => false,
            },
            forall|j: int| 0 <= j < old(self).num_nodes ==> (#[trigger] r.0@[j + 1]).to == Destination::Broadcast
                && is_deliver(r.0@[j + 1].msg, Dispersal::Proposal,
                    shards@[slot_order(old(self).myid, old(self).num_nodes, j) as int]@,
                    slot_order(old(self).myid, old(self).num_nodes, j), sign@),
    {
        let mut out: Vec<Outgoing> = Vec::new();
        out.push(Outgoing { to: Destination::Broadcast, msg: ProtocolMsg::Propose(p.copy(), copy_bytes(&sign)) });
        let s2 = copy_bytes(&sign);
        self.received_propose = Some(p);
        self.received_propose_sign = Some(sign);
        let mut rest = self.disperse(Dispersal::Proposal, shards, &s2, own_valid);
        let ghost first = out@[0];
        let ghost tail = rest@;
        out.append(&mut rest);
        assert(out@ == seq![first] + tail);
        self.phase = Phase::DeliverCommit;
        (out, within_epoch(self.epoch, 8))
    }

    /// End of the DeliverPropose phase of a replica that does not lead: if a
    /// proposal has arrived, disperses it cut into `shards`. The next phase is
    /// DeliverCommit, 8 quanta into the epoch.
    pub fn deliver_propose_phase(&mut self, shards: Option<Vec<Vec<u8>>>, own_valid: bool)
        -> (r: (Vec<Outgoing>, Deadline))
        requires
            old(self).wf(),
            old(self).phase == Phase::DeliverPropose,
            shards is Some <==> old(self).received_propose_sign is Some,
            shards is Some ==> shards->0@.len() == old(self).num_nodes,
        ensures
            final(self).wf(),
            final(self).keeps_epoch_state(*old(self)),
            final(self).phase == Phase::DeliverCommit,
            r.1 == Deadline::SinceBegin((11 * (old(self).epoch - 1) + 8) as u64),
            old(self).received_propose_sign is None ==> r.0@.len() == 0,
            old(self).received_propose_sign is Some ==> {
                &&& r.0@.len() == old(self).num_nodes
                &&& final(self).propose_share_sent
                &&& forall|j: int| 0 <= j < old(self).num_nodes ==> (#[trigger] r.0@[j]).to == Destination::Broadcast
                    && is_deliver(r.0@[j].msg, Dispersal::Proposal,
                        shards->0@[slot_order(old(self).myid, old(self).num_nodes, j) as int]@,
                        slot_order(old(self).myid, old(self).num_nodes, j), old(self).received_propose_sign->0@)
            },
    {
        let out = match (&shards, &self.received_propose_sign) {
            (Some(sh), Some(z)) => {
                let z2 = copy_bytes(z);
                self.disperse(Dispersal::Proposal, sh, &z2, own_valid)
            },
            _ => Vec::new(),
        };
        self.phase = Phase::DeliverCommit;
        (out, within_epoch(self.epoch, 8))
    }

    /// End of the DeliverCommit phase: if beacon commitments have arrived,
    /// disperses them cut into `shards`. The leader moves on to End at the
    /// epoch boundary; any other replica to Vote, one quantum from now.
    pub fn deliver_commit_phase(&mut self, shards: Option<Vec<Vec<u8>>>, own_valid: bool)
        -> (r: (Vec<Outgoing>, Deadline))
        requires
            old(self).wf(),
            old(self).phase == Phase::DeliverCommit,
            shards is Some <==> old(self).received_commit_sign is Some,
            shards is Some ==> shards->0@.len() == old(self).num_nodes,
        ensures
            final(self).wf(),
            final(self).keeps_epoch_state(*old(self)),
            old(self).is_leader() ==> final(self).phase == Phase::End
                && r.1 == Deadline::SinceBegin((11 * old(self).epoch) as u64),
            !old(self).is_leader() ==> final(self).phase == Phase::Vote && r.1 == Deadline::FromNow(1),
            old(self).received_commit_sign is None ==> r.0@.len() == 0,
            old(self).received_commit_sign is Some ==> {
                &&& r.0@.len() == old(self).num_nodes
                &&& final(self).commit_share_sent
                &&& forall|j: int| 0 <= j < old(self).num_nodes ==> (#[trigger] r.0@[j]).to == Destination::Broadcast
                    && is_deliver(r.0@[j].msg, Dispersal::Commit,
                        shards->0@[slot_order(old(self).myid, old(self).num_nodes, j) as int]@,
                        slot_order(old(self).myid, old(self).num_nodes, j), old(self).received_commit_sign->0@)
            },
    {
        let out = match (&shards, &self.received_commit_sign) {
            (Some(sh), Some(z)) => {
                let z2 = copy_bytes(z);
                self.disperse(Dispersal::Commit, sh, &z2, own_valid)
            },
            _ => Vec::new(),
        };
        if self.myid == self.last_leader {
            self.phase = Phase::End;
            (out, end_of_epoch(self.epoch))
        } else {
            self.phase = Phase::Vote;
            (out, Deadline::FromNow(1))
        }
    }

    /// End of the Vote phase: if the proposal could be recovered, votes for
    /// its block, whose hash is `block_hash`, with signature `auth`, sending
    /// the vote to the leader. The next phase is End at the epoch boundary.
    pub fn vote_phase(&mut self, block_hash: Option<Vec<u8>>, auth: Vec<u8>) -> (r: (Option<Outgoing>, Deadline))
        requires
            old(self).wf(),
            old(self).phase == Phase::Vote,
        ensures
            final(self).wf(),
            *final(self) == (Context { phase: Phase::End, ..*old(self) }),
            r.1 == Deadline::SinceBegin((11 * old(self).epoch) as u64),
            r.0 is Some <==> block_hash is Some,
            r.0 is Some ==> r.0->0.to == Destination::To(old(self).last_leader) && match r.0->0.msg {
                ProtocolMsg::Vote(v) => v@ == (VoteModel { msg: block_hash->0@, origin: old(self).myid, auth: auth@ }),
                _ => false,
            },
    {
        let out = match block_hash {
            Some(h) => Some(Outgoing {
                to: Destination::To(self.last_leader),
                msg: ProtocolMsg::Vote(Vote { msg: h, origin: self.myid, auth }),
            }),
            None => None,
        };
        self.phase = Phase::End;
        (out, end_of_epoch(self.epoch))
    }

    /// End of the Commit phase: if the proposal could be recovered, stores its
    /// block under its height and hash; forgets the epoch's proposal and
    /// certificate. The next phase is End at the epoch boundary.
    pub fn commit_phase(&mut self, block: Option<Block>) -> (d: Deadline)
        requires
            old(self).wf(),
            old(self).phase == Phase::Commit,
        ensures
            final(self).wf(),
            *final(self) == (Context {
                phase: Phase::End,
                storage: final(self).storage,
                received_propose: None,
                received_propose_sign: None,
                received_certificate: None,
                received_certificate_sign: None,
                ..*old(self)
            }),
            match block {
                Some(b) => final(self).storage@ == old(self).storage@.push(b@),
                None => final(self).storage@ == old(self).storage@,
            },
            d == Deadline::SinceBegin((11 * old(self).epoch) as u64),
    {
        match block {
            Some(b) => self.storage.insert(b),
            None => {},
        }
        self.received_propose = None;
        self.received_propose_sign = None;
        self.received_certificate = None;
        self.received_certificate_sign = None;
        self.phase = Phase::End;
        end_of_epoch(self.epoch)
    }
}

} // verus!
