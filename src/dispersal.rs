//! Sending and receiving the shards of the three dispersals of an epoch.
use vstd::prelude::*;
use crate::context::Context;
use crate::msg::{deliver_msg, is_deliver, Destination, Dispersal, Outgoing, ProtocolMsg};
use crate::types::{copy_bytes, Replica, Vote, VoteModel};

verus! {

/// The slot of the `j`-th shard message a replica sends when it disperses:
/// every other replica's slot in increasing order, then its own.
pub open spec fn slot_order(myid: Replica, n: u16, j: int) -> Replica {
    if j == n - 1 {
        myid
    } else if j < myid {
        j as Replica
    } else {
        (j + 1) as Replica
    }
}

impl Context {
    /// All fields but the gatherers and the flags of sent shares are as in `old`.
    pub open spec fn same_but_dispersals(self, old: Context) -> bool {
        self == (Context {
            propose_gatherer: self.propose_gatherer,
            vote_cert_gatherer: self.vote_cert_gatherer,
            commit_gatherer: self.commit_gatherer,
            propose_share_sent: self.propose_share_sent,
            vote_cert_share_sent: self.vote_cert_share_sent,
            commit_share_sent: self.commit_share_sent,
            ..old
        })
    }

    /// `after` and `r` are this state and the rebroadcast, if any, once the
    /// shard message of dispersal `k` carrying `shard` for slot `target` under
    /// `sign` is handled, `valid` telling whether the shard verified.
    pub open spec fn deliver_step(self, after: Context, k: Dispersal, shard: Seq<u8>, target: Replica, sign: Seq<u8>,
        valid: bool, r: Option<Outgoing>) -> bool {
        &&& after.same_but_dispersals(self)
        &&& (r is Some <==> !self.share_sent(k) && target == self.myid)
        &&& (r is Some ==> r->0.to == Destination::Broadcast && is_deliver(r->0.msg, k, shard, self.myid, sign))
        &&& after.share_sent(k) == (self.share_sent(k) || target == self.myid)
        &&& forall|k2: Dispersal| k2 != k ==> #[trigger] after.share_sent(k2) == self.share_sent(k2)
        &&& self.gatherer(k).offered(after.gatherer(k), shard, target, sign, valid)
        &&& forall|k2: Dispersal| k2 != k ==> #[trigger] after.gatherer(k2) == self.gatherer(k2)
    }

    /// Offers a shard to the gatherer of dispersal `k`.
    fn offer_to(&mut self, k: Dispersal, shard: Vec<u8>, sender: Replica, auth: Vec<u8>, valid: bool)
        requires
            old(self).wf(),
        ensures
            final(self).wf(),
            final(self).same_but_dispersals(*old(self)),
            old(self).gatherer(k).offered(final(self).gatherer(k), shard@, sender, auth@, valid),
            forall|k2: Dispersal| k2 != k ==> #[trigger] final(self).gatherer(k2) == old(self).gatherer(k2),
            forall|k2: Dispersal| #[trigger] final(self).share_sent(k2) == old(self).share_sent(k2),
    {
        match k {
            Dispersal::Proposal => {
                self.propose_gatherer.add_share(shard, sender, auth, valid);
            },
            Dispersal::VoteCert => {
                self.vote_cert_gatherer.add_share(shard, sender, auth, valid);
            },
            Dispersal::Commit => {
                self.commit_gatherer.add_share(shard, sender, auth, valid);
            },
        }
    }

    /// Marks this replica's own shard of dispersal `k` as sent.
    fn mark_sent(&mut self, k: Dispersal)
        requires
            old(self).wf(),
        ensures
            final(self).wf(),
            final(self).same_but_dispersals(*old(self)),
            forall|k2: Dispersal| #[trigger] final(self).gatherer(k2) == old(self).gatherer(k2),
            final(self).share_sent(k),
            forall|k2: Dispersal| k2 != k ==> #[trigger] final(self).share_sent(k2) == old(self).share_sent(k2),
    {
        match k {
            Dispersal::Proposal => { self.propose_share_sent = true; },
            Dispersal::VoteCert => { self.vote_cert_share_sent = true; },
            Dispersal::Commit => { self.commit_share_sent = true; },
        }
    }

    /// Whether this replica has sent its own shard of dispersal `k`.
    pub fn has_sent(&self, k: Dispersal) -> (r: bool)
        ensures
            r == self.share_sent(k),
    {
        match k {
            Dispersal::Proposal => self.propose_share_sent,
            Dispersal::VoteCert => self.vote_cert_share_sent,
            Dispersal::Commit => self.commit_share_sent,
        }
    }

    /// Disperses a payload of dispersal `k` cut into `shards` (slot `i` for
    /// replica `i`) under authenticator `sign`: offers this replica's own shard
    /// to its gatherer (`own_valid` telling whether it verifies), broadcasts
    /// the shard of every other replica and then its own, and marks its own
    /// shard as sent.
    pub fn disperse(&mut self, k: Dispersal, shards: &Vec<Vec<u8>>, sign: &Vec<u8>, own_valid: bool) -> (out: Vec<Outgoing>)
        requires
            old(self).wf(),
            shards@.len() == old(self).num_nodes,
        ensures
            final(self).wf(),
            final(self).same_but_dispersals(*old(self)),
            old(self).gatherer(k).offered(final(self).gatherer(k), shards@[old(self).myid as int]@,
                old(self).myid, sign@, own_valid),
            forall|k2: Dispersal| k2 != k ==> #[trigger] final(self).gatherer(k2) == old(self).gatherer(k2),
            final(self).share_sent(k),
            forall|k2: Dispersal| k2 != k ==> #[trigger] final(self).share_sent(k2) == old(self).share_sent(k2),
            out@.len() == old(self).num_nodes,
            forall|j: int| 0 <= j < old(self).num_nodes ==> (#[trigger] out@[j]).to == Destination::Broadcast
                && is_deliver(out@[j].msg, k, shards@[slot_order(old(self).myid, old(self).num_nodes, j) as int]@,
                    slot_order(old(self).myid, old(self).num_nodes, j), sign@),
    {
        let myid = self.myid;
        let n = self.num_nodes;
        self.offer_to(k, copy_bytes(&shards[myid as usize]), myid, copy_bytes(sign), own_valid);
        let mut out: Vec<Outgoing> = Vec::new();
        let mut i: u16 = 0;
        while i < n
            invariant
                i <= n,
                n == old(self).num_nodes,
                myid == old(self).myid,
                myid < n,
                shards@.len() == n,
                out@.len() == (if i > myid { i - 1 } else { i as int }),
                forall|j: int| 0 <= j < out@.len() ==> (#[trigger] out@[j]).to == Destination::Broadcast
                    && is_deliver(out@[j].msg, k, shards@[slot_order(myid, n, j) as int]@, slot_order(myid, n, j), sign@),
            decreases n - i,
        {
            if i != myid {
                let m = deliver_msg(k, copy_bytes(&shards[i as usize]), i, copy_bytes(sign));
                out.push(Outgoing { to: Destination::Broadcast, msg: m });
            }
            i = i + 1;
        }
        let m = deliver_msg(k, copy_bytes(&shards[myid as usize]), myid, copy_bytes(sign));
        out.push(Outgoing { to: Destination::Broadcast, msg: m });
        self.mark_sent(k);
        out
    }

    /// Handles a shard message of dispersal `k` carrying `shard` for slot
    /// `target` under authenticator `sign`; `valid` tells whether the shard
    /// verifies under the dispersal author's keys. The first time this
    /// replica's own slot arrives it broadcasts that shard, once; then the
    /// shard is offered to the gatherer under its slot.
    pub fn on_deliver(&mut self, k: Dispersal, shard: Vec<u8>, target: Replica, sign: Vec<u8>, valid: bool) -> (r: Option<Outgoing>)
        requires
            old(self).wf(),
        ensures
            final(self).wf(),
            old(self).deliver_step(*final(self), k, shard@, target, sign@, valid, r),
            r is Some <==> !old(self).share_sent(k) && target == old(self).myid,
            r is Some ==> r->0.to == Destination::Broadcast && is_deliver(r->0.msg, k, shard@, old(self).myid, sign@),
            final(self).share_sent(k) == (old(self).share_sent(k) || target == old(self).myid),
            forall|k2: Dispersal| k2 != k ==> #[trigger] final(self).share_sent(k2) == old(self).share_sent(k2),
            old(self).gatherer(k).offered(final(self).gatherer(k), shard@, target, sign@, valid),
            forall|k2: Dispersal| k2 != k ==> #[trigger] final(self).gatherer(k2) == old(self).gatherer(k2),
    {
        let mut r: Option<Outgoing> = None;
        if !self.has_sent(k) && target == self.myid {
            let m = deliver_msg(k, copy_bytes(&shard), self.myid, copy_bytes(&sign));
            r = Some(Outgoing { to: Destination::Broadcast, msg: m });
            self.mark_sent(k);
        }
        self.offer_to(k, shard, target, sign, valid);
        r
    }

    /// Whether the beacon commitments of the next leader have just become
    /// recoverable: the commitment gatherer holds exactly `n - f` shards.
    pub fn commit_complete(&self) -> (r: bool)
        ensures
            r == (self.commit_gatherer.entries().len() == self.num_nodes - self.num_faults),
    {
        self.num_faults <= self.num_nodes
            && self.commit_gatherer.shard_num() == (self.num_nodes - self.num_faults) as usize
    }

    /// The acknowledgement of the next leader's beacon commitments, whose
    /// digest is `digest`, signed by this replica with `auth`; `None` when this
    /// replica is the next leader itself.
    pub fn ack_commit(&self, digest: Vec<u8>, auth: Vec<u8>) -> (r: Option<Outgoing>)
        requires
            self.wf(),
        ensures
            r is Some <==> self.myid != self.succ(self.last_leader),
            r is Some ==> r->0.to == Destination::To(self.succ(self.last_leader)) && match r->0.msg {
                ProtocolMsg::Ack(v) => v@ == (VoteModel { msg: digest@, origin: self.myid, auth: auth@ }),
                _ => false,
            },
    {
        let next = self.next_leader();
        if self.myid == next {
            return None;
        }
        Some(Outgoing { to: Destination::To(next), msg: ProtocolMsg::Ack(Vote { msg: digest, origin: self.myid, auth }) })
    }
}

/// A replica sends its own shard of a dispersal at most once: after a shard
/// message for its own slot has been handled, handling any further shard
/// message of that dispersal rebroadcasts nothing and keeps the shard marked
/// as sent.
pub proof fn lemma_dispersal_idempotent(
    c0: Context,
    c1: Context,
    c2: Context,
    k: Dispersal,
    first: (Seq<u8>, Seq<u8>, bool, Option<Outgoing>),
    then: (Seq<u8>, Replica, Seq<u8>, bool, Option<Outgoing>),
)
    requires
        c0.deliver_step(c1, k, first.0, c0.myid, first.1, first.2, first.3),
        c1.deliver_step(c2, k, then.0, then.1, then.2, then.3, then.4),
    ensures
        then.4 is None,
        c2.share_sent(k),
{
}

} // verus!
