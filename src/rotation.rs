//! The certificate path to Commit and the End phase: beacon shares, leader
//! rotation, staging of the next leader's beacon dispersal.
use vstd::prelude::*;
use crate::beacon::{current_prefix, stale_prefix};
use crate::context::{append_at, pop_front_at, queues_view, take_epoch_at, Context};
use crate::dispersal::slot_order;

use crate::msg::{is_deliver, Destination, Dispersal, Outgoing, ProtocolMsg};
use crate::phase::{within_epoch, Deadline, Phase, MAX_EPOCH};
use crate::types::{bytes_view, copy_byte_list, copy_bytes, Certificate, Replica};

verus! {

/// The shares of epoch `e` that `take_epoch` hands out of queue `s`.
pub open spec fn epoch_shares(s: Seq<(Seq<u8>, int)>, e: int) -> Seq<Seq<u8>> {
    let k = stale_prefix(s, e) as int;
    let m = current_prefix(s.skip(k), e) as int;
    s.subrange(k, k + m).map_values(|x: (Seq<u8>, int)| x.0)
}

/// What queue `s` holds once the shares up to epoch `e` are taken out.
pub open spec fn after_epoch(s: Seq<(Seq<u8>, int)>, e: int) -> Seq<(Seq<u8>, int)> {
    let k = stale_prefix(s, e) as int;
    let m = current_prefix(s.skip(k), e) as int;
    s.skip(k + m)
}

/// The shares revealed at End from queues `qs[0..n]`: the oldest share of
/// each non-empty queue, with its author, in order of author.
pub open spec fn reveal_plan(qs: Seq<Seq<(Seq<u8>, int)>>, n: nat) -> Seq<(Replica, Seq<u8>)>
    decreases n,
{
    if n == 0 {
        Seq::empty()
    } else if qs[n - 1].len() > 0 {
        reveal_plan(qs, (n - 1) as nat).push(((n - 1) as Replica, qs[n - 1][0].0))
    } else {
        reveal_plan(qs, (n - 1) as nat)
    }
}

impl Context {
    /// Handles the certificate `c` of the epoch with its dispersal
    /// authenticator `sign`, whether it came in a `VoteCert` message or this
    /// leader formed it (`announce`, in which case it is broadcast first):
    /// keeps both, disperses `c` cut into `shards`, and moves to Commit, two
    /// quanta from now.
    pub fn on_vote_cert(&mut self, c: Certificate, sign: Vec<u8>, shards: &Vec<Vec<u8>>, own_valid: bool, announce: bool)
        -> (r: (Vec<Outgoing>, Deadline))
        requires
            old(self).wf(),
            old(self).epoch >= 1,
            shards@.len() == old(self).num_nodes,
        ensures
            final(self).wf(),
            final(self).keeps_epoch_state(*old(self)),
            final(self).phase == Phase::Commit,
            r.1 == Deadline::FromNow(2),
            final(self).received_certificate is Some && final(self).received_certificate->0@ == c@,
            final(self).received_certificate_sign is Some && final(self).received_certificate_sign->0@ == sign@,
            final(self).vote_cert_share_sent,
            ({
                let a: int = if announce { 1 } else { 0 };
                &&& r.0@.len() == old(self).num_nodes + a
                &&& announce ==> r.0@[0].to == Destination::Broadcast && match r.0@[0].msg {
                    ProtocolMsg::VoteCert(q, z) => q@ == c@ && z@ == sign@,
                    _ => false,
                }
                &&& forall|j: int| 0 <= j < old(self).num_nodes ==> (#[trigger] r.0@[j + a]).to == Destination::Broadcast
                    && is_deliver(r.0@[j + a].msg, Dispersal::VoteCert,
                        shards@[slot_order(old(self).myid, old(self).num_nodes, j) as int]@,
                        slot_order(old(self).myid, old(self).num_nodes, j), sign@)
            }),
    {
        let mut out: Vec<Outgoing> = Vec::new();
        if announce {
            out.push(Outgoing { to: Destination::Broadcast, msg: ProtocolMsg::VoteCert(c.copy(), copy_bytes(&sign)) });
        }
        let s2 = copy_bytes(&sign);
        self.received_certificate = Some(c);
        self.received_certificate_sign = Some(sign);
        let ghost head = out@;
        let mut rest = self.disperse(Dispersal::VoteCert, shards, &s2, own_valid);
        let ghost tail = rest@;
        out.append(&mut rest);
        assert(out@ == head + tail);
        self.phase = Phase::Commit;
        (out, Deadline::FromNow(2))
    }

    /// First step of End: from each author's queue of received beacon
    /// shares, drops those for earlier epochs and takes those for the current
    /// one. Slot `i` of the result holds author `i`'s shares if there are at
    /// least `n - f` of them, enough to reconstruct its secret.
    pub fn take_beacon_shares(&mut self) -> (r: Vec<Option<Vec<Vec<u8>>>>)
        requires
            old(self).wf(),
        ensures
            final(self).wf(),
            *final(self) == (Context { reconstruct_queue: final(self).reconstruct_queue, ..*old(self) }),
            final(self).reconstruct_queue@.len() == old(self).num_nodes,
            r@.len() == old(self).num_nodes,
            forall|i: int| 0 <= i < old(self).num_nodes ==> (#[trigger] final(self).reconstruct_queue@[i])@
                == after_epoch(old(self).reconstruct_queue@[i]@, old(self).epoch as int),
            forall|i: int| 0 <= i < old(self).num_nodes ==> (#[trigger] r@[i] is Some
                <==> epoch_shares(old(self).reconstruct_queue@[i]@, old(self).epoch as int).len()
                    >= old(self).num_nodes - old(self).num_faults),
            forall|i: int| 0 <= i < old(self).num_nodes && #[trigger] r@[i] is Some ==> bytes_view(r@[i]->0@)
                == epoch_shares(old(self).reconstruct_queue@[i]@, old(self).epoch as int),
    {
        let n = self.num_nodes;
        let e = self.epoch;
        let mut out: Vec<Option<Vec<Vec<u8>>>> = Vec::new();
        let mut i: u16 = 0;
        while i < n
            invariant
                i <= n,
                n == old(self).num_nodes,
                e == old(self).epoch,
                self.wf(),
                *self == (Context { reconstruct_queue: self.reconstruct_queue, ..*old(self) }),
                out@.len() == i,
                forall|j: int| i <= j < n ==> (#[trigger] self.reconstruct_queue@[j])@ == old(self).reconstruct_queue@[j]@,
                forall|j: int| 0 <= j < i ==> (#[trigger] self.reconstruct_queue@[j])@
                    == after_epoch(old(self).reconstruct_queue@[j]@, e as int),
                forall|j: int| 0 <= j < i ==> (#[trigger] out@[j] is Some
                    <==> epoch_shares(old(self).reconstruct_queue@[j]@, e as int).len() >= n - old(self).num_faults),
                forall|j: int| 0 <= j < i && #[trigger] out@[j] is Some ==> bytes_view(out@[j]->0@)
                    == epoch_shares(old(self).reconstruct_queue@[j]@, e as int),
            decreases n - i,
        {
            let shares = take_epoch_at(&mut self.reconstruct_queue, i as usize, e);
            let enough = (self.num_faults as usize) >= (n as usize) || shares.len() >= (n - self.num_faults) as usize;
            out.push(if enough { Some(shares) } else { None });
            i = i + 1;
        }
        out
    }

    /// Second step of End: the leader rotates and the epoch advances. The
    /// gatherers, the received votes and the flags of sent shares are reset.
    /// A replica that does not lead the new epoch sends the certificate of the
    /// last block it saw to the new leader and waits in DeliverPropose until 7
    /// quanta into the epoch; the new leader goes to Propose, two quanta from
    /// now. The flag returned tells whether this replica leads the epoch after
    /// the new one, and so must stage its beacon dispersal now.
    pub fn end_phase(&mut self) -> (r: (Vec<Outgoing>, Deadline, bool))
        requires
            old(self).wf(),
            old(self).phase == Phase::End,
            old(self).epoch < MAX_EPOCH,
        ensures
            final(self).wf(),
            final(self).last_leader == old(self).succ(old(self).last_leader),
            final(self).epoch == old(self).epoch + 1,
            final(self).propose_gatherer.entries().len() == 0 && final(self).propose_gatherer.authenticator() is None,
            final(self).vote_cert_gatherer.entries().len() == 0 && final(self).vote_cert_gatherer.authenticator() is None,
            final(self).commit_gatherer.entries().len() == 0 && final(self).commit_gatherer.authenticator() is None,
            final(self).received_vote@.len() == 0,
            !final(self).propose_share_sent && !final(self).vote_cert_share_sent && !final(self).commit_share_sent,
            final(self).highest_cert == old(self).highest_cert,
            final(self).highest_height == old(self).highest_height,
            final(self).storage == old(self).storage,
            final(self).num_nodes == old(self).num_nodes,
            final(self).num_faults == old(self).num_faults,
            final(self).myid == old(self).myid,
            final(self).reconstruct_queue == old(self).reconstruct_queue,
            final(self).rand_beacon_queue == old(self).rand_beacon_queue,
            final(self).received_ack == old(self).received_ack,
            final(self).commits == old(self).commits,
            final(self).is_leader() ==> {
                &&& final(self).phase == Phase::Propose
                &&& r.1 == Deadline::FromNow(2)
                &&& r.0@.len() == 0
                &&& !r.2
            },
            !final(self).is_leader() ==> {
                &&& final(self).phase == Phase::DeliverPropose
                &&& r.1 == Deadline::SinceBegin((11 * old(self).epoch + 7) as u64)
                &&& r.0@.len() == 1
                &&& r.0@[0].to == Destination::To(final(self).last_leader)
                &&& (match r.0@[0].msg {
                    ProtocolMsg::Certificate(c) => c@ == old(self).last_seen_certificate@,
                    _ => false,
                })
                &&& r.2 == (old(self).myid == final(self).succ(final(self).last_leader))
            },
    {
        self.last_leader = self.next_leader();
        self.epoch = self.epoch + 1;
        self.propose_gatherer.clear();
        self.vote_cert_gatherer.clear();
        self.commit_gatherer.clear();
        self.received_vote = Vec::new();
        self.propose_share_sent = false;
        self.vote_cert_share_sent = false;
        self.commit_share_sent = false;
        let mut out: Vec<Outgoing> = Vec::new();
        if self.myid != self.last_leader {
            out.push(Outgoing {
                to: Destination::To(self.last_leader),
                msg: ProtocolMsg::Certificate(self.last_seen_certificate.copy()),
            });
            self.phase = Phase::DeliverPropose;
            let stage = self.myid == self.next_leader();
            (out, within_epoch(self.epoch, 7), stage)
        } else {
            self.phase = Phase::Propose;
            (out, Deadline::FromNow(2), false)
        }
    }

    /// Third step of End, for the replica that leads the epoch after the new
    /// one: stages its beacon dispersal. `shares[j]` holds the shares for
    /// replica `j` of each of the `n` fresh polynomials, `commits` their
    /// commitments and `sign` the dispersal authenticator over them. Keeps its
    /// own shares for revealing later, sends every other replica its shares
    /// with the commitments, and keeps the commitments for its next block and
    /// for the DeliverCommit dispersal.
    pub fn stage_commit(&mut self, shares: &Vec<Vec<Vec<u8>>>, commits: Vec<Vec<u8>>, sign: Vec<u8>) -> (out: Vec<Outgoing>)
        requires
            old(self).wf(),
            shares@.len() == old(self).num_nodes,
        ensures
            final(self).wf(),
            *final(self) == (Context {
                rand_beacon_queue: final(self).rand_beacon_queue,
                commits: final(self).commits,
                received_commit: final(self).received_commit,
                received_commit_sign: final(self).received_commit_sign,
                ..*old(self)
            }),
            bytes_view(final(self).commits@) == bytes_view(commits@),
            final(self).received_commit is Some && bytes_view(final(self).received_commit->0@) == bytes_view(commits@),
            final(self).received_commit_sign is Some && final(self).received_commit_sign->0@ == sign@,
            final(self).rand_beacon_queue@.len() == old(self).num_nodes,
            forall|j: int| 0 <= j < old(self).num_nodes && j != old(self).myid ==>
                (#[trigger] final(self).rand_beacon_queue@[j])@ == old(self).rand_beacon_queue@[j]@,
            final(self).rand_beacon_queue@[old(self).myid as int]@ == old(self).rand_beacon_queue@[old(self).myid as int]@
                + shares@[old(self).myid as int]@.map_values(|x: Vec<u8>| (x@, old(self).epoch as int)),
            out@.len() == old(self).num_nodes - 1,
            forall|j: int| 0 <= j < old(self).num_nodes - 1 ==> {
                let t = slot_order(old(self).myid, old(self).num_nodes, j);
                &&& (#[trigger] out@[j]).to == Destination::To(t)
                &&& match out@[j].msg {
                    ProtocolMsg::Commit(s, c, z) => bytes_view(s@) == bytes_view(shares@[t as int]@)
                        && bytes_view(c@) == bytes_view(commits@) && z@ == sign@,
                    _ => false,
                }
            },
    {
        let myid = self.myid;
        let n = self.num_nodes;
        let own = copy_byte_list(&shares[myid as usize]);
        proof {
            let f = |x: Vec<u8>| (x@, old(self).epoch as int);
            assert forall|j: int| 0 <= j < own@.len() implies own@[j]@ == shares@[myid as int]@[j]@ by {
                assert(bytes_view(own@)[j] == bytes_view(shares@[myid as int]@)[j]);
            }
            assert(own@.map_values(f) =~= shares@[myid as int]@.map_values(f));
        }
        append_at(&mut self.rand_beacon_queue, myid as usize, own, self.epoch);
        let mut out: Vec<Outgoing> = Vec::new();
        let mut i: u16 = 0;
        while i < n
            invariant
                i <= n,
                n == old(self).num_nodes,
                myid == old(self).myid,
                myid < n,
                shares@.len() == n,
                out@.len() == (if i > myid { i - 1 } else { i as int }),
                forall|j: int| 0 <= j < out@.len() ==> {
                    let t = slot_order(myid, n, j);
                    &&& (#[trigger] out@[j]).to == Destination::To(t)
                    &&& match out@[j].msg {
                        ProtocolMsg::Commit(s, c, z) => bytes_view(s@) == bytes_view(shares@[t as int]@)
                            && bytes_view(c@) == bytes_view(commits@) && z@ == sign@,
                        _ => false,
                    }
                },
            decreases n - i,
        {
            if i != myid {
                out.push(Outgoing {
                    to: Destination::To(i),
                    msg: ProtocolMsg::Commit(copy_byte_list(&shares[i as usize]), copy_byte_list(&commits), copy_bytes(&sign)),
                });
            }
            i = i + 1;
        }
        self.commits = copy_byte_list(&commits);
        self.received_commit = Some(commits);
        self.received_commit_sign = Some(sign);
        out
    }

    /// Last step of End: reveals the oldest pending beacon share of each
    /// author, broadcasting it for the (new) current epoch.
    pub fn reveal_shares(&mut self) -> (out: Vec<Outgoing>)
        requires
            old(self).wf(),
        ensures
            final(self).wf(),
            *final(self) == (Context { rand_beacon_queue: final(self).rand_beacon_queue, ..*old(self) }),
            final(self).rand_beacon_queue@.len() == old(self).num_nodes,
            forall|i: int| 0 <= i < old(self).num_nodes ==> (#[trigger] final(self).rand_beacon_queue@[i])@
                == if old(self).rand_beacon_queue@[i]@.len() > 0 {
                    old(self).rand_beacon_queue@[i]@.drop_first()
                } else {
                    old(self).rand_beacon_queue@[i]@
                },
            ({
                let plan = reveal_plan(queues_view(old(self).rand_beacon_queue@), old(self).num_nodes as nat);
                &&& out@.len() == plan.len()
                &&& forall|j: int| 0 <= j < plan.len() ==> (#[trigger] out@[j]).to == Destination::Broadcast
                    && match out@[j].msg {
                        ProtocolMsg::Reconstruct(s, a, e) => s@ == plan[j].1 && a == plan[j].0 && e == old(self).epoch,
                        _ => false,
                    }
            }),
    {
        let n = self.num_nodes;
        let ghost qs = queues_view(old(self).rand_beacon_queue@);
        let mut out: Vec<Outgoing> = Vec::new();
        let mut i: u16 = 0;
        while i < n
            invariant
                i <= n,
                n == old(self).num_nodes,
                qs == queues_view(old(self).rand_beacon_queue@),
                qs.len() == n,
                self.wf(),
                *self == (Context { rand_beacon_queue: self.rand_beacon_queue, ..*old(self) }),
                forall|j: int| i <= j < n ==> (#[trigger] self.rand_beacon_queue@[j])@ == old(self).rand_beacon_queue@[j]@,
                forall|j: int| 0 <= j < i ==> (#[trigger] self.rand_beacon_queue@[j])@
                    == if qs[j].len() > 0 { qs[j].drop_first() } else { qs[j] },
                out@.len() == reveal_plan(qs, i as nat).len(),
                forall|j: int| 0 <= j < out@.len() ==> (#[trigger] out@[j]).to == Destination::Broadcast
                    && match out@[j].msg {
                        ProtocolMsg::Reconstruct(s, a, e) => s@ == reveal_plan(qs, i as nat)[j].1
                            && a == reveal_plan(qs, i as nat)[j].0 && e == old(self).epoch,
                        _ => false,
                    },
            decreases n - i,
        {
            let ghost before = out@;
            match pop_front_at(&mut self.rand_beacon_queue, i as usize) {
                Some(s) => {
                    out.push(Outgoing { to: Destination::Broadcast, msg: ProtocolMsg::Reconstruct(s, i, self.epoch) });
                },
                None => {},
            }
            assert(qs[i as int] == old(self).rand_beacon_queue@[i as int]@);
            i = i + 1;
        }
        out
    }
}

} // verus!
