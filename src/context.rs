//! The consensus state one replica owns.
use vstd::prelude::*;
use crate::beacon::ShareQueue;
use crate::gatherer::Gatherer;
use crate::msg::Dispersal;
use crate::phase::{Phase, MAX_EPOCH};
use crate::store::Storage;
use crate::types::{Block, Certificate, Height, Propose, Replica, Vote, HASH_LEN};

verus! {

/// The values of a list of share queues.
pub open spec fn queues_view(qs: Seq<ShareQueue>) -> Seq<Seq<(Seq<u8>, int)>> {
    qs.map_values(|q: ShareQueue| q@)
}

/// Everything one replica knows about the run: its place in the committee,
/// the committed chain, the epoch and phase it is in, and what it gathered
/// during the epoch.
pub struct Context {
    pub num_nodes: u16,
    pub num_faults: u16,
    pub myid: Replica,
    pub storage: Storage,
    pub last_leader: Replica,
    pub epoch: Height,
    pub phase: Phase,
    /// The certificate of the last block this replica saw, which it hands to
    /// each new leader.
    pub last_seen_certificate: Certificate,
    pub highest_cert: Certificate,
    pub highest_height: Height,
    pub received_propose: Option<Propose>,
    pub received_propose_sign: Option<Vec<u8>>,
    pub received_certificate: Option<Certificate>,
    pub received_certificate_sign: Option<Vec<u8>>,
    pub received_commit: Option<Vec<Vec<u8>>>,
    pub received_commit_sign: Option<Vec<u8>>,
    pub received_vote: Vec<Vote>,
    pub received_ack: Vec<Vote>,
    pub propose_gatherer: Gatherer,
    pub vote_cert_gatherer: Gatherer,
    pub commit_gatherer: Gatherer,
    pub propose_share_sent: bool,
    pub vote_cert_share_sent: bool,
    pub commit_share_sent: bool,
    /// Per author, the beacon shares received for reconstruction.
    pub reconstruct_queue: Vec<ShareQueue>,
    /// Per author, this replica's own beacon shares still to be revealed.
    pub rand_beacon_queue: Vec<ShareQueue>,
    /// The beacon commitments this replica staged as next leader.
    pub commits: Vec<Vec<u8>>,
}

impl Context {
    /// The state is consistent: the committee is not empty, identities are in
    /// range, there is one queue per author and no gatherer double-counts.
    pub open spec fn wf(&self) -> bool {
        &&& self.num_nodes > 0
        &&& self.myid < self.num_nodes
        &&& self.last_leader < self.num_nodes
        &&& 0 <= self.epoch <= MAX_EPOCH
        &&& self.phase != Phase::End ==> self.epoch >= 1
        &&& self.reconstruct_queue@.len() == self.num_nodes
        &&& self.rand_beacon_queue@.len() == self.num_nodes
        &&& self.propose_gatherer.wf()
        &&& self.vote_cert_gatherer.wf()
        &&& self.commit_gatherer.wf()
    }

    /// The committee, the chain, the epoch, its leader and the highest
    /// certificate are as in `old`.
    pub open spec fn keeps_epoch_state(self, old: Context) -> bool {
        &&& self.num_nodes == old.num_nodes
        &&& self.num_faults == old.num_faults
        &&& self.myid == old.myid
        &&& self.storage == old.storage
        &&& self.last_leader == old.last_leader
        &&& self.epoch == old.epoch
        &&& self.highest_cert == old.highest_cert
        &&& self.highest_height == old.highest_height
    }

    /// The replica after `r` in the rotation.
    pub open spec fn succ(&self, r: Replica) -> Replica {
        ((r + 1) % (self.num_nodes as int)) as Replica
    }

    /// Whether this replica leads the current epoch.
    pub open spec fn is_leader(&self) -> bool {
        self.myid == self.last_leader
    }

    /// The gatherer of dispersal `k`.
    pub open spec fn gatherer(&self, k: Dispersal) -> Gatherer {
        match k {
            Dispersal::Proposal => self.propose_gatherer,
            Dispersal::VoteCert => self.vote_cert_gatherer,
            Dispersal::Commit => self.commit_gatherer,
        }
    }

    /// Whether this replica has sent its own shard of dispersal `k`.
    pub open spec fn share_sent(&self, k: Dispersal) -> bool {
        match k {
            Dispersal::Proposal => self.propose_share_sent,
            Dispersal::VoteCert => self.vote_cert_share_sent,
            Dispersal::Commit => self.commit_share_sent,
        }
    }

    /// The state at boot: epoch 0 in phase End, replica 0 (the author of
    /// genesis) as the last leader, no certificate known, and a store holding
    /// only the genesis block, whose hash is `genesis_hash`.
    pub fn new(num_nodes: u16, num_faults: u16, myid: Replica, genesis_hash: Vec<u8>) -> (r: Context)
        requires
            num_nodes > 0,
            myid < num_nodes,
        ensures
            r.wf(),
            r.num_nodes == num_nodes,
            r.num_faults == num_faults,
            r.myid == myid,
            r.epoch == 0,
            r.phase == Phase::End,
            r.last_leader == 0,
            r.highest_height == -1,
            r.highest_cert@.len() == 0,
            r.last_seen_certificate@.len() == 0,
            r.storage@.len() == 1,
            r.storage@[0].height == 0,
            r.storage@[0].author == 0,
            r.storage@[0].hash == genesis_hash@,
            r.storage@[0].prev == Seq::new(HASH_LEN as nat, |i: int| 0u8),
            r.received_propose is None,
            r.received_certificate is None,
            r.received_commit is None,
            r.received_vote@.len() == 0,
            r.received_ack@.len() == 0,
            !r.propose_share_sent && !r.vote_cert_share_sent && !r.commit_share_sent,
            r.propose_gatherer.entries().len() == 0,
            r.vote_cert_gatherer.entries().len() == 0,
            r.commit_gatherer.entries().len() == 0,
            forall|i: int| 0 <= i < num_nodes ==> (#[trigger] r.reconstruct_queue@[i])@.len() == 0,
            forall|i: int| 0 <= i < num_nodes ==> (#[trigger] r.rand_beacon_queue@[i])@.len() == 0,
    {
        let mut storage = Storage::new();
        storage.insert(Block::genesis(genesis_hash));
        let mut reconstruct_queue: Vec<ShareQueue> = Vec::new();
        let mut rand_beacon_queue: Vec<ShareQueue> = Vec::new();
        let mut i: u16 = 0;
        while i < num_nodes
            invariant
                i <= num_nodes,
                reconstruct_queue@.len() == i,
                rand_beacon_queue@.len() == i,
                forall|j: int| 0 <= j < i ==> (#[trigger] reconstruct_queue@[j])@.len() == 0,
                forall|j: int| 0 <= j < i ==> (#[trigger] rand_beacon_queue@[j])@.len() == 0,
            decreases num_nodes - i,
        {
            reconstruct_queue.push(ShareQueue::new());
            rand_beacon_queue.push(ShareQueue::new());
            i = i + 1;
        }
        Context {
            num_nodes,
            num_faults,
            myid,
            storage,
            last_leader: 0,
            epoch: 0,
            phase: Phase::End,
            last_seen_certificate: Certificate::empty_cert(),
            highest_cert: Certificate::empty_cert(),
            highest_height: -1,
            received_propose: None,
            received_propose_sign: None,
            received_certificate: None,
            received_certificate_sign: None,
            received_commit: None,
            received_commit_sign: None,
            received_vote: Vec::new(),
            received_ack: Vec::new(),
            propose_gatherer: Gatherer::new(),
            vote_cert_gatherer: Gatherer::new(),
            commit_gatherer: Gatherer::new(),
            propose_share_sent: false,
            vote_cert_share_sent: false,
            commit_share_sent: false,
            reconstruct_queue,
            rand_beacon_queue,
            commits: Vec::new(),
        }
    }

    /// The leader of the epoch after the current one.
    pub fn next_leader(&self) -> (r: Replica)
        requires
            self.num_nodes > 0,
        ensures
            r == self.succ(self.last_leader),
            r < self.num_nodes,
    {
        self.next_of(self.last_leader)
    }

    /// The replica after `prev` in the rotation.
    pub fn next_of(&self, prev: Replica) -> (r: Replica)
        requires
            self.num_nodes > 0,
        ensures
            r == self.succ(prev),
            r < self.num_nodes,
    {
        (((prev as u32) + 1) % (self.num_nodes as u32)) as u16
    }
}

/// Offers `share` for epoch `e` to queue `i` of `qs`, leaving the others alone.
pub fn offer_at(qs: &mut Vec<ShareQueue>, i: usize, share: Vec<u8>, e: Height) -> (accepted: bool)
    requires
        i < old(qs)@.len(),
    ensures
        final(qs)@.len() == old(qs)@.len(),
        forall|j: int| 0 <= j < old(qs)@.len() && j != i ==> (#[trigger] final(qs)@[j])@ == old(qs)@[j]@,
        accepted == (old(qs)@[i as int]@.len() == 0 || e >= old(qs)@[i as int]@.last().1),
        accepted ==> final(qs)@[i as int]@ == old(qs)@[i as int]@.push((share@, e as int)),
        !accepted ==> final(qs)@[i as int]@ == old(qs)@[i as int]@,
{
    let mut q = qs.remove(i);
    let accepted = q.offer(share, e);
    qs.insert(i, q);
    accepted
}

/// Queues each of `shares` for epoch `e` in queue `i` of `qs`, in order,
/// leaving the others alone.
pub fn append_at(qs: &mut Vec<ShareQueue>, i: usize, shares: Vec<Vec<u8>>, e: Height)
    requires
        i < old(qs)@.len(),
    ensures
        final(qs)@.len() == old(qs)@.len(),
        forall|j: int| 0 <= j < old(qs)@.len() && j != i ==> (#[trigger] final(qs)@[j])@ == old(qs)@[j]@,
        final(qs)@[i as int]@ == old(qs)@[i as int]@ + shares@.map_values(|x: Vec<u8>| (x@, e as int)),
{
    let mut q = qs.remove(i);
    let ghost start = q@;
    let mut k: usize = 0;
    while k < shares.len()
        invariant
            k <= shares@.len(),
            q@ == start + shares@.take(k as int).map_values(|x: Vec<u8>| (x@, e as int)),
        decreases shares@.len() - k,
    {
        q.push_back(crate::types::copy_bytes(&shares[k]), e);
        assert(shares@.take(k as int + 1) =~= shares@.take(k as int).push(shares@[k as int]));
        assert(q@ =~= start + shares@.take(k as int + 1).map_values(|x: Vec<u8>| (x@, e as int)));
        k = k + 1;
    }
    assert(shares@.take(k as int) =~= shares@);
    qs.insert(i, q);
    assert(final(qs)@[i as int]@ == start + shares@.map_values(|x: Vec<u8>| (x@, e as int)));
}

/// Takes the shares for epoch `e` out of queue `i` of `qs`, as
/// `ShareQueue::take_epoch` does, leaving the others alone.
pub fn take_epoch_at(qs: &mut Vec<ShareQueue>, i: usize, e: Height) -> (r: Vec<Vec<u8>>)
    requires
        i < old(qs)@.len(),
    ensures
        final(qs)@.len() == old(qs)@.len(),
        forall|j: int| 0 <= j < old(qs)@.len() && j != i ==> (#[trigger] final(qs)@[j])@ == old(qs)@[j]@,
        ({
            let s = old(qs)@[i as int]@;
            let k = crate::beacon::stale_prefix(s, e as int) as int;
            let m = crate::beacon::current_prefix(s.skip(k), e as int) as int;
            &&& k + m <= s.len()
            &&& crate::types::bytes_view(r@) == s.subrange(k, k + m).map_values(|x: (Seq<u8>, int)| x.0)
            &&& final(qs)@[i as int]@ == s.skip(k + m)
        }),
{
    let mut q = qs.remove(i);
    let r = q.take_epoch(e);
    qs.insert(i, q);
    r
}

/// Takes the oldest share out of queue `i` of `qs`, leaving the others alone.
pub fn pop_front_at(qs: &mut Vec<ShareQueue>, i: usize) -> (r: Option<Vec<u8>>)
    requires
        i < old(qs)@.len(),
    ensures
        final(qs)@.len() == old(qs)@.len(),
        forall|j: int| 0 <= j < old(qs)@.len() && j != i ==> (#[trigger] final(qs)@[j])@ == old(qs)@[j]@,
        old(qs)@[i as int]@.len() == 0 ==> r is None && final(qs)@[i as int]@ == old(qs)@[i as int]@,
        old(qs)@[i as int]@.len() > 0 ==> r is Some && r->0@ == old(qs)@[i as int]@[0].0
            && final(qs)@[i as int]@ == old(qs)@[i as int]@.drop_first(),
{
    let mut q = qs.remove(i);
    let r = q.pop_front();
    qs.insert(i, q);
    r
}

} // verus!
