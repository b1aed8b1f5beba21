//! Receiver side of one erasure-coded dispersal: collects verified shards from
//! distinct senders under one authenticator until a quorum is reached.
use vstd::prelude::*;
use crate::types::{bytes_eq, copy_bytes, Replica};

verus! {

/// The shard that `r` contributed, looking at the last entry from `r`.
pub open spec fn shard_from(s: Seq<(Replica, Seq<u8>)>, r: Replica) -> Option<Seq<u8>>
    decreases s.len(),
{
    if s.len() == 0 {
        None
    } else if s.last().0 == r {
        Some(s.last().1)
    } else {
        shard_from(s.drop_last(), r)
    }
}

/// The slots handed to the shard codec: slot `i` holds the shard of replica `i`.
pub open spec fn slots_of(s: Seq<(Replica, Seq<u8>)>, n: nat) -> Seq<Option<Seq<u8>>> {
    Seq::new(n, |i: int| shard_from(s, i as Replica))
}

/// One shard offered to a gatherer: the shard, the slot it is for, the
/// authenticator it came with, and whether it verified.
pub struct Offer {
    pub shard: Seq<u8>,
    pub sender: Replica,
    pub auth: Seq<u8>,
    pub valid: bool,
}

/// The offers among `offers` that verified under authenticator `a`, as
/// (slot, shard) entries, in order.
pub open spec fn kept(offers: Seq<Offer>, a: Seq<u8>) -> Seq<(Replica, Seq<u8>)>
    decreases offers.len(),
{
    if offers.len() == 0 {
        Seq::empty()
    } else {
        let o = offers.last();
        let p = kept(offers.drop_last(), a);
        if o.valid && o.auth == a {
            p.push((o.sender, o.shard))
        } else {
            p
        }
    }
}

/// No slot occurs twice in `e`.
pub open spec fn distinct_slots(e: Seq<(Replica, Seq<u8>)>) -> bool {
    forall|i: int, j: int| 0 <= i < j < e.len() ==> (#[trigger] e[i]).0 != (#[trigger] e[j]).0
}

proof fn lemma_kept_prefix(offers: Seq<Offer>, a: Seq<u8>, k: int)
    requires
        0 <= k <= offers.len(),
    ensures
        kept(offers.take(k), a).len() <= kept(offers, a).len(),
        kept(offers.take(k), a) == kept(offers, a).take(kept(offers.take(k), a).len() as int),
    decreases offers.len(),
{
    if k == offers.len() {
        assert(offers.take(k) =~= offers);
        assert(kept(offers, a).take(kept(offers, a).len() as int) =~= kept(offers, a));
    } else {
        let d = offers.drop_last();
        lemma_kept_prefix(d, a, k);
        assert(d.take(k) =~= offers.take(k));
        let p = kept(d, a);
        let q = kept(offers, a);
        let m = kept(offers.take(k), a).len() as int;
        assert(q.take(m) =~= p.take(m));
    }
}

/// Accumulates the shards of one dispersal.
pub struct Gatherer {
    shards: Vec<(Replica, Vec<u8>)>,
    authenticator: Option<Vec<u8>>,
}

impl Gatherer {
    /// The accepted shards with their senders, in the order they came.
    pub closed spec fn entries(&self) -> Seq<(Replica, Seq<u8>)> {
        self.shards@.map_values(|e: (Replica, Vec<u8>)| (e.0, e.1@))
    }

    /// The authenticator of the dispersal, fixed by the first share offered.
    pub closed spec fn authenticator(&self) -> Option<Seq<u8>> {
        match self.authenticator {
            Some(a) => Some(a@),
            None => None,
        }
    }

    /// Whether `r` has contributed a shard.
    pub open spec fn contributed(&self, r: Replica) -> bool {
        exists|i: int| 0 <= i < self.entries().len() && (#[trigger] self.entries()[i]).0 == r
    }

    /// No sender is counted twice.
    pub open spec fn wf(&self) -> bool {
        forall|i: int, j: int|
            0 <= i < j < self.entries().len() ==> (#[trigger] self.entries()[i]).0 != (#[trigger] self.entries()[j]).0
    }

    /// An empty gatherer.
    pub fn new() -> (r: Gatherer)
        ensures
            r.wf(),
            r.entries().len() == 0,
            r.authenticator() is None,
    {
        let r = Gatherer { shards: Vec::new(), authenticator: None };
        assert(r.entries() =~= Seq::<(Replica, Seq<u8>)>::empty());
        r
    }

    /// Empties the gatherer for the next epoch.
    pub fn clear(&mut self)
        ensures
            final(self).wf(),
            final(self).entries().len() == 0,
            final(self).authenticator() is None,
    {
        *self = Gatherer::new();
    }

    /// Number of shards accepted so far.
    pub fn shard_num(&self) -> (r: usize)
        ensures
            r == self.entries().len(),
    {
        self.shards.len()
    }

    /// Whether `r` has contributed a shard.
    pub fn has_sender(&self, r: Replica) -> (b: bool)
        ensures
            b == self.contributed(r),
    {
        let mut i: usize = 0;
        while i < self.shards.len()
            invariant
                i <= self.shards@.len(),
                self.entries().len() == self.shards@.len(),
                forall|j: int| 0 <= j < i ==> (#[trigger] self.entries()[j]).0 != r,
            decreases self.shards@.len() - i,
        {
            assert(self.entries()[i as int].0 == self.shards@[i as int].0);
            if self.shards[i].0 == r {
                return true;
            }
            i = i + 1;
        }
        false
    }

    /// `after` is this gatherer once the shard `shard` of `sender` under
    /// authenticator `auth` has been offered, `valid` telling whether the
    /// shard verifies.
    pub open spec fn offered(self, after: Gatherer, shard: Seq<u8>, sender: Replica, auth: Seq<u8>, valid: bool) -> bool {
        let accepted = (self.authenticator() is None || self.authenticator() == Some(auth))
            && valid && !self.contributed(sender);
        &&& after.wf()
        &&& after.authenticator() == (match self.authenticator() {
            None => Some(auth),
            Some(a) => Some(a),
        })
        &&& accepted ==> after.entries() == self.entries().push((sender, shard))
        &&& !accepted ==> after.entries() == self.entries()
    }

    /// Offers the shard `shard` of `sender`, authenticated by `auth`;
    /// `shard_valid` tells whether the shard verifies under `auth` and the
    /// dispersal author's keys. The first offer fixes the authenticator.
    /// The shard is kept only if `auth` is that authenticator, the shard is
    /// valid and `sender` has not contributed yet; otherwise it is dropped.
    pub fn add_share(&mut self, shard: Vec<u8>, sender: Replica, auth: Vec<u8>, shard_valid: bool) -> (accepted: bool)
        requires
            old(self).wf(),
        ensures
            final(self).wf(),
            final(self).authenticator() == (match old(self).authenticator() {
                None => Some(auth@),
                Some(a) => Some(a),
            }),
            accepted == ((old(self).authenticator() is None || old(self).authenticator() == Some(auth@))
                && shard_valid && !old(self).contributed(sender)),
            accepted ==> final(self).entries() == old(self).entries().push((sender, shard@)),
            !accepted ==> final(self).entries() == old(self).entries(),
            accepted ==> final(self).authenticator() == Some(auth@),
            old(self).offered(*final(self), shard@, sender, auth@, shard_valid),
    {
        let same = match &self.authenticator {
            None => true,
            Some(a) => bytes_eq(a, &auth),
        };
        if self.authenticator.is_none() {
            self.authenticator = Some(copy_bytes(&auth));
        }
        if !same || !shard_valid || self.has_sender(sender) {
            return false;
        }
        let ghost before = self.entries();
        self.shards.push((sender, shard));
        assert(self.entries() =~= before.push((sender, shard@)));
        assert forall|i: int, j: int|
            0 <= i < j < self.entries().len() implies (#[trigger] self.entries()[i]).0 != (#[trigger] self.entries()[j]).0 by {
            if j == before.len() {
                assert(before[i].0 == self.entries()[i].0);
            } else {
                assert(before[i] == self.entries()[i] && before[j] == self.entries()[j]);
            }
        }
        true
    }

    /// The shard that `r` contributed, if any.
    pub fn shard_of(&self, r: Replica) -> (s: Option<Vec<u8>>)
        ensures
            match s {
                Some(v) => shard_from(self.entries(), r) == Some(v@),
                None => shard_from(self.entries(), r) is None,
            },
    {
        let mut i: usize = self.shards.len();
        proof {
            assert(self.entries().take(i as int) =~= self.entries());
        }
        while i > 0
            invariant
                i <= self.shards@.len(),
                self.entries().len() == self.shards@.len(),
                shard_from(self.entries().take(i as int), r) == shard_from(self.entries(), r),
            decreases i,
        {
            assert(self.entries().take(i as int).drop_last() =~= self.entries().take(i - 1));
            assert(self.entries()[i - 1] == (self.shards@[i - 1].0, self.shards@[i - 1].1@));
            if self.shards[i - 1].0 == r {
                return Some(copy_bytes(&self.shards[i - 1].1));
            }
            i = i - 1;
        }
        None
    }

    /// The collected shards laid out by sender for the shard codec, once at
    /// least `n - f` shards are in; `None` before. Calling it changes nothing.
    pub fn reconstruct(&self, n: u16, f: u16) -> (r: Option<Vec<Option<Vec<u8>>>>)
        ensures
            r is Some <==> self.entries().len() >= n - f,
            r is Some ==> r->0@.len() == n && forall|i: int| 0 <= i < n ==>
                (match #[trigger] r->0@[i] {
                    Some(v) => slots_of(self.entries(), n as nat)[i] == Some(v@),
                    None => slots_of(self.entries(), n as nat)[i] is None,
                }),
    {
        if f < n && self.shards.len() < (n - f) as usize {
            return None;
        }
        let mut out: Vec<Option<Vec<u8>>> = Vec::new();
        let mut i: u16 = 0;
        while i < n
            invariant
                i <= n,
                out@.len() == i,
                forall|k: int| 0 <= k < i ==>
                    (match #[trigger] out@[k] {
                        Some(v) => shard_from(self.entries(), k as Replica) == Some(v@),
                        None => shard_from(self.entries(), k as Replica) is None,
                    }),
            decreases n - i,
        {
            out.push(self.shard_of(i));
            i = i + 1;
        }
        Some(out)
    }
}

proof fn lemma_gatherer_prefix(gs: Seq<Gatherer>, offers: Seq<Offer>, k: int)
    requires
        1 <= k <= offers.len(),
        gs.len() == offers.len() + 1,
        gs[0].entries().len() == 0,
        gs[0].authenticator() is None,
        forall|i: int| 0 <= i < offers.len() ==> #[trigger] gs[i].offered(gs[i + 1], offers[i].shard,
            offers[i].sender, offers[i].auth, offers[i].valid),
        distinct_slots(kept(offers, offers[0].auth)),
    ensures
        gs[k].entries() == kept(offers.take(k), offers[0].auth),
        gs[k].authenticator() == Some(offers[0].auth),
    decreases k,
{
    let a = offers[0].auth;
    if k == 1 {
        assert(offers.take(1).drop_last() =~= Seq::<Offer>::empty());
        assert(offers.take(1).last() == offers[0]);
        assert(kept(Seq::<Offer>::empty(), a) =~= Seq::<(Replica, Seq<u8>)>::empty());
        let z: int = 0;
        assert(gs[z].offered(gs[z + 1], offers[z].shard, offers[z].sender, offers[z].auth, offers[z].valid));
        assert(z + 1 == 1);
        assert(!gs[0].contributed(offers[0].sender));
        assert(gs[1].entries() =~= kept(offers.take(1), a));
    } else {
        let j = k - 1;
        lemma_gatherer_prefix(gs, offers, j);
        let o = offers[j];
        assert(offers.take(k).drop_last() =~= offers.take(j));
        assert(offers.take(k).last() == o);
        assert(gs[j].offered(gs[j + 1], offers[j].shard, offers[j].sender, offers[j].auth, offers[j].valid));
        if o.valid && o.auth == a {
            lemma_kept_prefix(offers, a, k);
            let e = kept(offers.take(k), a);
            let full = kept(offers, a);
            assert forall|i: int| 0 <= i < gs[j].entries().len() implies (#[trigger] gs[j].entries()[i]).0 != o.sender by {
                assert(e[i] == full[i]);
                assert(e[e.len() - 1] == full[e.len() - 1]);
            }
        }
    }
}

/// A run of offers to a fresh gatherer combines exactly the shards that
/// verified under the authenticator of the first offer, in the order they
/// came: shards that fail to verify, and shards of any other dispersal, are
/// never combined. `gs[i + 1]` is the gatherer once `offers[i]` is offered to
/// `gs[i]`; the kept shards are for distinct slots.
pub proof fn lemma_gatherer_run(gs: Seq<Gatherer>, offers: Seq<Offer>)
    requires
        offers.len() > 0,
        gs.len() == offers.len() + 1,
        gs[0].entries().len() == 0,
        gs[0].authenticator() is None,
        forall|i: int| 0 <= i < offers.len() ==> #[trigger] gs[i].offered(gs[i + 1], offers[i].shard,
            offers[i].sender, offers[i].auth, offers[i].valid),
        distinct_slots(kept(offers, offers[0].auth)),
    ensures
        gs.last().entries() == kept(offers, offers[0].auth),
        gs.last().authenticator() == Some(offers[0].auth),
{
    lemma_gatherer_prefix(gs, offers, offers.len() as int);
    assert(offers.take(offers.len() as int) =~= offers);
}

} // verus!
