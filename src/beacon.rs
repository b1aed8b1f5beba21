//! The random beacon: per-author queues of secret shares awaiting their epoch,
//! and the XOR of the reconstructed values' digests.
use vstd::prelude::*;
use crate::types::{bytes_view, copy_bytes, Height, HASH_LEN};

verus! {

/// Byte `i` of the XOR of all strings in `s`.
pub open spec fn xor_col(s: Seq<Seq<u8>>, i: int) -> u8
    decreases s.len(),
{
    if s.len() == 0 {
        0u8
    } else {
        xor_col(s.drop_last(), i) ^ s.last()[i]
    }
}

/// The beacon of an epoch: the byte-wise XOR of the digests in `s`.
pub open spec fn beacon_of(s: Seq<Seq<u8>>) -> Seq<u8> {
    Seq::new(HASH_LEN as nat, |i: int| xor_col(s, i))
}

proof fn lemma_xor_swap(a: u8, b: u8, c: u8)
    ensures
        (a ^ b) ^ c == (a ^ c) ^ b,
{
    assert((a ^ b) ^ c == (a ^ c) ^ b) by (bit_vector);
}

/// Taking one digest out and XOR-ing it back gives the same byte.
proof fn lemma_xor_col_remove(s: Seq<Seq<u8>>, k: int, i: int)
    requires
        0 <= k < s.len(),
    ensures
        xor_col(s, i) == xor_col(s.remove(k), i) ^ s[k][i],
    decreases s.len(),
{
    if k == s.len() - 1 {
        assert(s.remove(k) =~= s.drop_last());
    } else {
        let d = s.drop_last();
        lemma_xor_col_remove(d, k, i);
        assert(s.remove(k).drop_last() =~= d.remove(k));
        assert(s.remove(k).last() == s.last());
        lemma_xor_swap(xor_col(d.remove(k), i), d[k][i], s.last()[i]);
    }
}

/// The beacon does not depend on the order in which the reconstructed values'
/// digests are combined: any two lists holding the same digests, each as many
/// times, give the same beacon.
pub proof fn lemma_beacon_order_independent(s: Seq<Seq<u8>>, t: Seq<Seq<u8>>)
    requires
        s.to_multiset() == t.to_multiset(),
    ensures
        beacon_of(s) == beacon_of(t),
    decreases s.len(),
{
    vstd::seq_lib::to_multiset_len(s);
    vstd::seq_lib::to_multiset_len(t);
    if s.len() == 0 {
        assert(t.len() == 0);
        assert(s =~= t);
    } else {
        let x = s.last();
        assert(s.contains(x)) by {
            assert(s[s.len() - 1] == x);
        }
        vstd::seq_lib::to_multiset_contains(s, x);
        vstd::seq_lib::to_multiset_contains(t, x);
        assert(t.contains(x));
        let k = choose|k: int| 0 <= k < t.len() && t[k] == x;
        assert(s.drop_last() =~= s.remove(s.len() - 1));
        vstd::seq_lib::to_multiset_remove(s, s.len() - 1);
        vstd::seq_lib::to_multiset_remove(t, k);
        lemma_beacon_order_independent(s.drop_last(), t.remove(k));
        assert forall|i: int| 0 <= i < HASH_LEN implies xor_col(s, i) == xor_col(t, i) by {
            lemma_xor_col_remove(t, k, i);
            assert(beacon_of(s.drop_last())[i] == beacon_of(t.remove(k))[i]);
        }
        assert(beacon_of(s) =~= beacon_of(t));
    }
}

/// The byte-wise XOR of the digests `updates`, starting from all zeroes.
pub fn beacon(updates: &Vec<Vec<u8>>) -> (r: Vec<u8>)
    requires
        forall|k: int| 0 <= k < updates@.len() ==> (#[trigger] updates@[k])@.len() == HASH_LEN,
    ensures
        r@ == beacon_of(bytes_view(updates@)),
{
    let ghost s = bytes_view(updates@);
    let mut acc: Vec<u8> = Vec::new();
    let mut i: usize = 0;
    while i < HASH_LEN
        invariant
            i <= HASH_LEN,
            acc@.len() == i,
            forall|j: int| 0 <= j < i ==> #[trigger] acc@[j] == xor_col(s.take(0), j),
        decreases HASH_LEN - i,
    {
        acc.push(0u8);
        i = i + 1;
    }
    let mut k: usize = 0;
    while k < updates.len()
        invariant
            k <= updates@.len(),
            s == bytes_view(updates@),
            acc@.len() == HASH_LEN,
            forall|k2: int| 0 <= k2 < updates@.len() ==> (#[trigger] updates@[k2])@.len() == HASH_LEN,
            forall|j: int| 0 <= j < HASH_LEN ==> #[trigger] acc@[j] == xor_col(s.take(k as int), j),
        decreases updates@.len() - k,
    {
        let u = &updates[k];
        assert(s.take(k as int + 1).drop_last() =~= s.take(k as int));
        assert(s.take(k as int + 1).last() == u@);
        assert forall|m: int| #![trigger xor_col(s.take(k as int + 1), m)]
            xor_col(s.take(k as int + 1), m) == xor_col(s.take(k as int), m) ^ u@[m] by {}
        let mut j: usize = 0;
        while j < HASH_LEN
            invariant
                j <= HASH_LEN,
                k < updates@.len(),
                u@.len() == HASH_LEN,
                s.len() == updates@.len(),
                u@ == s[k as int],
                acc@.len() == HASH_LEN,
                forall|m: int| #![trigger xor_col(s.take(k as int + 1), m)]
                    xor_col(s.take(k as int + 1), m) == xor_col(s.take(k as int), m) ^ u@[m],
                forall|m: int| 0 <= m < j ==> #[trigger] acc@[m] == xor_col(s.take(k as int + 1), m),
                forall|m: int| j <= m < HASH_LEN ==> #[trigger] acc@[m] == xor_col(s.take(k as int), m),
            decreases HASH_LEN - j,
        {
            let b = acc[j] ^ u[j];
            acc.set(j, b);
            j = j + 1;
        }
        k = k + 1;
    }
    assert(s.take(updates@.len() as int) =~= s);
    assert(acc@ =~= beacon_of(s));
    acc
}

/// Length of the longest prefix of `s` whose epochs are below `e`.
pub open spec fn stale_prefix(s: Seq<(Seq<u8>, int)>, e: int) -> nat
    decreases s.len(),
{
    if s.len() > 0 && s[0].1 < e {
        1 + stale_prefix(s.drop_first(), e)
    } else {
        0
    }
}

/// Length of the longest prefix of `s` whose epochs equal `e`.
pub open spec fn current_prefix(s: Seq<(Seq<u8>, int)>, e: int) -> nat
    decreases s.len(),
{
    if s.len() > 0 && s[0].1 == e {
        1 + current_prefix(s.drop_first(), e)
    } else {
        0
    }
}

/// The shares of one author, each with the epoch it is for, oldest first.
pub struct ShareQueue {
    items: Vec<(Vec<u8>, Height)>,
}

impl View for ShareQueue {
    type V = Seq<(Seq<u8>, int)>;

    closed spec fn view(&self) -> Seq<(Seq<u8>, int)> {
        self.items@.map_values(|x: (Vec<u8>, Height)| (x.0@, x.1 as int))
    }
}

impl ShareQueue {
    /// An empty queue.
    pub fn new() -> (r: ShareQueue)
        ensures
            r@.len() == 0,
    {
        let r = ShareQueue { items: Vec::new() };
        assert(r@ =~= Seq::<(Seq<u8>, int)>::empty());
        r
    }

    /// Number of queued shares.
    pub fn len(&self) -> (r: usize)
        ensures
            r == self@.len(),
    {
        self.items.len()
    }

    /// Queues `share` for epoch `e`, unless the newest queued share is for a
    /// later epoch: the epochs in the queue never decrease.
    pub fn offer(&mut self, share: Vec<u8>, e: Height) -> (accepted: bool)
        ensures
            accepted == (old(self)@.len() == 0 || e >= old(self)@.last().1),
            accepted ==> final(self)@ == old(self)@.push((share@, e as int)),
            !accepted ==> final(self)@ == old(self)@,
    {
        let n = self.items.len();
        if n > 0 && e < self.items[n - 1].1 {
            return false;
        }
        self.items.push((share, e));
        assert(final(self)@ =~= old(self)@.push((share@, e as int)));
        true
    }

    /// Removes the shares for epochs before `e`, then removes and returns the
    /// shares for epoch `e` that follow them.
    pub fn take_epoch(&mut self, e: Height) -> (r: Vec<Vec<u8>>)
        ensures
            ({
                let k = stale_prefix(old(self)@, e as int) as int;
                let m = current_prefix(old(self)@.skip(k), e as int) as int;
                &&& k + m <= old(self)@.len()
                &&& bytes_view(r@) == old(self)@.subrange(k, k + m).map_values(|x: (Seq<u8>, int)| x.0)
                &&& final(self)@ == old(self)@.skip(k + m)
            }),
    {
        let ghost s = self@;
        let n = self.items.len();
        let mut i: usize = 0;
        proof {
            assert(s.skip(0) =~= s);
        }
        while i < n && self.items[i].1 < e
            invariant
                i <= n,
                n == s.len(),
                s == self@,
                stale_prefix(s, e as int) == i + stale_prefix(s.skip(i as int), e as int),
            decreases n - i,
        {
            assert(s.skip(i as int).drop_first() =~= s.skip(i as int + 1));
            assert(s.skip(i as int)[0] == s[i as int]);
            i = i + 1;
        }
        proof {
            if i < n {
                assert(s.skip(i as int)[0] == s[i as int]);
            }
        }
        let k = i;
        let ghost t = s.skip(k as int);
        let mut out: Vec<Vec<u8>> = Vec::new();
        proof {
            assert(t.skip(0) =~= t);
        }
        while i < n && self.items[i].1 == e
            invariant
                k <= i <= n,
                n == s.len(),
                s == self@,
                t == s.skip(k as int),
                current_prefix(t, e as int) == (i - k) + current_prefix(t.skip(i - k), e as int),
                out@.len() == i - k,
                forall|j: int| 0 <= j < i - k ==> (#[trigger] out@[j])@ == s[k + j].0,
            decreases n - i,
        {
            assert(t.skip(i - k).drop_first() =~= t.skip(i - k + 1));
            assert(t.skip(i - k)[0] == s[i as int]);
            assert(s[i as int].0 == self.items@[i as int].0@);
            out.push(copy_bytes(&self.items[i].0));
            i = i + 1;
        }
        proof {
            if i < n {
                assert(t.skip(i - k)[0] == s[i as int]);
            }
        }
        assert(bytes_view(out@) =~= s.subrange(k as int, i as int).map_values(|x: (Seq<u8>, int)| x.0));
        let rest = self.items.split_off(i);
        self.items = rest;
        assert(self@ =~= s.skip(i as int));
        out
    }

    /// Queues `share` for epoch `e` whatever the queue holds.
    pub fn push_back(&mut self, share: Vec<u8>, e: Height)
        ensures
            final(self)@ == old(self)@.push((share@, e as int)),
    {
        self.items.push((share, e));
        assert(final(self)@ =~= old(self)@.push((share@, e as int)));
    }

    /// Removes and returns the oldest queued share.
    pub fn pop_front(&mut self) -> (r: Option<Vec<u8>>)
        ensures
            old(self)@.len() == 0 ==> r is None && final(self)@ == old(self)@,
            old(self)@.len() > 0 ==> r is Some && r->0@ == old(self)@[0].0 && final(self)@ == old(self)@.drop_first(),
    {
        if self.items.len() == 0 {
            return None;
        }
        let (sh, _e) = self.items.remove(0);
        assert(final(self)@ =~= old(self)@.drop_first());
        Some(sh)
    }
}

} // verus!
