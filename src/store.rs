//! The committed block store, indexed by hash and by height.
use vstd::prelude::*;
use crate::types::{bytes_eq, Block, BlockModel, Height};

verus! {

/// The last block of `s` whose height is `h`.
pub open spec fn last_at_height(s: Seq<BlockModel>, h: int) -> Option<BlockModel>
    decreases s.len(),
{
    if s.len() == 0 {
        None
    } else if s.last().height == h {
        Some(s.last())
    } else {
        last_at_height(s.drop_last(), h)
    }
}

/// The last block of `s` whose hash is `d`.
pub open spec fn last_with_hash(s: Seq<BlockModel>, d: Seq<u8>) -> Option<BlockModel>
    decreases s.len(),
{
    if s.len() == 0 {
        None
    } else if s.last().hash == d {
        Some(s.last())
    } else {
        last_with_hash(s.drop_last(), d)
    }
}

/// The committed blocks. Inserting a block makes it the block stored under its
/// height and under its hash, replacing what either index held there before;
/// entries are never removed.
pub struct Storage {
    blocks: Vec<Block>,
}

impl View for Storage {
    type V = Seq<BlockModel>;

    /// The blocks in the order they were inserted.
    closed spec fn view(&self) -> Seq<BlockModel> {
        self.blocks@.map_values(|b: Block| b@)
    }
}

impl Storage {
    /// The block stored under height `h`.
    pub open spec fn by_ht(self, h: int) -> Option<BlockModel> {
        last_at_height(self@, h)
    }

    /// The block stored under hash `d`.
    pub open spec fn by_hash(self, d: Seq<u8>) -> Option<BlockModel> {
        last_with_hash(self@, d)
    }

    /// An empty store.
    pub fn new() -> (r: Storage)
        ensures
            r@ == Seq::<BlockModel>::empty(),
    {
        let r = Storage { blocks: Vec::new() };
        assert(r@ =~= Seq::<BlockModel>::empty());
        r
    }

    /// Number of insertions so far.
    pub fn len(&self) -> (r: usize)
        ensures
            r == self@.len(),
    {
        self.blocks.len()
    }

    /// Stores `b` under its height and its hash.
    pub fn insert(&mut self, b: Block)
        ensures
            final(self)@ == old(self)@.push(b@),
    {
        self.blocks.push(b);
        assert(final(self)@ =~= old(self)@.push(b@));
    }

    /// The block stored under height `h`, if any.
    pub fn get_by_ht(&self, h: Height) -> (r: Option<&Block>)
        ensures
            match r {
                Some(b) => self.by_ht(h as int) == Some(b@),
                None => self.by_ht(h as int) is None,
            },
    {
        let mut i: usize = self.blocks.len();
        proof {
            assert(self@.take(i as int) =~= self@);
        }
        while i > 0
            invariant
                i <= self.blocks@.len(),
                self@.len() == self.blocks@.len(),
                last_at_height(self@.take(i as int), h as int) == self.by_ht(h as int),
            decreases i,
        {
            assert(self@.take(i as int).drop_last() =~= self@.take(i - 1));
            assert(self@[i - 1] == self.blocks@[i - 1]@);
            if self.blocks[i - 1].header.height == h {
                return Some(&self.blocks[i - 1]);
            }
            i = i - 1;
        }
        None
    }

    /// The block stored under hash `d`, if any.
    pub fn get_by_hash(&self, d: &Vec<u8>) -> (r: Option<&Block>)
        ensures
            match r {
                Some(b) => self.by_hash(d@) == Some(b@),
                None => self.by_hash(d@) is None,
            },
    {
        let mut i: usize = self.blocks.len();
        proof {
            assert(self@.take(i as int) =~= self@);
        }
        while i > 0
            invariant
                i <= self.blocks@.len(),
                self@.len() == self.blocks@.len(),
                last_with_hash(self@.take(i as int), d@) == self.by_hash(d@),
            decreases i,
        {
            assert(self@.take(i as int).drop_last() =~= self@.take(i - 1));
            assert(self@[i - 1] == self.blocks@[i - 1]@);
            if bytes_eq(&self.blocks[i - 1].hash, d) {
                return Some(&self.blocks[i - 1]);
            }
            i = i - 1;
        }
        None
    }
}

/// Each block of `s` extends the one inserted before it, at a greater height.
pub open spec fn extends_each(s: Seq<BlockModel>) -> bool {
    &&& forall|a: int, b: int| 0 <= a < b < s.len() ==> (#[trigger] s[a]).height < (#[trigger] s[b]).height
    &&& forall|i: int| 0 < i < s.len() ==> (#[trigger] s[i]).prev == s[i - 1].hash
}

proof fn lemma_last_at_own_height(s: Seq<BlockModel>, i: int)
    requires
        0 <= i < s.len(),
        forall|a: int, b: int| 0 <= a < b < s.len() ==> (#[trigger] s[a]).height < (#[trigger] s[b]).height,
    ensures
        last_at_height(s, s[i].height) == Some(s[i]),
    decreases s.len(),
{
    if i < s.len() - 1 {
        assert(s[i].height < s[s.len() - 1].height);
        let d = s.drop_last();
        assert forall|a: int, b: int| 0 <= a < b < d.len() implies (#[trigger] d[a]).height < (#[trigger] d[b]).height by {
            assert(d[a] == s[a] && d[b] == s[b]);
        }
        lemma_last_at_own_height(d, i);
        assert(d[i] == s[i]);
    }
}

/// The committed chain is linear: when every commit extends the block
/// committed before it at a greater height, the block stored under the height
/// of each commit is that commit, and its parent hash is the hash of the block
/// stored under the height of the commit before it.
pub proof fn lemma_chain_linear(st: Storage, i: int)
    requires
        extends_each(st@),
        0 < i < st@.len(),
    ensures
        st.by_ht(st@[i].height) == Some(st@[i]),
        st.by_ht(st@[i - 1].height) == Some(st@[i - 1]),
        st.by_ht(st@[i].height)->0.prev == st.by_ht(st@[i - 1].height)->0.hash,
{
    lemma_last_at_own_height(st@, i);
    lemma_last_at_own_height(st@, i - 1);
}

} // verus!
