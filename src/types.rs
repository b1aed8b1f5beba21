//! Replica identities, votes, certificates, blocks and transactions.
use vstd::prelude::*;

verus! {

/// Index of a replica in the committee, in `[0, N)`.
pub type Replica = u16;

/// Height of a block; `-1` stands for "no certificate known yet".
pub type Height = i64;

/// Number of bytes in a block hash.
pub const HASH_LEN: usize = 32;

/// Copies a byte string.
pub fn copy_bytes(b: &Vec<u8>) -> (r: Vec<u8>)
    ensures
        r@ == b@,
{
    let r = b.clone();
    assert(r@ =~= b@);
    r
}

/// A signed statement of `origin` over `msg` (usually a block hash).
pub struct Vote {
    pub msg: Vec<u8>,
    pub origin: Replica,
    pub auth: Vec<u8>,
}

/// The mathematical value of a vote.
pub struct VoteModel {
    pub msg: Seq<u8>,
    pub origin: Replica,
    pub auth: Seq<u8>,
}

impl View for Vote {
    type V = VoteModel;

    open spec fn view(&self) -> VoteModel {
        VoteModel { msg: self.msg@, origin: self.origin, auth: self.auth@ }
    }
}

impl Vote {
    /// A copy of the vote.
    pub fn copy(&self) -> (r: Vote)
        ensures
            r@ == self@,
    {
        Vote { msg: copy_bytes(&self.msg), origin: self.origin, auth: copy_bytes(&self.auth) }
    }
}


/// Whether two byte strings are equal.
pub fn bytes_eq(a: &Vec<u8>, b: &Vec<u8>) -> (r: bool)
    ensures
        r == (a@ == b@),
{
    if a.len() != b.len() {
        return false;
    }
    let mut i: usize = 0;
    while i < a.len()
        invariant
            i <= a@.len(),
            a@.len() == b@.len(),
            forall|j: int| 0 <= j < i ==> a@[j] == b@[j],
        decreases a@.len() - i,
    {
        if a[i] != b[i] {
            return false;
        }
        i = i + 1;
    }
    assert(a@ =~= b@);
    true
}

/// The values of a list of votes.
pub open spec fn votes_view(v: Seq<Vote>) -> Seq<VoteModel> {
    v.map_values(|x: Vote| x@)
}

/// The values of a list of byte strings.
pub open spec fn bytes_view(v: Seq<Vec<u8>>) -> Seq<Seq<u8>> {
    v.map_values(|x: Vec<u8>| x@)
}

/// Copies a list of votes.
pub fn copy_votes(v: &Vec<Vote>) -> (r: Vec<Vote>)
    ensures
        votes_view(r@) == votes_view(v@),
        r@.len() == v@.len(),
{
    let mut r: Vec<Vote> = Vec::new();
    let mut i: usize = 0;
    while i < v.len()
        invariant
            i <= v@.len(),
            r@.len() == i,
            forall|j: int| 0 <= j < i ==> (#[trigger] r@[j])@ == v@[j]@,
        decreases v@.len() - i,
    {
        r.push(v[i].copy());
        i = i + 1;
    }
    assert(votes_view(r@) =~= votes_view(v@));
    r
}

/// Copies a list of byte strings.
pub fn copy_byte_list(v: &Vec<Vec<u8>>) -> (r: Vec<Vec<u8>>)
    ensures
        bytes_view(r@) == bytes_view(v@),
        r@.len() == v@.len(),
{
    let mut r: Vec<Vec<u8>> = Vec::new();
    let mut i: usize = 0;
    while i < v.len()
        invariant
            i <= v@.len(),
            r@.len() == i,
            forall|j: int| 0 <= j < i ==> (#[trigger] r@[j])@ == v@[j]@,
        decreases v@.len() - i,
    {
        r.push(copy_bytes(&v[i]));
        i = i + 1;
    }
    assert(bytes_view(r@) =~= bytes_view(v@));
    r
}

/// A set of votes that together vouch for one message.
pub struct Certificate {
    pub votes: Vec<Vote>,
}

impl View for Certificate {
    type V = Seq<VoteModel>;

    open spec fn view(&self) -> Seq<VoteModel> {
        votes_view(self.votes@)
    }
}

impl Certificate {
    /// The certificate with no votes, which stands before genesis.
    pub fn empty_cert() -> (r: Certificate)
        ensures
            r.votes@.len() == 0,
            r@.len() == 0,
    {
        Certificate { votes: Vec::new() }
    }

    /// A copy of the certificate.
    pub fn copy(&self) -> (r: Certificate)
        ensures
            r@ == self@,
            r.votes@.len() == self.votes@.len(),
    {
        Certificate { votes: copy_votes(&self.votes) }
    }

    /// The block hash that the certificate vouches for: that of its first
    /// vote, or all zeroes (the hash that genesis is known by) for the empty
    /// certificate.
    pub open spec fn subject(self) -> Seq<u8> {
        if self.votes@.len() == 0 {
            Seq::new(HASH_LEN as nat, |i: int| 0u8)
        } else {
            self.votes@[0].msg@
        }
    }

    /// Whether all votes carry the same message.
    pub open spec fn is_uniform(self) -> bool {
        forall|i: int| 0 <= i < self.votes@.len() ==> #[trigger] self.votes@[i].msg@ == self.votes@[0].msg@
    }
}

impl Default for Certificate {
    fn default() -> (r: Certificate)
        ensures
            r.votes@.len() == 0,
    {
        Certificate::empty_cert()
    }
}

/// What a vote is about.
pub enum VoteType {
    /// The leader did not propose in time: the leader and the view.
    NoProgressBlame(Replica, u64),
    /// The leader proposed two different blocks: the leader and both blocks.
    EquivcationBlame(Replica, Block, Block),
    /// A vote for the block with the given hash.
    Vote(Vec<u8>),
}

/// A client request.
pub struct Transaction {
    pub data: Vec<u8>,
    pub request: Vec<u8>,
}

/// The header of a block.
pub struct BlockHeader {
    pub prev: Vec<u8>,
    pub author: Replica,
    pub height: Height,
}

/// The body of a block: the beacon commitments of its epoch and the
/// acknowledgements its author gathered.
pub struct Content {
    pub commits: Vec<Vec<u8>>,
    pub acks: Vec<Vote>,
}

/// A block of the chain. `hash` is the digest of the serialized header and body.
pub struct Block {
    pub header: BlockHeader,
    pub body: Content,
    pub hash: Vec<u8>,
}

/// The mathematical value of a block.
pub struct BlockModel {
    pub prev: Seq<u8>,
    pub author: Replica,
    pub height: int,
    pub commits: Seq<Seq<u8>>,
    pub acks: Seq<VoteModel>,
    pub hash: Seq<u8>,
}

impl View for Block {
    type V = BlockModel;

    open spec fn view(&self) -> BlockModel {
        BlockModel {
            prev: self.header.prev@,
            author: self.header.author,
            height: self.header.height as int,
            commits: bytes_view(self.body.commits@),
            acks: votes_view(self.body.acks@),
            hash: self.hash@,
        }
    }
}

/// `n` zero bytes.
pub fn zero_bytes(n: usize) -> (r: Vec<u8>)
    ensures
        r@ == Seq::new(n as nat, |i: int| 0u8),
{
    let mut r: Vec<u8> = Vec::new();
    let mut i: usize = 0;
    while i < n
        invariant
            i <= n,
            r@ == Seq::new(i as nat, |k: int| 0u8),
        decreases n - i,
    {
        r.push(0u8);
        assert(r@ =~= Seq::new((i + 1) as nat, |k: int| 0u8));
        i = i + 1;
    }
    r
}

impl Block {
    /// The genesis block: height 0, author 0, an all-zero parent hash, an
    /// empty body, and the given hash.
    pub fn genesis(hash: Vec<u8>) -> (r: Block)
        ensures
            r@.height == 0,
            r@.author == 0,
            r@.prev == Seq::new(HASH_LEN as nat, |i: int| 0u8),
            r@.commits.len() == 0,
            r@.acks.len() == 0,
            r@.hash == hash@,
    {
        Block {
            header: BlockHeader { prev: zero_bytes(HASH_LEN), author: 0, height: 0 },
            body: Content { commits: Vec::new(), acks: Vec::new() },
            hash,
        }
    }

    /// A copy of the block.
    pub fn copy(&self) -> (r: Block)
        ensures
            r@ == self@,
    {
        Block {
            header: BlockHeader {
                prev: copy_bytes(&self.header.prev),
                author: self.header.author,
                height: self.header.height,
            },
            body: Content {
                commits: copy_byte_list(&self.body.commits),
                acks: copy_votes(&self.body.acks),
            },
            hash: copy_bytes(&self.hash),
        }
    }

    /// Sets the block's hash to the digest of its header and body.
    pub fn update_hash(&mut self, digest: Vec<u8>)
        ensures
            final(self)@ == (BlockModel { hash: digest@, ..old(self)@ }),
    {
        self.hash = digest;
    }
}

/// What a proposal commits to: the digests of its block and certificate, its
/// epoch, and the serialized beacon parameters it was made under.
pub struct Proof {
    pub block_hash: Vec<u8>,
    pub certificate_hash: Vec<u8>,
    pub epoch: Height,
    pub accumulator: Vec<u8>,
}

/// A leader's proposal for an epoch.
pub struct Propose {
    pub new_block: Block,
    pub certificate: Certificate,
    pub epoch: Height,
}

/// The mathematical value of a proposal.
pub struct ProposeModel {
    pub new_block: BlockModel,
    pub certificate: Seq<VoteModel>,
    pub epoch: int,
}

impl View for Propose {
    type V = ProposeModel;

    open spec fn view(&self) -> ProposeModel {
        ProposeModel { new_block: self.new_block@, certificate: self.certificate@, epoch: self.epoch as int }
    }
}

impl Propose {
    /// A copy of the proposal.
    pub fn copy(&self) -> (r: Propose)
        ensures
            r@ == self@,
    {
        Propose { new_block: self.new_block.copy(), certificate: self.certificate.copy(), epoch: self.epoch }
    }
}

} // verus!
