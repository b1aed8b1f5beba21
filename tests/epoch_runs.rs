use consensus::context::Context;
use consensus::msg::{Destination, Dispersal, Outgoing, ProtocolMsg};
use consensus::phase::{Deadline, Phase};
use consensus::types::{Block, BlockHeader, Certificate, Content, Propose, Vote};

const N: u16 = 4;
const F: u16 = 1;

fn genesis_hash() -> Vec<u8> {
    vec![0; 32]
}

fn boot(id: u16) -> Context {
    Context::new(N, F, id, genesis_hash())
}

fn block_at(height: i64, hash_byte: u8) -> Block {
    Block {
        header: BlockHeader { prev: vec![0; 32], author: 0, height },
        body: Content { commits: Vec::new(), acks: Vec::new() },
        hash: vec![hash_byte; 32],
    }
}

fn cert_over(hash: &[u8], origins: &[u16]) -> Certificate {
    Certificate {
        votes: origins
            .iter()
            .map(|o| Vote { msg: hash.to_vec(), origin: *o, auth: vec![*o as u8] })
            .collect(),
    }
}

/// Shards of a payload where any single shard carries the whole payload.
fn replicate(payload: &[u8]) -> Vec<Vec<u8>> {
    (0..N).map(|_| payload.to_vec()).collect()
}

fn deliver_parts(m: &ProtocolMsg) -> Option<(Dispersal, Vec<u8>, u16, Vec<u8>)> {
    match m {
        ProtocolMsg::DeliverPropose(s, t, z) => Some((Dispersal::Proposal, s.clone(), *t, z.clone())),
        ProtocolMsg::DeliverVoteCert(s, t, z) => Some((Dispersal::VoteCert, s.clone(), *t, z.clone())),
        ProtocolMsg::DeliverCommit(s, t, z) => Some((Dispersal::Commit, s.clone(), *t, z.clone())),
        _ => None,
    }
}

/// Hands the broadcast shard messages of `from` to every replica in `to`,
/// collecting the rebroadcasts they trigger, until nothing is left.
fn flood(replicas: &mut [Context], from: usize, out: Vec<Outgoing>, to: &[usize]) {
    let mut pending: Vec<(usize, Outgoing)> = out.into_iter().map(|o| (from, o)).collect();
    while let Some((src, o)) = pending.pop() {
        if o.to != Destination::Broadcast {
            continue;
        }
        if let Some((k, s, t, z)) = deliver_parts(&o.msg) {
            for &r in to {
                if r == src {
                    continue;
                }
                if let Some(again) = replicas[r].on_deliver(k, s.clone(), t, z.clone(), true) {
                    pending.push((r, again));
                }
            }
        }
    }
}

fn one_epoch(reachable: &[usize]) -> Vec<Context> {
    let mut rs: Vec<Context> = (0..N).map(boot).collect();
    let mut certs = Vec::new();
    for r in rs.iter_mut() {
        let (out, _, _) = r.end_phase();
        certs.extend(out);
    }
    assert_eq!(rs[1].phase, Phase::Propose);
    for o in certs {
        assert_eq!(o.to, Destination::To(1));
        if let ProtocolMsg::Certificate(c) = o.msg {
            rs[1].on_certificate(c, true);
        }
    }
    assert_eq!(rs[1].highest_height, 0);
    for i in [0usize, 2, 3] {
        assert_eq!(rs[i].phase, Phase::DeliverPropose);
    }
    // The leader proposes.
    let mut p = rs[1].build_proposal();
    assert_eq!(p.new_block.header.height, 1);
    assert_eq!(p.new_block.header.prev, genesis_hash());
    p.new_block.update_hash(vec![0x11; 32]);
    let block = p.new_block.copy();
    let sign = vec![9u8];
    let shards = replicate(&[1, 2, 3]);
    let (out, d) = rs[1].finish_propose(p, sign.clone(), &shards, true);
    assert_eq!(d, Deadline::SinceBegin(8));
    assert_eq!(out.len(), 5);
    for &r in reachable {
        if r != 1 {
            rs[r].on_propose(block_propose(&block), sign.clone());
        }
    }
    flood(&mut rs, 1, out, reachable);
    // Followers vote for whatever they could recover.
    let mut votes = Vec::new();
    for i in [0usize, 2, 3] {
        let shards_here = if rs[i].received_propose.is_some() { Some(replicate(&[1, 2, 3])) } else { None };
        let (_o, _d) = rs[i].deliver_propose_phase(shards_here, true);
        let (_o, _d) = rs[i].deliver_commit_phase(None, true);
        let recovered = rs[i].propose_gatherer.reconstruct(N, F).is_some();
        let hash = if recovered { Some(block.hash.clone()) } else { None };
        let (v, d) = rs[i].vote_phase(hash, vec![i as u8]);
        assert_eq!(d, Deadline::SinceBegin(11));
        if let Some(v) = v {
            assert_eq!(v.to, Destination::To(1));
            votes.push(v);
        }
    }
    // The leader forms the certificate at f + 1 votes.
    let mut formed_at = None;
    for (n, v) in votes.into_iter().enumerate() {
        if let ProtocolMsg::Vote(v) = v.msg {
            if rs[1].on_vote(v) && formed_at.is_none() {
                formed_at = Some(n + 1);
            }
        }
    }
    assert_eq!(formed_at, Some(2));
    let cert = rs[1].vote_certificate();
    let (out, d) = rs[1].on_vote_cert(cert, vec![5], &replicate(&[4]), true, true);
    assert_eq!(d, Deadline::FromNow(2));
    assert!(matches!(out[0].msg, ProtocolMsg::VoteCert(_, _)));
    for &r in reachable {
        if r != 1 {
            let c = rs[1].vote_certificate();
            let (_o, _d) = rs[r].on_vote_cert(c, vec![5], &replicate(&[4]), true, false);
        }
    }
    for r in 0..N as usize {
        if rs[r].phase == Phase::Commit {
            let recovered = rs[r].propose_gatherer.reconstruct(N, F).is_some();
            let b = if recovered { Some(block.copy()) } else { None };
            let d = rs[r].commit_phase(b);
            assert_eq!(d, Deadline::SinceBegin(11));
        }
    }
    rs
}

fn block_propose(b: &Block) -> Propose {
    Propose { new_block: b.copy(), certificate: Certificate::empty_cert(), epoch: 1 }
}

#[test]
fn one_epoch_happy_path() {
    let rs = one_epoch(&[0, 1, 2, 3]);
    for r in &rs {
        assert_eq!(r.storage.len(), 2);
        let b = r.storage.get_by_ht(1).expect("block at height 1");
        assert_eq!(b.hash, vec![0x11; 32]);
        assert_eq!(b.header.author, 1);
        let same = r.storage.get_by_hash(&vec![0x11; 32]).expect("block by hash");
        assert_eq!(same.header.height, 1);
        assert_eq!(r.storage.get_by_ht(0).unwrap().hash, genesis_hash());
        assert_eq!(b.header.prev, r.storage.get_by_ht(0).unwrap().hash);
    }
}

#[test]
fn message_loss_to_one_replica() {
    let rs = one_epoch(&[0, 1, 2]);
    assert_eq!(rs[3].propose_gatherer.shard_num(), 0);
    for i in 0..3 {
        assert_eq!(rs[i].storage.len(), 2);
        assert!(rs[i].storage.get_by_ht(1).is_some());
    }
    assert_eq!(rs[3].storage.len(), 1);
    assert!(rs[3].storage.get_by_ht(1).is_none());
    let mut lagging = rs.into_iter().nth(3).unwrap();
    lagging.phase = Phase::End;
    let (_o, _d, _s) = lagging.end_phase();
    assert_eq!(lagging.epoch, 2);
    assert_eq!(lagging.last_leader, 2);
}

#[test]
fn duplicate_deliver_flood() {
    let mut r = boot(2);
    let (_o, _d, _s) = r.end_phase();
    let mut rebroadcasts = 0;
    for _ in 0..10 {
        if let Some(o) = r.on_deliver(Dispersal::Proposal, vec![7, 7], 2, vec![3], true) {
            assert_eq!(o.to, Destination::Broadcast);
            assert!(matches!(o.msg, ProtocolMsg::DeliverPropose(_, 2, _)));
            rebroadcasts += 1;
        }
    }
    assert_eq!(rebroadcasts, 1);
    assert_eq!(r.propose_gatherer.shard_num(), 1);
    assert!(r.propose_share_sent);
}

#[test]
fn leader_omits_proposal() {
    let mut rs: Vec<Context> = (0..N).map(boot).collect();
    for r in rs.iter_mut() {
        let (_, _, _) = r.end_phase();
    }
    let before: Vec<usize> = rs.iter().map(|r| r.highest_cert.votes.len()).collect();
    for i in [0usize, 2, 3] {
        let (out, _d) = rs[i].deliver_propose_phase(None, true);
        assert!(out.is_empty());
        assert_eq!(rs[i].propose_gatherer.shard_num(), 0);
        let (_o, _d) = rs[i].deliver_commit_phase(None, true);
        assert!(rs[i].propose_gatherer.reconstruct(N, F).is_none());
        let (v, _d) = rs[i].vote_phase(None, vec![1]);
        assert!(v.is_none());
    }
    for r in rs.iter_mut() {
        r.phase = Phase::End;
        let (_, _, _) = r.end_phase();
        assert_eq!(r.epoch, 2);
        assert_eq!(r.last_leader, 2);
    }
    assert_eq!(rs[2].phase, Phase::Propose);
    let after: Vec<usize> = rs.iter().map(|r| r.highest_cert.votes.len()).collect();
    assert_eq!(before, after);
    assert_eq!(rs[2].highest_height, -1);
}

#[test]
fn beacon_reconstruction() {
    let mut r = boot(0);
    let (_o, _d, _s) = r.end_phase();
    let e = r.epoch;
    for author in 0..N {
        for k in 0..3u8 {
            assert!(r.on_reconstruct(vec![author as u8, k], author, e));
        }
    }
    r.phase = Phase::End;
    let taken = r.take_beacon_shares();
    assert_eq!(taken.len(), 4);
    for (author, t) in taken.iter().enumerate() {
        let shares = t.as_ref().expect("enough shares");
        assert_eq!(shares.len(), 3);
        assert_eq!(shares[0], vec![author as u8, 0]);
    }
    // Stand-ins for the digests of the four reconstructed secrets.
    let digests: Vec<Vec<u8>> = (0..4u8).map(|a| (0..32u8).map(|i| a.wrapping_mul(37) ^ i).collect()).collect();
    let b = consensus::beacon::beacon(&digests);
    let mut reversed = digests.clone();
    reversed.reverse();
    assert_eq!(consensus::beacon::beacon(&reversed), b);
    let expected: Vec<u8> = (0..32).map(|i| digests.iter().fold(0u8, |acc, d| acc ^ d[i])).collect();
    assert_eq!(b, expected);
}

#[test]
fn certificate_adoption() {
    let mut r = boot(1);
    let (_o, _d, _s) = r.end_phase();
    assert_eq!(r.phase, Phase::Propose);
    r.storage.insert(block_at(5, 0x55));
    r.storage.insert(block_at(7, 0x77));
    r.on_certificate(cert_over(&[0x55; 32], &[0, 2]), true);
    assert_eq!(r.highest_height, 5);
    r.on_certificate(cert_over(&[0x77; 32], &[0, 3]), true);
    assert_eq!(r.highest_height, 7);
    assert_eq!(r.highest_cert.votes[0].msg, vec![0x77; 32]);
    assert_eq!(r.highest_cert.votes[1].origin, 3);
    // A lower certificate afterwards changes nothing.
    r.on_certificate(cert_over(&[0x55; 32], &[0, 2]), true);
    assert_eq!(r.highest_height, 7);
}
