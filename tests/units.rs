use consensus::beacon::ShareQueue;
use consensus::context::Context;
use consensus::gatherer::Gatherer;
use consensus::msg::{Destination, Dispersal, ProtocolMsg};
use consensus::phase::{end_of_epoch, within_epoch, Deadline, Phase};
use consensus::store::Storage;
use consensus::types::{Block, BlockHeader, Certificate, Content, Transaction, Vote, VoteType};

fn block(height: i64, hash: u8) -> Block {
    Block {
        header: BlockHeader { prev: vec![0; 32], author: 2, height },
        body: Content { commits: vec![vec![1]], acks: Vec::new() },
        hash: vec![hash; 32],
    }
}

#[test]
fn phase_names() {
    assert_eq!(Phase::Propose.to_string(), "Propose");
    assert_eq!(Phase::DeliverPropose.to_string(), "DeliverPropose");
    assert_eq!(Phase::DeliverCommit.to_string(), "DeliverCommit");
    assert_eq!(Phase::Vote.to_string(), "Vote");
    assert_eq!(Phase::Commit.to_string(), "Commit");
    assert_eq!(Phase::End.to_string(), "End");
}

#[test]
fn message_names() {
    let v = Vote { msg: vec![1], origin: 0, auth: vec![] };
    assert_eq!(ProtocolMsg::Vote(v).to_string(), "Vote");
    assert_eq!(ProtocolMsg::Certificate(Certificate::empty_cert()).to_string(), "Certificate");
    assert_eq!(ProtocolMsg::Reconstruct(vec![], 1, 2).to_string(), "Reconstruct");
    assert_eq!(ProtocolMsg::DeliverCommit(vec![], 1, vec![]).to_string(), "DeliverCommit");
    assert_eq!(ProtocolMsg::Commit(vec![], vec![], vec![]).to_string(), "Commit");
}

#[test]
fn empty_certificate_has_no_votes() {
    assert!(Certificate::empty_cert().votes.is_empty());
    assert!(Certificate::default().votes.is_empty());
    let _t = Transaction { data: vec![1], request: vec![2] };
    let _b = VoteType::Vote(vec![3]);
}

#[test]
fn deadlines_in_quanta() {
    assert_eq!(end_of_epoch(3), Deadline::SinceBegin(33));
    assert_eq!(within_epoch(3, 7), Deadline::SinceBegin(29));
    assert_eq!(within_epoch(1, 8), Deadline::SinceBegin(8));
}

#[test]
fn rotation_wraps_around() {
    let mut c = Context::new(3, 1, 0, vec![0; 32]);
    assert_eq!(c.next_of(2), 0);
    assert_eq!(c.next_leader(), 1);
    let mut seen = Vec::new();
    for _ in 0..6 {
        c.phase = Phase::End;
        let (_o, _d, _s) = c.end_phase();
        seen.push(c.last_leader);
    }
    assert_eq!(seen, vec![1, 2, 0, 1, 2, 0]);
    assert_eq!(c.epoch, 6);
}

#[test]
fn end_phase_tells_next_leader_to_stage() {
    let mut c = Context::new(4, 1, 2, vec![0; 32]);
    let (out, d, stage) = c.end_phase();
    assert!(stage);
    assert_eq!(d, Deadline::SinceBegin(7));
    assert_eq!(out.len(), 1);
    assert_eq!(out[0].to, Destination::To(1));
    let mut leader = Context::new(4, 1, 1, vec![0; 32]);
    let (out, d, stage) = leader.end_phase();
    assert!(!stage && out.is_empty());
    assert_eq!(d, Deadline::FromNow(2));
}

#[test]
fn store_latest_insert_wins() {
    let mut s = Storage::new();
    assert!(s.get_by_ht(0).is_none());
    s.insert(block(1, 0x10));
    s.insert(block(1, 0x20));
    assert_eq!(s.get_by_ht(1).unwrap().hash, vec![0x20; 32]);
    assert_eq!(s.get_by_hash(&vec![0x10; 32]).unwrap().header.height, 1);
    assert!(s.get_by_hash(&vec![0x30; 32]).is_none());
    assert_eq!(s.len(), 2);
}

#[test]
fn gatherer_threshold_and_slots() {
    let mut g = Gatherer::new();
    assert!(g.add_share(vec![1], 0, vec![9], true));
    assert!(g.reconstruct(4, 1).is_none());
    assert!(g.add_share(vec![3], 2, vec![9], true));
    assert!(g.add_share(vec![4], 3, vec![9], true));
    let slots = g.reconstruct(4, 1).expect("quorum reached");
    assert_eq!(slots, vec![Some(vec![1]), None, Some(vec![3]), Some(vec![4])]);
    g.clear();
    assert_eq!(g.shard_num(), 0);
}

#[test]
fn gatherer_drops_bad_shards() {
    let mut g = Gatherer::new();
    assert!(!g.add_share(vec![1], 0, vec![9], false));
    assert!(g.add_share(vec![1], 0, vec![9], true));
    assert!(!g.add_share(vec![5], 0, vec![9], true));
    assert!(!g.add_share(vec![2], 1, vec![8], true));
    assert_eq!(g.shard_num(), 1);
    assert_eq!(g.shard_of(0), Some(vec![1]));
    assert_eq!(g.shard_of(1), None);
}

#[test]
fn gatherer_convergence_ignores_invalid() {
    let mut g = Gatherer::new();
    for s in 0..3u16 {
        assert!(!g.add_share(vec![0xEE], s + 10, vec![7], false));
        assert!(g.add_share(vec![s as u8], s, vec![7], true));
    }
    let slots = g.reconstruct(4, 1).unwrap();
    assert_eq!(slots, vec![Some(vec![0]), Some(vec![1]), Some(vec![2]), None]);
}

#[test]
fn share_queue_monotone_and_take() {
    let mut q = ShareQueue::new();
    assert!(q.offer(vec![1], 1));
    assert!(q.offer(vec![2], 2));
    assert!(!q.offer(vec![3], 1));
    assert!(q.offer(vec![4], 2));
    assert!(q.offer(vec![5], 3));
    assert_eq!(q.take_epoch(2), vec![vec![2], vec![4]]);
    assert_eq!(q.len(), 1);
    assert_eq!(q.pop_front(), Some(vec![5]));
    assert_eq!(q.pop_front(), None);
}

#[test]
fn reconstruct_from_unknown_author_is_ignored() {
    let mut c = Context::new(4, 1, 0, vec![0; 32]);
    assert!(!c.on_reconstruct(vec![1], 4, 0));
    assert!(c.on_reconstruct(vec![1], 3, 5));
    assert!(!c.on_reconstruct(vec![1], 3, 4));
}

#[test]
fn too_few_beacon_shares_give_nothing() {
    let mut c = Context::new(4, 1, 0, vec![0; 32]);
    let (_o, _d, _s) = c.end_phase();
    c.on_reconstruct(vec![1], 0, 0);
    c.on_reconstruct(vec![2], 0, 1);
    c.on_reconstruct(vec![3], 0, 1);
    c.phase = Phase::End;
    let taken = c.take_beacon_shares();
    assert!(taken[0].is_none());
    assert_eq!(c.reconstruct_queue[0].len(), 0);
}

#[test]
fn stage_and_reveal_beacon_shares() {
    let mut c = Context::new(4, 1, 2, vec![0; 32]);
    let (_o, _d, stage) = c.end_phase();
    assert!(stage);
    let shares: Vec<Vec<Vec<u8>>> = (0..4u8).map(|j| (0..4u8).map(|k| vec![j, k]).collect()).collect();
    let out = c.stage_commit(&shares, vec![vec![0xC0]], vec![0x51]);
    assert_eq!(out.len(), 3);
    let targets: Vec<Destination> = out.iter().map(|o| o.to).collect();
    assert_eq!(targets, vec![Destination::To(0), Destination::To(1), Destination::To(3)]);
    match &out[2].msg {
        ProtocolMsg::Commit(s, cm, z) => {
            assert_eq!(s, &shares[3]);
            assert_eq!(cm, &vec![vec![0xC0]]);
            assert_eq!(z, &vec![0x51]);
        }
        _ => panic!("expected a Commit message"),
    }
    assert_eq!(c.rand_beacon_queue[2].len(), 4);
    let revealed = c.reveal_shares();
    assert_eq!(revealed.len(), 1);
    match &revealed[0].msg {
        ProtocolMsg::Reconstruct(s, a, e) => {
            assert_eq!(s, &vec![2, 0]);
            assert_eq!(*a, 2);
            assert_eq!(*e, 1);
        }
        _ => panic!("expected a Reconstruct message"),
    }
}

#[test]
fn commit_message_queues_under_next_leader() {
    let mut c = Context::new(4, 1, 0, vec![0; 32]);
    c.on_commit(vec![vec![1], vec![2]], vec![vec![3]], vec![4]);
    assert_eq!(c.rand_beacon_queue[1].len(), 2);
    assert!(c.received_commit.is_some());
}

#[test]
fn commit_dispersal_completes_and_acks() {
    let mut c = Context::new(4, 1, 0, vec![0; 32]);
    for s in 1..4u16 {
        let _ = c.on_deliver(Dispersal::Commit, vec![s as u8], s, vec![1], true);
    }
    assert!(c.commit_complete());
    let ack = c.ack_commit(vec![0xAA; 32], vec![0x0B]).expect("not the next leader");
    assert_eq!(ack.to, Destination::To(1));
    let next = Context::new(4, 1, 1, vec![0; 32]);
    assert!(next.ack_commit(vec![0xAA; 32], vec![0x0B]).is_none());
}

#[test]
fn dispersal_sends_others_then_own() {
    let mut c = Context::new(4, 1, 1, vec![0; 32]);
    let shards: Vec<Vec<u8>> = (0..4u8).map(|i| vec![i]).collect();
    let out = c.disperse(Dispersal::VoteCert, &shards, &vec![6], true);
    let slots: Vec<u16> = out
        .iter()
        .map(|o| match &o.msg {
            ProtocolMsg::DeliverVoteCert(s, t, _) => {
                assert_eq!(s, &vec![*t as u8]);
                *t
            }
            _ => panic!("expected DeliverVoteCert"),
        })
        .collect();
    assert_eq!(slots, vec![0, 2, 3, 1]);
    assert!(c.vote_cert_share_sent);
    assert_eq!(c.vote_cert_gatherer.shard_num(), 1);
    assert!(c.on_deliver(Dispersal::VoteCert, vec![1], 1, vec![6], true).is_none());
}

#[test]
fn certificate_with_mixed_votes_is_refused() {
    let mut r = Context::new(4, 1, 1, vec![0; 32]);
    let (_o, _d, _s) = r.end_phase();
    r.storage.insert(block(4, 0x44));
    let mixed = Certificate {
        votes: vec![
            Vote { msg: vec![0x44; 32], origin: 0, auth: vec![] },
            Vote { msg: vec![0x45; 32], origin: 2, auth: vec![] },
        ],
    };
    r.on_certificate(mixed, true);
    assert_eq!(r.highest_height, -1);
    let good = Certificate { votes: vec![Vote { msg: vec![0x44; 32], origin: 0, auth: vec![] }] };
    r.on_certificate(good, false);
    assert_eq!(r.highest_height, -1);
    let good = Certificate { votes: vec![Vote { msg: vec![0x44; 32], origin: 0, auth: vec![] }] };
    r.on_certificate(good, true);
    assert_eq!(r.highest_height, 4);
}

#[test]
fn commit_phase_without_block_keeps_chain() {
    let mut r = Context::new(4, 1, 0, vec![0; 32]);
    let (_o, _d, _s) = r.end_phase();
    r.phase = Phase::Commit;
    let d = r.commit_phase(None);
    assert_eq!(d, Deadline::SinceBegin(11));
    assert_eq!(r.storage.len(), 1);
    assert_eq!(r.phase, Phase::End);
}
