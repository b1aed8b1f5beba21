//! The protocol messages exchanged between replicas, and where each one goes.
use vstd::prelude::*;
use crate::types::{Certificate, Height, Propose, Replica, Vote};

verus! {

/// A protocol message. Shards, beacon shares, beacon commitments and dispersal
/// authenticators travel as the bytes the cryptographic layer produced.
pub enum ProtocolMsg {
    Certificate(Certificate),
    Propose(Propose, Vec<u8>),
    Vote(Vote),
    VoteCert(Certificate, Vec<u8>),
    DeliverPropose(Vec<u8>, Replica, Vec<u8>),
    DeliverVoteCert(Vec<u8>, Replica, Vec<u8>),
    Reconstruct(Vec<u8>, Replica, Height),
    Commit(Vec<Vec<u8>>, Vec<Vec<u8>>, Vec<u8>),
    DeliverCommit(Vec<u8>, Replica, Vec<u8>),
    Ack(Vote),
}

/// The printable name of a message's variant.
pub open spec fn msg_name(m: ProtocolMsg) -> Seq<char> {
    match m {
        ProtocolMsg::Certificate(_) => "Certificate"@,
        ProtocolMsg::Propose(_, _) => "Propose"@,
        ProtocolMsg::Vote(_) => "Vote"@,
        ProtocolMsg::VoteCert(_, _) => "VoteCert"@,
        ProtocolMsg::DeliverPropose(_, _, _) => "DeliverPropose"@,
        ProtocolMsg::DeliverVoteCert(_, _, _) => "DeliverVoteCert"@,
        ProtocolMsg::Reconstruct(_, _, _) => "Reconstruct"@,
        ProtocolMsg::Commit(_, _, _) => "Commit"@,
        ProtocolMsg::DeliverCommit(_, _, _) => "DeliverCommit"@,
        ProtocolMsg::Ack(_) => "Ack"@,
    }
}

impl ProtocolMsg {
    /// The name of the message's variant.
    pub fn to_string(&self) -> (r: &'static str)
        ensures
            r@ == msg_name(*self),
    {
        match self {
            ProtocolMsg::Certificate(_) => "Certificate",
            ProtocolMsg::Propose(_, _) => "Propose",
            ProtocolMsg::Vote(_) => "Vote",
            ProtocolMsg::VoteCert(_, _) => "VoteCert",
            ProtocolMsg::DeliverPropose(_, _, _) => "DeliverPropose",
            ProtocolMsg::DeliverVoteCert(_, _, _) => "DeliverVoteCert",
            ProtocolMsg::Reconstruct(_, _, _) => "Reconstruct",
            ProtocolMsg::Commit(_, _, _) => "Commit",
            ProtocolMsg::DeliverCommit(_, _, _) => "DeliverCommit",
            ProtocolMsg::Ack(_) => "Ack",
        }
    }
}

/// Which of the three dispersals of an epoch a shard belongs to.
#[derive(PartialEq, Eq, Structural, Clone, Copy, Debug)]
pub enum Dispersal {
    /// The leader's proposal.
    Proposal,
    /// The certificate formed from the votes.
    VoteCert,
    /// The next leader's beacon commitments.
    Commit,
}

/// Where an outgoing message goes.
#[derive(PartialEq, Eq, Structural, Clone, Copy, Debug)]
pub enum Destination {
    /// To every peer but this replica.
    Broadcast,
    /// To one replica.
    To(Replica),
}

/// A message to send, with its destination.
pub struct Outgoing {
    pub to: Destination,
    pub msg: ProtocolMsg,
}

/// `m` is the shard message of dispersal `k` carrying `shard` for slot
/// `target` under authenticator `sign`.
pub open spec fn is_deliver(m: ProtocolMsg, k: Dispersal, shard: Seq<u8>, target: Replica, sign: Seq<u8>) -> bool {
    match m {
        ProtocolMsg::DeliverPropose(s, t, z) => k == Dispersal::Proposal && s@ == shard && t == target && z@ == sign,
        ProtocolMsg::DeliverVoteCert(s, t, z) => k == Dispersal::VoteCert && s@ == shard && t == target && z@ == sign,
        ProtocolMsg::DeliverCommit(s, t, z) => k == Dispersal::Commit && s@ == shard && t == target && z@ == sign,
        _ => false,
    }
}

/// The shard message of dispersal `k`.
pub fn deliver_msg(k: Dispersal, shard: Vec<u8>, target: Replica, sign: Vec<u8>) -> (m: ProtocolMsg)
    ensures
        is_deliver(m, k, shard@, target, sign@),
{
    match k {
        Dispersal::Proposal => ProtocolMsg::DeliverPropose(shard, target, sign),
        Dispersal::VoteCert => ProtocolMsg::DeliverVoteCert(shard, target, sign),
        Dispersal::Commit => ProtocolMsg::DeliverCommit(shard, target, sign),
    }
}

} // verus!
