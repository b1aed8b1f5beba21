//! The six phases of an epoch and when each one ends.
use vstd::prelude::*;

verus! {

/// The phase an epoch is in.
#[derive(PartialEq, Eq, Structural, Clone, Copy, Debug)]
pub enum Phase {
    Propose,
    DeliverPropose,
    DeliverCommit,
    Vote,
    Commit,
    End,
}

/// The printable name of a phase.
pub open spec fn phase_name(p: Phase) -> Seq<char> {
    match p {
        Phase::Propose => "Propose"@,
        Phase::DeliverPropose => "DeliverPropose"@,
        Phase::DeliverCommit => "DeliverCommit"@,
        Phase::Vote => "Vote"@,
        Phase::Commit => "Commit"@,
        Phase::End => "End"@,
    }
}

impl Phase {
    /// The name of the phase.
    pub fn to_string(&self) -> (r: &'static str)
        ensures
            r@ == phase_name(*self),
    {
        match self {
            Phase::Propose => "Propose",
            Phase::DeliverPropose => "DeliverPropose",
            Phase::DeliverCommit => "DeliverCommit",
            Phase::Vote => "Vote",
            Phase::Commit => "Commit",
            Phase::End => "End",
        }
    }
}

/// When the next phase ends, in multiples of the scheduling quantum.
#[derive(PartialEq, Eq, Structural, Clone, Copy, Debug)]
pub enum Deadline {
    /// `n` quanta after the base instant of the run.
    SinceBegin(u64),
    /// `n` quanta after the moment the deadline is set.
    FromNow(u64),
}

/// Number of quanta in one epoch.
pub const EPOCH_QUANTA: u64 = 11;

/// The largest epoch number whose deadlines are representable.
pub const MAX_EPOCH: i64 = 0x0ba2_e8ba_2e8b_a2e8;

/// The epoch boundary that ends epoch `e`: `11 * e` quanta after the start.
pub fn end_of_epoch(e: i64) -> (r: Deadline)
    requires
        0 <= e <= MAX_EPOCH,
    ensures
        r == Deadline::SinceBegin((11 * e) as u64),
{
    Deadline::SinceBegin(EPOCH_QUANTA * (e as u64))
}

/// Point `k` quanta into epoch `e` (which starts `11 * (e - 1)` quanta in).
pub fn within_epoch(e: i64, k: u64) -> (r: Deadline)
    requires
        1 <= e <= MAX_EPOCH,
        k <= EPOCH_QUANTA,
    ensures
        r == Deadline::SinceBegin((11 * (e - 1) + k) as u64),
{
    Deadline::SinceBegin(EPOCH_QUANTA * ((e - 1) as u64) + k)
}

} // verus!
