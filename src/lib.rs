//! One replica of a leader-rotating, epoch-paced BFT replication protocol:
//! the wire types, the committed block store, the verifiable shard gatherer,
//! the random beacon accumulator and the per-epoch state machine.
pub mod beacon;
pub mod context;
pub mod dispersal;
pub mod epoch;
pub mod gatherer;
pub mod laws;
pub mod msg;
pub mod phase;
pub mod reactor;
pub mod rotation;
pub mod store;
pub mod types;
