//! Errors of the download side.
use vstd::prelude::*;

verus! {

/// What can go wrong with a peer or on the way to it.
#[derive(Debug)]
pub enum NetError {
    /// The socket failed.
    Io(String),
    /// The peer broke the protocol.
    Protocol(String),
    /// The peer speaks the old transport only.
    V1Peer,
    /// The encrypted transport failed.
    Bip324(String),
    /// A message type the transport does not know.
    InvalidV2Type,
    Timeout,
    Disconnected,
    /// The chain side failed.
    Consensus(String),
    /// Given up on request; no fault of a block.
    Cancelled,
    /// The wire did not match its header.
    Mutated(String),
    /// The parent is not the tip.
    BadPrev,
    /// Connecting a block failed.
    ConnectFailed(String),
}

/// What the store reports.
#[derive(Debug)]
pub enum StoreFault {
    Cancelled,
    Io,
    Corrupt(String),
    BudgetFull,
    Other,
}

/// A store failure, with what the store itself says of it.
#[derive(Debug)]
pub struct StoreError {
    pub fault: StoreFault,
    /// The io session is unusable and has to be recovered.
    pub session_fault: bool,
    /// Only too much io at once: try again.
    pub backpressure: bool,
}

/// Why confirming a block failed.
#[derive(Debug)]
pub enum ConsensusError {
    Cancelled,
    BadPrev,
    BadBlock(String),
    BadHeader(String),
    BadTx(String),
    Script(String),
    PrevoutSpent,
    InvalidPow,
    BadVersion(i32),
    MissingPrevout,
    Store(StoreError),
}

impl ConsensusError {
    /// Is this an unusable io session?
    pub open spec fn session_faulted(self) -> bool {
        match self {
            ConsensusError::Store(e) => e.session_fault,
            _ => false,
        }
    }

    /// Is this an unusable io session?
    pub fn is_session_fault(&self) -> (b: bool)
        ensures
            b == self.session_faulted(),
    {
        match self {
            ConsensusError::Store(e) => e.session_fault,
            _ => false,
        }
    }
}

} // verus!
