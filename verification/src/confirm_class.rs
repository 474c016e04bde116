//! How rejects of the confirm engine are treated.
use vstd::prelude::*;
use crate::chain::{ChainHub, HubView};
use crate::error::{ConsensusError, NetError, StoreFault};
use crate::hash::BlockHash;
use crate::text::{chars_contain, chars_of, contains_text, has_text, same_text};

verus! {

/// How a reject of the confirm engine is treated. Only [`ConsensusInvalid`]
/// blacklists a hash. A weaker header chain is never a reject.
///
/// [`ConsensusInvalid`]: ConfirmRejectClass::ConsensusInvalid
#[derive(Debug, Clone, Copy, PartialEq, Eq, Structural)]
pub enum ConfirmRejectClass {
    /// The block failed a consensus rule against its intended parent.
    ConsensusInvalid,
    /// Wire or rebuild mismatch: merkle, witness, parent, retarget context.
    SoftWire,
    /// Stale plan after the tip moved.
    Cascade,
    /// Store or pipeline invariant, no block rule. Once more, then halt.
    EngineFault,
    /// Given up on request.
    Cancelled,
}

/// An ASCII letter in lower case; anything else as it is.
pub open spec fn lower_char(c: char) -> char {
    if 65 <= c as int && c as int <= 90 {
        (c as int + 32) as char
    } else {
        c
    }
}

/// Text with its ASCII letters in lower case.
pub open spec fn lower_text(s: Seq<char>) -> Seq<char> {
    s.map_values(|c: char| lower_char(c))
}

fn lower_ascii(c: char) -> (r: char)
    ensures
        r == lower_char(c),
{
    match c {
        'A' => 'a',
        'B' => 'b',
        'C' => 'c',
        'D' => 'd',
        'E' => 'e',
        'F' => 'f',
        'G' => 'g',
        'H' => 'h',
        'I' => 'i',
        'J' => 'j',
        'K' => 'k',
        'L' => 'l',
        'M' => 'm',
        'N' => 'n',
        'O' => 'o',
        'P' => 'p',
        'Q' => 'q',
        'R' => 'r',
        'S' => 's',
        'T' => 't',
        'U' => 'u',
        'V' => 'v',
        'W' => 'w',
        'X' => 'x',
        'Y' => 'y',
        'Z' => 'z',
        _ => c,
    }
}

fn lower_chars(s: &str) -> (r: Vec<char>)
    ensures
        r@ == lower_text(s@),
{
    let c = chars_of(s);
    let mut out: Vec<char> = Vec::new();
    let mut i: usize = 0;
    while i < c.len()
        invariant
            i <= c@.len(),
            c@ == s@,
            out@.len() == i,
            forall|j: int| 0 <= j < i ==> #[trigger] out@[j] == lower_char(c@[j]),
        decreases c@.len() - i,
    {
        out.push(lower_ascii(c[i]));
        i = i + 1;
    }
    assert(out@ =~= lower_text(s@));
    out
}

/// Does this text say that a block's parent is not the tip?
pub open spec fn bad_prev_text(err: Seq<char>) -> bool {
    has_text(err, "unexpected previous header"@)
}

/// Does this text say that a block's parent is not the tip?
pub fn is_bad_prev_err(err: &str) -> (b: bool)
    ensures
        b == bad_prev_text(err@),
{
    contains_text(err, "unexpected previous header")
}

/// Wire or rebuild mismatch, by its lower-case text.
pub open spec fn soft_text(s: Seq<char>) -> bool {
    ||| has_text(s, "merkle root mismatch"@)
    ||| has_text(s, "bad-txnmrklroot"@)
    ||| has_text(s, "witness commitment"@)
    ||| has_text(s, "missing retarget first header"@)
}

/// Stale plan, by its lower-case text.
pub open spec fn cascade_text(s: Seq<char>) -> bool {
    ||| has_text(s, "fk mismatch"@)
    ||| has_text(s, "plan not committed in order"@)
    ||| has_text(s, "connect height not tip+1"@)
}

/// Store or pipeline invariant, by its lower-case text.
pub open spec fn engine_text(s: Seq<char>) -> bool {
    ||| has_text(s, "parent create_fk unresolved"@)
    ||| has_text(s, "spend annotate missing pin denserels"@)
    ||| has_text(s, "corrupt record"@)
    ||| has_text(s, "io error"@)
}

/// Broken consensus rule, by its lower-case text.
pub open spec fn consensus_text(s: Seq<char>) -> bool {
    ||| has_text(s, "script verification"@)
    ||| has_text(s, "prevout already spent"@)
    ||| has_text(s, "pow invalid"@)
    ||| has_text(s, "bad-version"@)
    ||| has_text(s, "bad transaction"@)
    ||| has_text(s, "bad block"@)
    ||| has_text(s, "bad header"@)
    ||| has_text(s, "missing prevout"@)
}

/// The class that an error text stands for; an unknown text is a cascade.
pub open spec fn class_of_text(err: Seq<char>, session_fault: bool) -> ConfirmRejectClass {
    let s = lower_text(err);
    if has_text(s, "confirm cancelled"@) || has_text(s, "cancelled:"@) {
        ConfirmRejectClass::Cancelled
    } else if bad_prev_text(err) || soft_text(s) {
        ConfirmRejectClass::SoftWire
    } else if cascade_text(s) {
        ConfirmRejectClass::Cascade
    } else if session_fault || engine_text(s) {
        ConfirmRejectClass::EngineFault
    } else if consensus_text(s) {
        ConfirmRejectClass::ConsensusInvalid
    } else {
        ConfirmRejectClass::Cascade
    }
}

/// The class of a confirm failure.
pub open spec fn class_of_consensus(e: ConsensusError) -> ConfirmRejectClass {
    match e {
        ConsensusError::Cancelled => ConfirmRejectClass::Cancelled,
        ConsensusError::BadPrev => ConfirmRejectClass::SoftWire,
        ConsensusError::BadBlock(m) => if m@ == "merkle root mismatch"@ {
            ConfirmRejectClass::SoftWire
        } else {
            ConfirmRejectClass::ConsensusInvalid
        },
        ConsensusError::BadHeader(m) => if m@ == "missing retarget first header"@ {
            ConfirmRejectClass::SoftWire
        } else {
            ConfirmRejectClass::ConsensusInvalid
        },
        ConsensusError::BadTx(_) => ConfirmRejectClass::ConsensusInvalid,
        ConsensusError::Script(_) => ConfirmRejectClass::ConsensusInvalid,
        ConsensusError::PrevoutSpent => ConfirmRejectClass::ConsensusInvalid,
        ConsensusError::InvalidPow => ConfirmRejectClass::ConsensusInvalid,
        ConsensusError::BadVersion(_) => ConfirmRejectClass::ConsensusInvalid,
        ConsensusError::MissingPrevout => ConfirmRejectClass::ConsensusInvalid,
        ConsensusError::Store(e) => match e.fault {
            StoreFault::Cancelled => ConfirmRejectClass::Cancelled,
            StoreFault::Corrupt(m) => if e.session_fault {
                ConfirmRejectClass::EngineFault
            } else {
                class_of_text(m@, false)
            },
            _ => ConfirmRejectClass::EngineFault,
        },
    }
}

/// The class of a failed load, shown as `text`.
pub open spec fn class_of_net(
    e: NetError,
    text: Seq<char>,
    session_fault: bool,
) -> ConfirmRejectClass {
    match e {
        NetError::Cancelled => ConfirmRejectClass::Cancelled,
        NetError::Mutated(_) => ConfirmRejectClass::SoftWire,
        NetError::BadPrev => ConfirmRejectClass::SoftWire,
        NetError::ConnectFailed(m) => class_of_text(m@, session_fault),
        NetError::Consensus(m) => class_of_text(m@, session_fault),
        _ => class_of_text(text, session_fault),
    }
}

impl ConfirmRejectClass {
    /// The class once the parent of `hash` is looked at: a broken rule counts only
    /// where the block was tried on its own parent.
    pub open spec fn trusted(self, hub: HubView, hash: BlockHash) -> ConfirmRejectClass {
        if self != ConfirmRejectClass::ConsensusInvalid {
            self
        } else if hub.parents.contains_key(hash) {
            if hub.tip_hash() == Some(hub.parents[hash]) {
                ConfirmRejectClass::ConsensusInvalid
            } else {
                ConfirmRejectClass::Cascade
            }
        } else if hub.unreadable.contains(hash) {
            ConfirmRejectClass::Cascade
        } else {
            ConfirmRejectClass::ConsensusInvalid
        }
    }

    /// The class once the size of the failing wave is looked at.
    pub open spec fn isolated(self, batch_len: usize) -> ConfirmRejectClass {
        if self == ConfirmRejectClass::ConsensusInvalid && batch_len > 1 {
            ConfirmRejectClass::Cascade
        } else {
            self
        }
    }

    /// The class that an error text stands for. `session_fault` says whether the
    /// store takes the text for an unusable io session.
    pub fn from_err_str(err: &str, session_fault: bool) -> (c: ConfirmRejectClass)
        ensures
            c == class_of_text(err@, session_fault),
    {
        let s = lower_chars(err);
        if chars_contain(&s, "confirm cancelled") || chars_contain(&s, "cancelled:") {
            return ConfirmRejectClass::Cancelled;
        }
        if is_bad_prev_err(err) {
            return ConfirmRejectClass::SoftWire;
        }
        if chars_contain(&s, "merkle root mismatch") || chars_contain(&s, "bad-txnmrklroot")
            || chars_contain(&s, "witness commitment")
            || chars_contain(&s, "missing retarget first header") {
            return ConfirmRejectClass::SoftWire;
        }
        if chars_contain(&s, "fk mismatch") || chars_contain(&s, "plan not committed in order")
            || chars_contain(&s, "connect height not tip+1") {
            return ConfirmRejectClass::Cascade;
        }
        if session_fault {
            return ConfirmRejectClass::EngineFault;
        }
        if chars_contain(&s, "parent create_fk unresolved")
            || chars_contain(&s, "spend annotate missing pin denserels")
            || chars_contain(&s, "corrupt record") || chars_contain(&s, "io error") {
            return ConfirmRejectClass::EngineFault;
        }
        if chars_contain(&s, "script verification") || chars_contain(&s, "prevout already spent")
            || chars_contain(&s, "pow invalid") || chars_contain(&s, "bad-version")
            || chars_contain(&s, "bad transaction") || chars_contain(&s, "bad block")
            || chars_contain(&s, "bad header") || chars_contain(&s, "missing prevout") {
            return ConfirmRejectClass::ConsensusInvalid;
        }
        ConfirmRejectClass::Cascade
    }

    /// The class of a confirm failure.
    pub fn from_consensus(err: &ConsensusError) -> (c: ConfirmRejectClass)
        ensures
            c == class_of_consensus(*err),
    {
        match err {
            ConsensusError::Cancelled => ConfirmRejectClass::Cancelled,
            ConsensusError::BadPrev => ConfirmRejectClass::SoftWire,
            ConsensusError::BadBlock(m) => if same_text(m.as_str(), "merkle root mismatch") {
                ConfirmRejectClass::SoftWire
            } else {
                ConfirmRejectClass::ConsensusInvalid
            },
            ConsensusError::BadHeader(m) => if same_text(m.as_str(), "missing retarget first header") {
                ConfirmRejectClass::SoftWire
            } else {
                ConfirmRejectClass::ConsensusInvalid
            },
            ConsensusError::BadTx(_) | ConsensusError::Script(_) | ConsensusError::PrevoutSpent
            | ConsensusError::InvalidPow | ConsensusError::BadVersion(_)
            | ConsensusError::MissingPrevout => ConfirmRejectClass::ConsensusInvalid,
            ConsensusError::Store(e) => match &e.fault {
                StoreFault::Cancelled => ConfirmRejectClass::Cancelled,
                StoreFault::Corrupt(m) => if e.session_fault {
                    ConfirmRejectClass::EngineFault
                } else {
                    ConfirmRejectClass::from_err_str(m.as_str(), false)
                },
                _ => ConfirmRejectClass::EngineFault,
            },
        }
    }

    /// The class of a failed load. `text` is how the error is shown.
    pub fn from_net(err: &NetError, text: &str, session_fault: bool) -> (c: ConfirmRejectClass)
        ensures
            c == class_of_net(*err, text@, session_fault),
    {
        match err {
            NetError::Cancelled => ConfirmRejectClass::Cancelled,
            NetError::Mutated(_) => ConfirmRejectClass::SoftWire,
            NetError::BadPrev => ConfirmRejectClass::SoftWire,
            NetError::ConnectFailed(m) => ConfirmRejectClass::from_err_str(
                m.as_str(),
                session_fault,
            ),
            NetError::Consensus(m) => ConfirmRejectClass::from_err_str(m.as_str(), session_fault),
            _ => ConfirmRejectClass::from_err_str(text, session_fault),
        }
    }

    /// Is this a wire mismatch?
    pub fn is_soft(self) -> (b: bool)
        ensures
            b == (self == ConfirmRejectClass::SoftWire),
    {
        self == ConfirmRejectClass::SoftWire
    }

    /// A broken rule is trusted only where the block was tried on its own parent;
    /// otherwise it is a cascade. A block without a header row keeps its class. One
    /// whose row could not be read is a cascade: that is no block rule.
    pub fn trust_consensus(self, hub: &ChainHub, hash: &BlockHash) -> (c: ConfirmRejectClass)
        ensures
            c == self.trusted(hub@, *hash),
    {
        if self != ConfirmRejectClass::ConsensusInvalid {
            return self;
        }
        match hub.parent_hash_of(hash) {
            Some(prev) => match hub.tip_hash() {
                Some(t) if t == prev => ConfirmRejectClass::ConsensusInvalid,
                _ => ConfirmRejectClass::Cascade,
            },
            None => if hub.unreadable.contains(hash) {
                ConfirmRejectClass::Cascade
            } else {
                ConfirmRejectClass::ConsensusInvalid
            },
        }
    }

    /// A wave of several blocks blames its first hash, which may not be the one at
    /// fault: it is tried again one block at a time, not blacklisted.
    pub fn isolate_if_batched(self, batch_len: usize) -> (c: ConfirmRejectClass)
        ensures
            c == self.isolated(batch_len),
    {
        if self == ConfirmRejectClass::ConsensusInvalid && batch_len > 1 {
            ConfirmRejectClass::Cascade
        } else {
            self
        }
    }
}

/// Only a lone block that broke a rule on its own parent ends up blacklisted.
pub proof fn law_blacklist_needs_a_lone_block_on_its_parent(
    c: ConfirmRejectClass,
    hub: HubView,
    hash: BlockHash,
    batch_len: usize,
)
    ensures
        c.trusted(hub, hash).isolated(batch_len) == ConfirmRejectClass::ConsensusInvalid ==> c
            == ConfirmRejectClass::ConsensusInvalid && batch_len <= 1 && (
        !hub.parents.contains_key(hash) || hub.tip_hash() == Some(hub.parents[hash])),
{
}

} // verus!
