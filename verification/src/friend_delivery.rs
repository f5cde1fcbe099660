//! Private messages to friends, and what became of a batch of them.
use vstd::prelude::*;
use crate::text::owned;

verus! {

/// A private message to a friend.
#[derive(Clone, Debug, PartialEq, Eq)]
pub struct FriendMessage {
    pub recipient: String,
    pub message: String,
}

impl FriendMessage {
    /// A private message to a friend.
    pub fn new(recipient: &str, message: &str) -> (r: Self)
        ensures
            r.recipient@ == recipient@,
            r.message@ == message@,
    {
        FriendMessage { recipient: owned(recipient), message: owned(message) }
    }

    /// Who the message is for.
    pub fn recipient(&self) -> (r: &str)
        ensures
            r@ == self.recipient@,
    {
        self.recipient.as_str()
    }

    /// What the message says.
    pub fn message(&self) -> (r: &str)
        ensures
            r@ == self.message@,
    {
        self.message.as_str()
    }
}

/// Whether a batch is known not to have been sent.
#[derive(Clone, Copy, Debug, PartialEq, Eq, Structural)]
pub enum FriendBatchFailureKind {
    ConfirmedUnsent,
    ResultUnknown,
}

/// Why a batch failed.
#[derive(Clone, Debug, PartialEq, Eq)]
pub struct FriendBatchFailure {
    pub kind: FriendBatchFailureKind,
    pub reason: String,
}

impl FriendBatchFailure {
    /// Why a batch failed.
    pub fn new(kind: FriendBatchFailureKind, reason: &str) -> (r: Self)
        ensures
            r.kind == kind,
            r.reason@ == reason@,
    {
        FriendBatchFailure { kind, reason: owned(reason) }
    }

    /// Whether the batch is known not to have been sent.
    pub fn kind(&self) -> (r: FriendBatchFailureKind)
        ensures
            r == self.kind,
    {
        self.kind
    }

    /// The reason in words.
    pub fn reason(&self) -> (r: &str)
        ensures
            r@ == self.reason@,
    {
        self.reason.as_str()
    }
}

/// What became of a batch: where it failed, which messages may be sent again.
#[derive(Clone, Debug, PartialEq, Eq)]
pub enum FriendBatchOutcome {
    Complete,
    Failed { retryable: Vec<FriendMessage>, failure: FriendBatchFailure },
}

} // verus!
