//! What goes wrong, and how it is reported.

use vstd::prelude::*;

use crate::community::{community_error_text, CommunityError};
use crate::text::push_text;

verus! {

/// What a fault has to do with.
#[derive(Clone, Copy, Debug, PartialEq, Eq, Structural)]
pub enum FaultKind {
    Storage,
    Filesystem,
    Network,
    Protocol,
    InvalidMessage,
    Authorization,
}

/// The text of each kind.
pub open spec fn fault_kind_text(kind: FaultKind) -> Seq<char> {
    match kind {
        FaultKind::Storage => "storage error"@,
        FaultKind::Filesystem => "filesystem error"@,
        FaultKind::Network => "network error"@,
        FaultKind::Protocol => "protocol error"@,
        FaultKind::InvalidMessage => "invalid message"@,
        FaultKind::Authorization => "authorization error"@,
    }
}

impl FaultKind {
    /// The text of the kind.
    pub fn text(self) -> (text: &'static str)
        ensures
            text@ == fault_kind_text(self),
    {
        match self {
            FaultKind::Storage => "storage error",
            FaultKind::Filesystem => "filesystem error",
            FaultKind::Network => "network error",
            FaultKind::Protocol => "protocol error",
            FaultKind::InvalidMessage => "invalid message",
            FaultKind::Authorization => "authorization error",
        }
    }
}

/// A fault: its kind and what happened.
#[derive(Debug, PartialEq, Eq)]
pub struct Fault {
    pub kind: FaultKind,
    pub message: String,
}

/// The library's error.
pub type NodeError = Fault;

/// What a fault says.
pub struct FaultModel {
    pub kind: FaultKind,
    pub message: Seq<char>,
}

impl View for Fault {
    type V = FaultModel;

    open spec fn view(&self) -> FaultModel {
        FaultModel { kind: self.kind, message: self.message@ }
    }
}

/// A protocol fault with this text.
pub open spec fn protocol_fault(message: Seq<char>) -> FaultModel {
    FaultModel { kind: FaultKind::Protocol, message }
}

/// An authorization fault with this text.
pub open spec fn authorization_fault(message: Seq<char>) -> FaultModel {
    FaultModel { kind: FaultKind::Authorization, message }
}

/// A fault about what a message may be, with this text.
pub open spec fn invalid_fault(message: Seq<char>) -> FaultModel {
    FaultModel { kind: FaultKind::InvalidMessage, message }
}

/// A fault of the storage with this text.
pub open spec fn storage_fault(message: Seq<char>) -> FaultModel {
    FaultModel { kind: FaultKind::Storage, message }
}

/// Whether an answer is this one: the same value, or a fault that says the same.
pub open spec fn answers<T>(answer: Result<T, Fault>, expected: Result<T, FaultModel>) -> bool {
    match (answer, expected) {
        (Ok(value), Ok(wanted)) => value == wanted,
        (Err(fault), Err(wanted)) => fault@ == wanted,
        _ => false,
    }
}

impl Clone for Fault {
    fn clone(&self) -> (copy: Self)
        ensures
            copy == *self,
    {
        Fault { kind: self.kind, message: self.message.clone() }
    }
}

impl Fault {
    /// The kind.
    pub fn kind(&self) -> (kind: FaultKind)
        ensures
            kind == self.kind,
    {
        self.kind
    }

    /// What happened.
    pub fn message(&self) -> (message: &str)
        ensures
            message@ == self.message@,
    {
        self.message.as_str()
    }

    /// A fault of this kind with this text.
    pub fn new(kind: FaultKind, message: &str) -> (fault: Self)
        ensures
            fault@ == (FaultModel { kind, message: message@ }),
    {
        Fault { kind, message: message.to_owned() }
    }

    /// A network fault with this text.
    pub fn network(message: &str) -> (fault: Self)
        ensures
            fault@ == (FaultModel { kind: FaultKind::Network, message: message@ }),
    {
        Fault::new(FaultKind::Network, message)
    }

    /// A fault of the storage.
    pub fn storage(message: &str) -> (fault: Self)
        ensures
            fault@ == storage_fault(message@),
    {
        Fault::new(FaultKind::Storage, message)
    }

    /// A protocol fault with this text.
    pub fn protocol(message: &str) -> (fault: Self)
        ensures
            fault@ == protocol_fault(message@),
    {
        Fault::new(FaultKind::Protocol, message)
    }

    /// An authorization fault with this text.
    pub fn authorization(message: &str) -> (fault: Self)
        ensures
            fault@ == authorization_fault(message@),
    {
        Fault::new(FaultKind::Authorization, message)
    }

    /// A refusal by the community as a fault.
    pub fn refused(error: CommunityError) -> (fault: Self)
        ensures
            fault@ == authorization_fault(community_error_text(error)),
    {
        Fault::authorization(error.text())
    }

    /// The kind and what happened, in one line.
    pub fn to_text(&self) -> (text: String)
        ensures
            text@ == fault_kind_text(self.kind) + ": "@ + self.message@,
    {
        let mut text: String = self.kind.text().to_owned();
        push_text(&mut text, ": ");
        push_text(&mut text, self.message.as_str());
        text
    }
}

} // verus!
