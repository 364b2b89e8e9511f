use vstd::prelude::*;

verus! {

/// Failures reported by the ledger, the reward engine and the surrounding node.
#[derive(Debug, Clone, PartialEq, Eq)]
pub enum CryptoNodeError {
    Io(String),
    Bluetooth(String),
    Wallet(String),
    Transaction(String),
    Bandwidth(String),
    Storage(String),
    Config(String),
    Serialization(String),
    CryptoOperation(String),
    Security(String),
    Device(String),
    Network(String),
    InvalidInput(String),
    NotImplemented(String),
    Timeout,
    Cancelled,
    NotFound(String),
    PermissionDenied(String),
    ResourceBusy(String),
    Unknown(String),
}

impl CryptoNodeError {
    /// The text that a failure carries, if it carries one.
    pub open spec fn detail(&self) -> Option<Seq<char>> {
        match self {
            CryptoNodeError::Timeout => None,
            CryptoNodeError::Cancelled => None,
            CryptoNodeError::Io(m) => Some(m@),
            CryptoNodeError::Bluetooth(m) => Some(m@),
            CryptoNodeError::Wallet(m) => Some(m@),
            CryptoNodeError::Transaction(m) => Some(m@),
            CryptoNodeError::Bandwidth(m) => Some(m@),
            CryptoNodeError::Storage(m) => Some(m@),
            CryptoNodeError::Config(m) => Some(m@),
            CryptoNodeError::Serialization(m) => Some(m@),
            CryptoNodeError::CryptoOperation(m) => Some(m@),
            CryptoNodeError::Security(m) => Some(m@),
            CryptoNodeError::Device(m) => Some(m@),
            CryptoNodeError::Network(m) => Some(m@),
            CryptoNodeError::InvalidInput(m) => Some(m@),
            CryptoNodeError::NotImplemented(m) => Some(m@),
            CryptoNodeError::NotFound(m) => Some(m@),
            CryptoNodeError::PermissionDenied(m) => Some(m@),
            CryptoNodeError::ResourceBusy(m) => Some(m@),
            CryptoNodeError::Unknown(m) => Some(m@),
        }
    }

    /// A human-readable description of the failure: the text it carries, or
    /// a fixed phrase for a timeout or a cancellation.
    pub fn message(&self) -> (r: String)
        ensures
            self.detail() is Some ==> r@ == self.detail()->Some_0,
            self is Timeout ==> r@ == "Operation timeout"@,
            self is Cancelled ==> r@ == "Operation cancelled"@,
    {
        match self {
            CryptoNodeError::Timeout => "Operation timeout".to_string(),
            CryptoNodeError::Cancelled => "Operation cancelled".to_string(),
            CryptoNodeError::Io(m) => m.clone(),
            CryptoNodeError::Bluetooth(m) => m.clone(),
            CryptoNodeError::Wallet(m) => m.clone(),
            CryptoNodeError::Transaction(m) => m.clone(),
            CryptoNodeError::Bandwidth(m) => m.clone(),
            CryptoNodeError::Storage(m) => m.clone(),
            CryptoNodeError::Config(m) => m.clone(),
            CryptoNodeError::Serialization(m) => m.clone(),
            CryptoNodeError::CryptoOperation(m) => m.clone(),
            CryptoNodeError::Security(m) => m.clone(),
            CryptoNodeError::Device(m) => m.clone(),
            CryptoNodeError::Network(m) => m.clone(),
            CryptoNodeError::InvalidInput(m) => m.clone(),
            CryptoNodeError::NotImplemented(m) => m.clone(),
            CryptoNodeError::NotFound(m) => m.clone(),
            CryptoNodeError::PermissionDenied(m) => m.clone(),
            CryptoNodeError::ResourceBusy(m) => m.clone(),
            CryptoNodeError::Unknown(m) => m.clone(),
        }
    }
}

} // verus!
