//! What is told of a transfer: the offer shown to the user, the answer of
//! the other side, and why a transfer ended early.

use vstd::prelude::*;
use vstd::string::StringExecFns;
use crate::text::{decimal_digits, push_decimal};

verus! {

/// A transfer that a peer offers, as it is shown to the user.
#[derive(Debug, Clone)]
pub struct IncomingTransfer {
    /// The identifier under which the user's answer is awaited.
    pub transfer_id: String,
    /// The name of the offered file, as the peer gave it.
    pub filename: String,
    /// The size of the offered file in bytes.
    pub file_size: u64,
    /// The name under which the offering peer announced itself.
    pub sender_hostname: String,
    /// The address of the offering peer.
    pub sender_ip: String,
}

/// An [`IncomingTransfer`] as plain values.
pub struct IncomingTransferView {
    pub transfer_id: Seq<char>,
    pub filename: Seq<char>,
    pub file_size: u64,
    pub sender_hostname: Seq<char>,
    pub sender_ip: Seq<char>,
}

impl View for IncomingTransfer {
    type V = IncomingTransferView;

    open spec fn view(&self) -> IncomingTransferView {
        IncomingTransferView {
            transfer_id: self.transfer_id@,
            filename: self.filename@,
            file_size: self.file_size,
            sender_hostname: self.sender_hostname@,
            sender_ip: self.sender_ip@,
        }
    }
}

/// The answer of the receiving side to an offered transfer.
#[derive(Debug, Clone)]
pub struct TransferAccepted {
    /// The identifier of the transfer on the offering side.
    pub transfer_id: String,
    /// Whether the receiving side took the offer.
    pub accepted: bool,
}

/// A [`TransferAccepted`] as plain values.
pub struct TransferAcceptedView {
    pub transfer_id: Seq<char>,
    pub accepted: bool,
}

impl View for TransferAccepted {
    type V = TransferAcceptedView;

    open spec fn view(&self) -> TransferAcceptedView {
        TransferAcceptedView { transfer_id: self.transfer_id@, accepted: self.accepted }
    }
}

/// How an operation on a socket or a file failed, as far as the services
/// tell failures apart.
#[derive(Clone, Copy, Debug, PartialEq, Eq, Structural)]
pub enum IoFailure {
    /// The other side reset the connection.
    ConnectionReset,
    /// Any other failure.
    Other,
}

/// The classes of failure by which the outcome of a transfer is reported.
#[derive(Clone, Copy, Debug, PartialEq, Eq, Structural)]
pub enum FailureKind {
    InvalidData,
    InvalidInput,
    UnexpectedEof,
    PermissionDenied,
    NotFound,
    ConnectionReset,
    Other,
}

/// What is told to the user of a failure.
#[derive(Clone, Copy, Debug, PartialEq, Eq, Structural)]
pub enum Notice {
    /// The other side reset the connection.
    ConnectionReset,
    /// A connection came from an address that no known peer has.
    PeerUnknown,
}

/// Why a transfer ended early.
#[derive(Clone, Copy, Debug, PartialEq, Eq, Structural)]
pub enum TransferError {
    /// The name in the header is not well-formed UTF-8.
    InvalidFilename,
    /// The name of the file is too long for a header.
    NameTooLong,
    /// The connection ended before the whole payload had arrived.
    ConnectionClosed,
    /// No known peer has the address of the other side.
    PeerUnknown,
    /// The receiving side declined the offer.
    Rejected,
    /// The receiving side answered the offer with a byte that is neither
    /// accept nor reject.
    InvalidPermissionByte(u8),
    /// The file ended before as many bytes were read as it was said to hold.
    IncompleteRead,
    /// The receiving side did not acknowledge the payload.
    NotAcknowledged,
    /// An operation on the socket or on the file failed.
    Io(IoFailure),
}

/// The class of failure under which `e` is reported.
pub open spec fn spec_kind(e: TransferError) -> FailureKind {
    match e {
        TransferError::InvalidFilename => FailureKind::InvalidData,
        TransferError::NameTooLong => FailureKind::InvalidInput,
        TransferError::ConnectionClosed => FailureKind::UnexpectedEof,
        TransferError::PeerUnknown => FailureKind::NotFound,
        TransferError::Rejected => FailureKind::PermissionDenied,
        TransferError::InvalidPermissionByte(_) => FailureKind::InvalidData,
        TransferError::IncompleteRead => FailureKind::UnexpectedEof,
        TransferError::NotAcknowledged => FailureKind::InvalidData,
        TransferError::Io(IoFailure::ConnectionReset) => FailureKind::ConnectionReset,
        TransferError::Io(IoFailure::Other) => FailureKind::Other,
    }
}

/// What is told to the user of the failure `e`: a reset connection and an
/// unknown peer are told; every other failure ends the transfer silently.
pub open spec fn spec_notice(e: TransferError) -> Option<Notice> {
    match e {
        TransferError::Io(IoFailure::ConnectionReset) => Some(Notice::ConnectionReset),
        TransferError::PeerUnknown => Some(Notice::PeerUnknown),
        _ => None,
    }
}

/// The words in which the failure `e` is described.
pub open spec fn spec_message(e: TransferError) -> Seq<char> {
    match e {
        TransferError::InvalidFilename => "Invalid filename"@,
        TransferError::NameTooLong => "Invalid filename"@,
        TransferError::ConnectionClosed => "Connection closed"@,
        TransferError::PeerUnknown => "Unknown peer"@,
        TransferError::Rejected => "Receiver rejected transfer"@,
        TransferError::InvalidPermissionByte(b) => "Invalid permission byte: "@ + decimal_digits(
            b as nat,
        ),
        TransferError::IncompleteRead => "File read incomplete"@,
        TransferError::NotAcknowledged => "Transfer completion not acknowledged"@,
        TransferError::Io(IoFailure::ConnectionReset) => "Connection reset by peer"@,
        TransferError::Io(IoFailure::Other) => "Input or output failed"@,
    }
}

/// The words in which the user is told of `notice` about the peer `peer`.
pub open spec fn spec_notice_text(notice: Notice, peer: Seq<char>) -> Seq<char> {
    match notice {
        Notice::ConnectionReset => "Connection reset by peer: "@ + peer,
        Notice::PeerUnknown => "Unknown peer: "@ + peer,
    }
}

impl TransferError {
    /// The class of failure under which this error is reported.
    pub fn kind(&self) -> (k: FailureKind)
        ensures
            k == spec_kind(*self),
    {
        match self {
            TransferError::InvalidFilename => FailureKind::InvalidData,
            TransferError::NameTooLong => FailureKind::InvalidInput,
            TransferError::ConnectionClosed => FailureKind::UnexpectedEof,
            TransferError::PeerUnknown => FailureKind::NotFound,
            TransferError::Rejected => FailureKind::PermissionDenied,
            TransferError::InvalidPermissionByte(_) => FailureKind::InvalidData,
            TransferError::IncompleteRead => FailureKind::UnexpectedEof,
            TransferError::NotAcknowledged => FailureKind::InvalidData,
            TransferError::Io(IoFailure::ConnectionReset) => FailureKind::ConnectionReset,
            TransferError::Io(IoFailure::Other) => FailureKind::Other,
        }
    }

    /// What is told to the user of this error, if anything.
    pub fn notice(&self) -> (n: Option<Notice>)
        ensures
            n == spec_notice(*self),
    {
        match self {
            TransferError::Io(IoFailure::ConnectionReset) => Some(Notice::ConnectionReset),
            TransferError::PeerUnknown => Some(Notice::PeerUnknown),
            _ => None,
        }
    }

    /// The words in which this error is described.
    pub fn message(&self) -> (text: String)
        ensures
            text@ == spec_message(*self),
    {
        match self {
            TransferError::InvalidFilename => String::from_str("Invalid filename"),
            TransferError::NameTooLong => String::from_str("Invalid filename"),
            TransferError::ConnectionClosed => String::from_str("Connection closed"),
            TransferError::PeerUnknown => String::from_str("Unknown peer"),
            TransferError::Rejected => String::from_str("Receiver rejected transfer"),
            TransferError::InvalidPermissionByte(b) => {
                let mut text: String = String::from_str("Invalid permission byte: ");
                push_decimal(&mut text, *b as u16);
                text
            },
            TransferError::IncompleteRead => String::from_str("File read incomplete"),
            TransferError::NotAcknowledged => String::from_str(
                "Transfer completion not acknowledged",
            ),
            TransferError::Io(IoFailure::ConnectionReset) => String::from_str(
                "Connection reset by peer",
            ),
            TransferError::Io(IoFailure::Other) => String::from_str("Input or output failed"),
        }
    }
}

impl Notice {
    /// The words in which the user is told of this notice about `peer`.
    pub fn text(&self, peer: &str) -> (text: String)
        ensures
            text@ == spec_notice_text(*self, peer@),
    {
        let mut text: String = match self {
            Notice::ConnectionReset => String::from_str("Connection reset by peer: "),
            Notice::PeerUnknown => String::from_str("Unknown peer: "),
        };
        text.append(peer);
        text
    }
}

} // verus!
