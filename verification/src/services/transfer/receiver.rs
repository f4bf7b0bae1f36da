//! The receiving side of a transfer.
//!
//! A connection is told what arrived on it and answers with what is to be
//! done. It reads the header field by field, offers the transfer to the
//! user, answers the sender with one byte, takes in the payload chunk by
//! chunk, and acknowledges it with one byte:
//!
//! ```text
//! AwaitNameLength -> AwaitName -> AwaitSize -> AwaitOffer -> AwaitDecision
//!     AwaitDecision -> Closed(Rejected)                    on a refusal
//!     AwaitDecision -> Streaming -> Closed(Completed)      on an acceptance
//! ```
//!
//! A failure of the socket or of the file closes the connection from
//! wherever it stands.

use vstd::prelude::*;
use vstd::utf8::{decode_utf8, encode_utf8, valid_utf8};
use tokio::sync::oneshot::Sender;
use crate::app_state::{AppState, DeviceView};
use crate::identity::{is_id_text, new_transfer_id};
use crate::services::transfer::{Flow, Outcome};
use crate::text::{string_from_utf8, strip_separators, without_separators};
use crate::types::transfer::{IncomingTransfer, IncomingTransferView, IoFailure, TransferError};
use crate::wire::{
    announced_name_len, be_value, get_u16_be, get_u64_be, header_len, lemma_be_value_bound,
    lemma_header_round_trip, lemma_pow256_values, name_bytes, spec_decode_header,
    spec_encode_header, HeaderError, FILE_SIZE_BYTES, HEADER_ACCEPTED, HEADER_REJECTED,
    MAX_NAME_BYTES, NAME_LENGTH_BYTES, TRANSFER_COMPLETE,
};

verus! {

/// Where a receiving connection stands.
#[derive(Clone, Copy, Debug, PartialEq, Eq, Structural)]
pub enum ReceiverPhase {
    /// It waits for the two bytes that give the length of the name.
    AwaitNameLength,
    /// It waits for the bytes of the name.
    AwaitName { name_len: u16 },
    /// It waits for the eight bytes that give the size of the file.
    AwaitSize,
    /// The header is read; the transfer is to be offered to the user.
    AwaitOffer,
    /// The transfer is offered; it waits for the user's answer.
    AwaitDecision,
    /// The offer is taken; it waits for the next chunk of the payload.
    Streaming(Flow),
    /// The connection is over.
    Closed(Outcome),
}

/// What happened on a receiving connection.
#[derive(Debug, Clone)]
pub enum ReceiverEvent {
    /// The bytes that the connection waited for have arrived.
    Bytes(Vec<u8>),
    /// The user has answered; `None` where the answer will never come.
    Decision(Option<bool>),
    /// A read of the payload brought this many bytes, none at the end of the
    /// stream, and they were written to the file.
    Chunk(usize),
    /// An operation on the socket or on the file failed.
    Failed(IoFailure),
}

/// A [`ReceiverEvent`] as plain values.
pub enum ReceiverEventView {
    Bytes(Seq<u8>),
    Decision(Option<bool>),
    Chunk(usize),
    Failed(IoFailure),
}

impl View for ReceiverEvent {
    type V = ReceiverEventView;

    open spec fn view(&self) -> ReceiverEventView {
        match self {
            ReceiverEvent::Bytes(b) => ReceiverEventView::Bytes(b@),
            ReceiverEvent::Decision(d) => ReceiverEventView::Decision(*d),
            ReceiverEvent::Chunk(n) => ReceiverEventView::Chunk(*n),
            ReceiverEvent::Failed(f) => ReceiverEventView::Failed(*f),
        }
    }
}

/// What a receiving connection is to do, in the order given.
#[derive(Clone, Copy, Debug, PartialEq, Eq, Structural)]
pub enum ReceiverEffect {
    /// Write this byte to the socket.
    Send(u8),
    /// Create the file that takes the payload, under the name of the header
    /// less its path separators.
    CreateFile,
    /// Tell the user how far the transfer is.
    Progress { received: u64, total: u64 },
    /// Tell the user that the file has arrived.
    Completed,
}

/// What a receiving connection waits for.
#[derive(Clone, Copy, Debug, PartialEq, Eq, Structural)]
pub enum ReceiverNeed {
    /// Exactly this many bytes from the socket.
    Exact(usize),
    /// The offer of the transfer to the user.
    Offer,
    /// The answer of the user.
    Decision,
    /// The next bytes of the payload, at most this many.
    Chunk(usize),
    /// Nothing: the connection is over.
    Nothing,
}

/// A receiving connection.
#[derive(Debug)]
pub struct Receiver {
    phase: ReceiverPhase,
    filename: String,
    file_size: u64,
}

/// A [`Receiver`] as plain values.
pub struct ReceiverView {
    /// Where the connection stands.
    pub phase: ReceiverPhase,
    /// The name of the file; empty until the name is read.
    pub filename: Seq<char>,
    /// The size of the file; 0 until the size is read.
    pub file_size: u64,
}

impl View for Receiver {
    type V = ReceiverView;

    closed spec fn view(&self) -> ReceiverView {
        ReceiverView { phase: self.phase, filename: self.filename@, file_size: self.file_size }
    }
}

impl ReceiverView {
    /// What holds of every connection: while the payload comes in, its count
    /// is that of the file of the header, is in order, and is short of the
    /// end.
    pub open spec fn valid(self) -> bool {
        self.phase matches ReceiverPhase::Streaming(flow) ==> flow.total == self.file_size
            && flow.valid() && !flow.complete()
    }

    /// What the connection waits for.
    pub open spec fn need(self) -> ReceiverNeed {
        match self.phase {
            ReceiverPhase::AwaitNameLength => ReceiverNeed::Exact(NAME_LENGTH_BYTES),
            ReceiverPhase::AwaitName { name_len } => ReceiverNeed::Exact(name_len as usize),
            ReceiverPhase::AwaitSize => ReceiverNeed::Exact(FILE_SIZE_BYTES),
            ReceiverPhase::AwaitOffer => ReceiverNeed::Offer,
            ReceiverPhase::AwaitDecision => ReceiverNeed::Decision,
            ReceiverPhase::Streaming(flow) => ReceiverNeed::Chunk(flow.limit() as usize),
            ReceiverPhase::Closed(_) => ReceiverNeed::Nothing,
        }
    }

    /// Whether `event` is one that the connection takes in: what it waits
    /// for, in the size asked for, or a failure before one has closed it.
    pub open spec fn admits(self, event: ReceiverEventView) -> bool {
        match event {
            ReceiverEventView::Bytes(b) => self.need() matches ReceiverNeed::Exact(n) && b.len()
                == n,
            ReceiverEventView::Decision(_) => self.need() == ReceiverNeed::Decision,
            ReceiverEventView::Chunk(n) => self.need() matches ReceiverNeed::Chunk(limit) && n
                <= limit,
            ReceiverEventView::Failed(_) => !(self.phase matches ReceiverPhase::Closed(
                Outcome::Failed(_),
            )),
        }
    }

    /// The connection after the bytes `b` that it waited for.
    pub open spec fn after_bytes(self, b: Seq<u8>) -> ReceiverView {
        match self.phase {
            ReceiverPhase::AwaitNameLength => ReceiverView {
                phase: ReceiverPhase::AwaitName { name_len: be_value(b) as u16 },
                ..self
            },
            ReceiverPhase::AwaitName { name_len } => if valid_utf8(b) {
                ReceiverView { phase: ReceiverPhase::AwaitSize, filename: decode_utf8(b), ..self }
            } else {
                ReceiverView {
                    phase: ReceiverPhase::Closed(Outcome::Failed(TransferError::InvalidFilename)),
                    ..self
                }
            },
            ReceiverPhase::AwaitSize => ReceiverView {
                phase: ReceiverPhase::AwaitOffer,
                file_size: be_value(b) as u64,
                ..self
            },
            _ => self,
        }
    }

    /// The connection after the answer `decision`: anything but a plain yes
    /// is a refusal.
    pub open spec fn after_decision(self, decision: Option<bool>) -> ReceiverView {
        if decision != Some(true) {
            ReceiverView { phase: ReceiverPhase::Closed(Outcome::Rejected), ..self }
        } else if self.file_size == 0 {
            ReceiverView { phase: ReceiverPhase::Closed(Outcome::Completed), ..self }
        } else {
            ReceiverView {
                phase: ReceiverPhase::Streaming(
                    Flow { total: self.file_size, moved: 0, reported: 0 },
                ),
                ..self
            }
        }
    }

    /// What is to be done after the answer `decision`.
    pub open spec fn effects_of_decision(self, decision: Option<bool>) -> Seq<ReceiverEffect> {
        if decision != Some(true) {
            seq![ReceiverEffect::Send(HEADER_REJECTED)]
        } else if self.file_size == 0 {
            seq![
                ReceiverEffect::Send(HEADER_ACCEPTED),
                ReceiverEffect::CreateFile,
                ReceiverEffect::Send(TRANSFER_COMPLETE),
                ReceiverEffect::Completed,
            ]
        } else {
            seq![ReceiverEffect::Send(HEADER_ACCEPTED), ReceiverEffect::CreateFile]
        }
    }

    /// The connection after a read of the payload that brought `n` bytes
    /// while the count stood at `flow`.
    pub open spec fn after_chunk(self, flow: Flow, n: usize) -> ReceiverView {
        if n == 0 {
            ReceiverView {
                phase: ReceiverPhase::Closed(Outcome::Failed(TransferError::ConnectionClosed)),
                ..self
            }
        } else if flow.advanced(n as nat).complete() {
            ReceiverView { phase: ReceiverPhase::Closed(Outcome::Completed), ..self }
        } else {
            ReceiverView { phase: ReceiverPhase::Streaming(flow.advanced(n as nat)), ..self }
        }
    }

    /// What is to be done after a read of the payload that brought `n`
    /// bytes while the count stood at `flow`.
    pub open spec fn effects_of_chunk(flow: Flow, n: usize) -> Seq<ReceiverEffect> {
        let report = if n > 0 && flow.reports_after(n as nat) {
            seq![
                ReceiverEffect::Progress {
                    received: flow.advanced(n as nat).moved,
                    total: flow.total,
                },
            ]
        } else {
            Seq::empty()
        };
        let finish = if n > 0 && flow.advanced(n as nat).complete() {
            seq![ReceiverEffect::Send(TRANSFER_COMPLETE), ReceiverEffect::Completed]
        } else {
            Seq::empty()
        };
        report + finish
    }

    /// The connection after `event`. An event that the connection does not
    /// take in leaves it as it is.
    pub open spec fn after(self, event: ReceiverEventView) -> ReceiverView {
        if !self.admits(event) {
            self
        } else {
            match event {
                ReceiverEventView::Bytes(b) => self.after_bytes(b),
                ReceiverEventView::Decision(d) => self.after_decision(d),
                ReceiverEventView::Chunk(n) => self.after_chunk(self.phase->Streaming_0, n),
                ReceiverEventView::Failed(f) => ReceiverView {
                    phase: ReceiverPhase::Closed(Outcome::Failed(TransferError::Io(f))),
                    ..self
                },
            }
        }
    }

    /// What is to be done after `event`, in order. An event that the
    /// connection does not take in asks for nothing.
    pub open spec fn effects(self, event: ReceiverEventView) -> Seq<ReceiverEffect> {
        if !self.admits(event) {
            Seq::empty()
        } else {
            match event {
                ReceiverEventView::Decision(d) => self.effects_of_decision(d),
                ReceiverEventView::Chunk(n) => Self::effects_of_chunk(self.phase->Streaming_0, n),
                _ => Seq::empty(),
            }
        }
    }
}

impl Receiver {
    /// A connection that has just been accepted: nothing is read yet.
    pub fn new() -> (receiver: Receiver)
        ensures
            receiver@ == (ReceiverView {
                phase: ReceiverPhase::AwaitNameLength,
                filename: Seq::empty(),
                file_size: 0,
            }),
            receiver@.valid(),
    {
        Receiver { phase: ReceiverPhase::AwaitNameLength, filename: String::new(), file_size: 0 }
    }

    /// Where the connection stands.
    pub fn phase(&self) -> (phase: ReceiverPhase)
        ensures
            phase == self@.phase,
    {
        self.phase
    }

    /// The name of the file, as the header gave it.
    pub fn filename(&self) -> (name: &str)
        ensures
            name@ == self@.filename,
    {
        self.filename.as_str()
    }

    /// The name under which the file is written: the name of the header
    /// without its path separators, so that the file stays in the directory
    /// that it is written to.
    pub fn destination_name(&self) -> (name: String)
        ensures
            name@ == without_separators(self@.filename),
    {
        strip_separators(self.filename.as_str())
    }

    /// The size of the file, as the header gave it.
    pub fn file_size(&self) -> (size: u64)
        ensures
            size == self@.file_size,
    {
        self.file_size
    }

    /// What the connection waits for.
    pub fn need(&self) -> (need: ReceiverNeed)
        requires
            self@.valid(),
        ensures
            need == self@.need(),
    {
        match self.phase {
            ReceiverPhase::AwaitNameLength => ReceiverNeed::Exact(NAME_LENGTH_BYTES),
            ReceiverPhase::AwaitName { name_len } => ReceiverNeed::Exact(name_len as usize),
            ReceiverPhase::AwaitSize => ReceiverNeed::Exact(FILE_SIZE_BYTES),
            ReceiverPhase::AwaitOffer => ReceiverNeed::Offer,
            ReceiverPhase::AwaitDecision => ReceiverNeed::Decision,
            ReceiverPhase::Streaming(flow) => ReceiverNeed::Chunk(flow.chunk_limit()),
            ReceiverPhase::Closed(_) => ReceiverNeed::Nothing,
        }
    }

    /// Takes in `event` and says what is to be done, in order.
    pub fn step(&mut self, event: ReceiverEvent) -> (effects: Vec<ReceiverEffect>)
        requires
            old(self)@.valid(),
        ensures
            final(self)@.valid(),
            final(self)@ == old(self)@.after(event@),
            effects@ == old(self)@.effects(event@),
    {
        let mut effects: Vec<ReceiverEffect> = Vec::new();
        match event {
            ReceiverEvent::Bytes(bytes) => {
                self.take_bytes(bytes);
            },
            ReceiverEvent::Decision(decision) => {
                if let ReceiverPhase::AwaitDecision = self.phase {
                    effects = self.take_decision(decision);
                }
            },
            ReceiverEvent::Chunk(n) => {
                if let ReceiverPhase::Streaming(flow) = self.phase {
                    if n <= flow.chunk_limit() {
                        effects = self.take_chunk(flow, n);
                    }
                }
            },
            ReceiverEvent::Failed(failure) => {
                match self.phase {
                    ReceiverPhase::Closed(Outcome::Failed(_)) => {},
                    _ => {
                        self.phase = ReceiverPhase::Closed(
                            Outcome::Failed(TransferError::Io(failure)),
                        );
                    },
                }
            },
        }
        assert(effects@ =~= old(self)@.effects(event@));
        effects
    }

    /// Takes in the bytes of a field of the header.
    fn take_bytes(&mut self, bytes: Vec<u8>)
        requires
            old(self)@.valid(),
        ensures
            final(self)@.valid(),
            final(self)@ == old(self)@.after(ReceiverEventView::Bytes(bytes@)),
    {
        match self.phase {
            ReceiverPhase::AwaitNameLength => {
                if bytes.len() == NAME_LENGTH_BYTES {
                    assert(bytes@.subrange(0, 2) =~= bytes@);
                    self.phase = ReceiverPhase::AwaitName {
                        name_len: get_u16_be(bytes.as_slice(), 0),
                    };
                }
            },
            ReceiverPhase::AwaitName { name_len } => {
                if bytes.len() == name_len as usize {
                    match string_from_utf8(bytes) {
                        Some(name) => {
                            self.filename = name;
                            self.phase = ReceiverPhase::AwaitSize;
                        },
                        None => {
                            self.phase = ReceiverPhase::Closed(
                                Outcome::Failed(TransferError::InvalidFilename),
                            );
                        },
                    }
                }
            },
            ReceiverPhase::AwaitSize => {
                if bytes.len() == FILE_SIZE_BYTES {
                    assert(bytes@.subrange(0, 8) =~= bytes@);
                    self.file_size = get_u64_be(bytes.as_slice(), 0);
                    self.phase = ReceiverPhase::AwaitOffer;
                }
            },
            _ => {},
        }
    }

    /// Takes in the answer of the user.
    fn take_decision(&mut self, decision: Option<bool>) -> (effects: Vec<ReceiverEffect>)
        requires
            old(self)@.valid(),
            old(self)@.phase == ReceiverPhase::AwaitDecision,
        ensures
            final(self)@.valid(),
            final(self)@ == old(self)@.after_decision(decision),
            effects@ == old(self)@.effects_of_decision(decision),
    {
        let mut effects: Vec<ReceiverEffect> = Vec::new();
        let accepted: bool = match decision {
            Some(answer) => answer,
            None => false,
        };
        if !accepted {
            effects.push(ReceiverEffect::Send(HEADER_REJECTED));
            self.phase = ReceiverPhase::Closed(Outcome::Rejected);
        } else {
            effects.push(ReceiverEffect::Send(HEADER_ACCEPTED));
            effects.push(ReceiverEffect::CreateFile);
            if self.file_size == 0 {
                effects.push(ReceiverEffect::Send(TRANSFER_COMPLETE));
                effects.push(ReceiverEffect::Completed);
                self.phase = ReceiverPhase::Closed(Outcome::Completed);
            } else {
                self.phase = ReceiverPhase::Streaming(Flow::start(self.file_size));
            }
        }
        assert(effects@ =~= old(self)@.effects_of_decision(decision));
        effects
    }

    /// Takes in a read of the payload.
    fn take_chunk(&mut self, flow: Flow, n: usize) -> (effects: Vec<ReceiverEffect>)
        requires
            old(self)@.valid(),
            old(self)@.phase == ReceiverPhase::Streaming(flow),
            n <= flow.limit(),
        ensures
            final(self)@.valid(),
            final(self)@ == old(self)@.after_chunk(flow, n),
            effects@ == ReceiverView::effects_of_chunk(flow, n),
    {
        let mut effects: Vec<ReceiverEffect> = Vec::new();
        if n == 0 {
            self.phase = ReceiverPhase::Closed(Outcome::Failed(TransferError::ConnectionClosed));
        } else {
            let mut count: Flow = flow;
            let report: bool = count.advance(n);
            if report {
                effects.push(ReceiverEffect::Progress { received: count.moved, total: count.total });
            }
            if count.is_complete() {
                effects.push(ReceiverEffect::Send(TRANSFER_COMPLETE));
                effects.push(ReceiverEffect::Completed);
                self.phase = ReceiverPhase::Closed(Outcome::Completed);
            } else {
                self.phase = ReceiverPhase::Streaming(count);
            }
        }
        assert(effects@ =~= ReceiverView::effects_of_chunk(flow, n));
        effects
    }
}

/// The offer that is shown to the user when the connection `receiver`,
/// which came from the peer `peer`, has read its header and the transfer
/// got the identifier `transfer_id`.
pub open spec fn offer_of(
    receiver: ReceiverView,
    peer: DeviceView,
    transfer_id: Seq<char>,
) -> IncomingTransferView {
    IncomingTransferView {
        transfer_id,
        filename: receiver.filename,
        file_size: receiver.file_size,
        sender_hostname: peer.hostname,
        sender_ip: peer.ip,
    }
}

impl Receiver {
    /// Offers the transfer to the user under the identifier `transfer_id`.
    ///
    /// Where a peer is known at the address `sender_ip` from which the
    /// connection came, the transfer waits in `app` under `transfer_id` for
    /// the answer that will travel on `decision`, the connection waits for
    /// that answer, and the result is the offer to show. Where no peer is
    /// known at that address, the connection is closed as failed, nothing
    /// waits, and `decision` is dropped.
    pub fn offer_as(
        &mut self,
        app: &mut AppState,
        sender_ip: &str,
        transfer_id: String,
        decision: Sender<bool>,
    ) -> (r: Result<IncomingTransfer, TransferError>)
        requires
            old(self)@.valid(),
            old(self)@.phase == ReceiverPhase::AwaitOffer,
            old(app).well_formed(),
        ensures
            final(self)@.valid(),
            final(app).well_formed(),
            old(app)@.peers.dom().contains(sender_ip@) ==> r is Ok && r->Ok_0@ == offer_of(
                old(self)@,
                old(app)@.peers[sender_ip@],
                transfer_id@,
            ) && final(self)@ == (ReceiverView { phase: ReceiverPhase::AwaitDecision, ..old(self)@ })
                && final(app)@ == old(app)@.with_pending(transfer_id@, decision),
            !old(app)@.peers.dom().contains(sender_ip@) ==> r == Err::<
                IncomingTransfer,
                TransferError,
            >(TransferError::PeerUnknown) && final(self)@ == (ReceiverView {
                phase: ReceiverPhase::Closed(Outcome::Failed(TransferError::PeerUnknown)),
                ..old(self)@
            }) && final(app)@ == old(app)@,
    {
        match app.find_device(sender_ip) {
            Some(peer) => {
                let offer = IncomingTransfer {
                    transfer_id: transfer_id.clone(),
                    filename: self.filename.clone(),
                    file_size: self.file_size,
                    sender_hostname: peer.hostname,
                    sender_ip: peer.ip,
                };
                app.register_pending(transfer_id, decision);
                self.phase = ReceiverPhase::AwaitDecision;
                Ok(offer)
            },
            None => {
                self.phase = ReceiverPhase::Closed(Outcome::Failed(TransferError::PeerUnknown));
                Err(TransferError::PeerUnknown)
            },
        }
    }

    /// Offers the transfer to the user under an identifier drawn for it; in
    /// all else as [`Receiver::offer_as`].
    pub fn offer(&mut self, app: &mut AppState, sender_ip: &str, decision: Sender<bool>) -> (r:
        Result<IncomingTransfer, TransferError>)
        requires
            old(self)@.valid(),
            old(self)@.phase == ReceiverPhase::AwaitOffer,
            old(app).well_formed(),
        ensures
            final(self)@.valid(),
            final(app).well_formed(),
            old(app)@.peers.dom().contains(sender_ip@) ==> r is Ok && is_id_text(
                r->Ok_0@.transfer_id,
            ) && r->Ok_0@ == offer_of(
                old(self)@,
                old(app)@.peers[sender_ip@],
                r->Ok_0@.transfer_id,
            ) && final(self)@ == (ReceiverView { phase: ReceiverPhase::AwaitDecision, ..old(self)@ })
                && final(app)@ == old(app)@.with_pending(r->Ok_0@.transfer_id, decision),
            !old(app)@.peers.dom().contains(sender_ip@) ==> r == Err::<
                IncomingTransfer,
                TransferError,
            >(TransferError::PeerUnknown) && final(self)@ == (ReceiverView {
                phase: ReceiverPhase::Closed(Outcome::Failed(TransferError::PeerUnknown)),
                ..old(self)@
            }) && final(app)@ == old(app)@,
    {
        let transfer_id: String = new_transfer_id();
        self.offer_as(app, sender_ip, transfer_id, decision)
    }
}

/// How often `effects` tell the user that the file has arrived.
pub open spec fn completions(effects: Seq<ReceiverEffect>) -> nat
    decreases effects.len(),
{
    if effects.len() == 0 {
        0
    } else {
        completions(effects.drop_last()) + if effects.last() == ReceiverEffect::Completed {
            1nat
        } else {
            0nat
        }
    }
}

/// The connection after the events `events`, one after the other.
pub open spec fn after_all(start: ReceiverView, events: Seq<ReceiverEventView>) -> ReceiverView
    decreases events.len(),
{
    if events.len() == 0 {
        start
    } else {
        after_all(start, events.drop_last()).after(events.last())
    }
}

/// All that is to be done for the events `events`, in order.
pub open spec fn effects_of_all(start: ReceiverView, events: Seq<ReceiverEventView>) -> Seq<
    ReceiverEffect,
>
    decreases events.len(),
{
    if events.len() == 0 {
        Seq::empty()
    } else {
        effects_of_all(start, events.drop_last()) + after_all(start, events.drop_last()).effects(
            events.last(),
        )
    }
}

/// A step keeps a connection valid.
pub proof fn lemma_step_keeps_valid(v: ReceiverView, event: ReceiverEventView)
    requires
        v.valid(),
    ensures
        v.after(event).valid(),
{
}

/// A refusal, spoken or by silence, is answered with the reject byte and
/// nothing else: no file is created and the connection is over.
pub proof fn lemma_refusal(v: ReceiverView, decision: Option<bool>)
    requires
        v.phase == ReceiverPhase::AwaitDecision,
        decision != Some(true),
    ensures
        v.effects(ReceiverEventView::Decision(decision)) == seq![
            ReceiverEffect::Send(HEADER_REJECTED),
        ],
        v.after(ReceiverEventView::Decision(decision)).phase == ReceiverPhase::Closed(
            Outcome::Rejected,
        ),
{
}

/// A step tells of the arrival of the file exactly when it completes the
/// transfer: the payload is then whole, its acknowledgement is written
/// first and the user is told last of all. The payload is acknowledged by
/// no other step.
pub proof fn lemma_completion(v: ReceiverView, event: ReceiverEventView)
    requires
        v.valid(),
    ensures
        completions(v.effects(event)) <= 1,
        completions(v.effects(event)) == 1 <==> !(v.phase matches ReceiverPhase::Closed(_))
            && v.after(event).phase == ReceiverPhase::Closed(Outcome::Completed),
        completions(v.effects(event)) == 1 ==> v.effects(event).len() >= 2 && v.effects(
            event,
        ).last() == ReceiverEffect::Completed && v.effects(event)[v.effects(event).len() - 2]
            == ReceiverEffect::Send(TRANSFER_COMPLETE) && (v.phase matches ReceiverPhase::Streaming(
            flow,
        ) ==> event matches ReceiverEventView::Chunk(n) && flow.moved + n == v.file_size),
        forall|i: int|
            0 <= i < v.effects(event).len() && v.effects(event)[i] == ReceiverEffect::Send(
                TRANSFER_COMPLETE,
            ) ==> completions(v.effects(event)) == 1,
{
    reveal_with_fuel(completions, 5);
    let effects = v.effects(event);
    if effects.len() == 1 {
        assert(effects.drop_last() =~= Seq::empty());
    } else if effects.len() == 2 {
        assert(effects.drop_last().drop_last() =~= Seq::empty());
    } else if effects.len() == 3 {
        assert(effects.drop_last().drop_last().drop_last() =~= Seq::empty());
    } else if effects.len() == 4 {
        assert(effects.drop_last().drop_last().drop_last().drop_last() =~= Seq::empty());
    }
}

/// A connection that is over stays over, and asks for nothing more.
pub proof fn lemma_closed_is_final(v: ReceiverView, event: ReceiverEventView)
    requires
        v.phase matches ReceiverPhase::Closed(_),
    ensures
        v.after(event).phase matches ReceiverPhase::Closed(_),
        v.effects(event) == Seq::<ReceiverEffect>::empty(),
{
}

/// The completions of two lists of effects add up.
pub proof fn lemma_completions_add(a: Seq<ReceiverEffect>, b: Seq<ReceiverEffect>)
    ensures
        completions(a + b) == completions(a) + completions(b),
    decreases b.len(),
{
    if b.len() == 0 {
        assert(a + b =~= a);
    } else {
        lemma_completions_add(a, b.drop_last());
        assert((a + b).drop_last() =~= a + b.drop_last());
    }
}

/// Whatever happens on a connection, the user is told at most once that
/// the file has arrived, and only by a connection that is over.
pub proof fn lemma_at_most_one_completion(start: ReceiverView, events: Seq<ReceiverEventView>)
    requires
        start.valid(),
        !(start.phase matches ReceiverPhase::Closed(_)),
    ensures
        after_all(start, events).valid(),
        completions(effects_of_all(start, events)) <= 1,
        completions(effects_of_all(start, events)) == 1 ==> after_all(
            start,
            events,
        ).phase matches ReceiverPhase::Closed(_),
    decreases events.len(),
{
    if events.len() > 0 {
        let before = after_all(start, events.drop_last());
        lemma_at_most_one_completion(start, events.drop_last());
        lemma_completion(before, events.last());
        lemma_completions_add(
            effects_of_all(start, events.drop_last()),
            before.effects(events.last()),
        );
        if before.phase matches ReceiverPhase::Closed(_) {
            lemma_closed_is_final(before, events.last());
        }
    }
}

/// The connection reads a header as the header is laid out: given its
/// three fields one after the other, it holds the name and the size that
/// the bytes hold, and is ready to offer the transfer. Where the name is not
/// UTF-8, the connection is closed as soon as the name is read.
pub proof fn lemma_reads_header(bytes: Seq<u8>)
    requires
        bytes.len() >= header_len(bytes),
    ensures
        ({
            let start = ReceiverView {
                phase: ReceiverPhase::AwaitNameLength,
                filename: Seq::empty(),
                file_size: 0,
            };
            let length = ReceiverEventView::Bytes(bytes.subrange(0, 2));
            let name = ReceiverEventView::Bytes(name_bytes(bytes));
            let size = ReceiverEventView::Bytes(
                bytes.subrange(header_len(bytes) - 8, header_len(bytes) as int),
            );
            match spec_decode_header(bytes) {
                Ok((filename, file_size)) => start.after(length).after(name).after(size) == (
                ReceiverView { phase: ReceiverPhase::AwaitOffer, filename, file_size }),
                Err(e) => e == HeaderError::InvalidFilename && start.after(length).after(
                    name,
                ).phase == ReceiverPhase::Closed(Outcome::Failed(TransferError::InvalidFilename)),
            }
        }),
{
    let n = announced_name_len(bytes);
    lemma_be_value_bound(bytes.subrange(0, 2));
    lemma_be_value_bound(bytes.subrange(header_len(bytes) - 8, header_len(bytes) as int));
    lemma_pow256_values();
}

/// What one side writes the other reads: a connection that is given the
/// fields of the header written for `filename` and `file_size` is ready to
/// offer a transfer of that name and that size.
pub proof fn lemma_reads_what_was_written(filename: Seq<char>, file_size: u64)
    requires
        encode_utf8(filename).len() <= MAX_NAME_BYTES,
    ensures
        ({
            let bytes = spec_encode_header(filename, file_size);
            let start = ReceiverView {
                phase: ReceiverPhase::AwaitNameLength,
                filename: Seq::empty(),
                file_size: 0,
            };
            let length = ReceiverEventView::Bytes(bytes.subrange(0, 2));
            let name = ReceiverEventView::Bytes(name_bytes(bytes));
            let size = ReceiverEventView::Bytes(
                bytes.subrange(header_len(bytes) - 8, header_len(bytes) as int),
            );
            start.after(length).after(name).after(size) == (ReceiverView {
                phase: ReceiverPhase::AwaitOffer,
                filename,
                file_size,
            })
        }),
{
    let bytes = spec_encode_header(filename, file_size);
    lemma_header_round_trip(filename, file_size, Seq::empty());
    assert(bytes + Seq::<u8>::empty() =~= bytes);
    lemma_reads_header(bytes);
}

/// The bytes of the payload that the events `events` brought and the
/// connection took in.
pub open spec fn received_in(start: ReceiverView, events: Seq<ReceiverEventView>) -> nat
    decreases events.len(),
{
    if events.len() == 0 {
        0
    } else {
        received_in(start, events.drop_last()) + match events.last() {
            ReceiverEventView::Chunk(n) => if after_all(start, events.drop_last()).admits(
                events.last(),
            ) {
                n as nat
            } else {
                0nat
            },
            _ => 0nat,
        }
    }
}

/// A file arrives whole or not at all: whatever happens after the offer,
/// the bytes taken in while the payload comes are those that the connection
/// has counted, and a connection that completes has taken in exactly as
/// many bytes as the header announced.
pub proof fn lemma_arrives_whole(start: ReceiverView, events: Seq<ReceiverEventView>)
    requires
        start.phase == ReceiverPhase::AwaitDecision,
    ensures
        after_all(start, events).valid(),
        after_all(start, events).file_size == start.file_size,
        after_all(start, events).filename == start.filename,
        match after_all(start, events).phase {
            ReceiverPhase::AwaitDecision => received_in(start, events) == 0,
            ReceiverPhase::Streaming(flow) => received_in(start, events) == flow.moved,
            ReceiverPhase::Closed(Outcome::Completed) => received_in(start, events)
                == start.file_size,
            ReceiverPhase::Closed(Outcome::Rejected) => received_in(start, events) == 0,
            ReceiverPhase::Closed(Outcome::Failed(_)) => received_in(start, events)
                <= start.file_size,
            _ => false,
        },
    decreases events.len(),
{
    if events.len() > 0 {
        lemma_arrives_whole(start, events.drop_last());
    }
}

} // verus!
