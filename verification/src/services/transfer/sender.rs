//! The sending side of a transfer.
//!
//! Once the header is sent, a transfer is told what came back on its
//! connection and what was read from its file, and answers with what the
//! user is to be told. It waits for the permission byte, moves the payload
//! chunk by chunk, and waits for the completion byte:
//!
//! ```text
//! AwaitPermission -> Streaming -> AwaitCompletion -> Closed(Completed)
//! AwaitPermission -> Closed(Failed(Rejected))          on a refusal
//! ```
//!
//! A failure of the socket or of the file closes the transfer from wherever
//! it stands.

use vstd::prelude::*;
use vstd::utf8::encode_utf8;
use crate::app_state::AppState;
use crate::identity::{is_id_text, new_transfer_id};
use crate::services::transfer::{Flow, Outcome};
use crate::types::transfer::{
    spec_kind, FailureKind, IoFailure, TransferAccepted, TransferAcceptedView, TransferError,
};
use crate::wire::{
    encode_header, spec_encode_header, HEADER_ACCEPTED, HEADER_REJECTED, MAX_NAME_BYTES,
    TRANSFER_COMPLETE,
};

verus! {

/// Where a sending transfer stands.
#[derive(Clone, Copy, Debug, PartialEq, Eq, Structural)]
pub enum SenderPhase {
    /// The header is sent; it waits for the byte that grants or refuses.
    AwaitPermission,
    /// The offer is taken; it waits for the next chunk of the file.
    Streaming(Flow),
    /// The payload is sent; it waits for the byte that acknowledges it.
    AwaitCompletion,
    /// The transfer is over.
    Closed(Outcome),
}

/// What happened on a sending transfer.
#[derive(Clone, Copy, Debug, PartialEq, Eq, Structural)]
pub enum SenderEvent {
    /// The byte that the transfer waited for has arrived.
    Response(u8),
    /// A read of the file brought this many bytes, none at the end of the
    /// file, and they were written to the socket.
    Chunk(usize),
    /// An operation on the socket or on the file failed.
    Failed(IoFailure),
}

/// What the user is to be told of a sending transfer.
#[derive(Clone, Copy, Debug, PartialEq, Eq, Structural)]
pub enum SenderEffect {
    /// The other side declined the offer.
    Rejected,
    /// How far the transfer is.
    Progress { sent: u64, total: u64 },
}

/// What a sending transfer waits for.
#[derive(Clone, Copy, Debug, PartialEq, Eq, Structural)]
pub enum SenderNeed {
    /// One byte from the socket.
    Response,
    /// The next bytes of the file, at most this many.
    Chunk(usize),
    /// Nothing: the transfer is over.
    Nothing,
}

/// A sending transfer.
#[derive(Debug)]
pub struct FileSender {
    phase: SenderPhase,
    transfer_id: String,
    file_size: u64,
}

/// A [`FileSender`] as plain values.
pub struct FileSenderView {
    /// Where the transfer stands.
    pub phase: SenderPhase,
    /// The identifier under which the user is told of the transfer.
    pub transfer_id: Seq<char>,
    /// The size of the file that is sent.
    pub file_size: u64,
}

impl View for FileSender {
    type V = FileSenderView;

    closed spec fn view(&self) -> FileSenderView {
        FileSenderView {
            phase: self.phase,
            transfer_id: self.transfer_id@,
            file_size: self.file_size,
        }
    }
}

/// Where to connect and what to send first.
#[derive(Debug, Clone)]
pub struct SendPlan {
    /// The port on which the receiving peer accepts transfers.
    pub port: u16,
    /// The bytes of the header.
    pub header: Vec<u8>,
}

impl FileSenderView {
    /// What holds of every transfer: while the payload goes out, its count
    /// is that of the file, is in order, and is short of the end.
    pub open spec fn valid(self) -> bool {
        self.phase matches SenderPhase::Streaming(flow) ==> flow.total == self.file_size
            && flow.valid() && !flow.complete()
    }

    /// What the transfer waits for.
    pub open spec fn need(self) -> SenderNeed {
        match self.phase {
            SenderPhase::AwaitPermission => SenderNeed::Response,
            SenderPhase::Streaming(flow) => SenderNeed::Chunk(flow.limit() as usize),
            SenderPhase::AwaitCompletion => SenderNeed::Response,
            SenderPhase::Closed(_) => SenderNeed::Nothing,
        }
    }

    /// Whether `event` is one that the transfer takes in: what it waits
    /// for, in the size asked for, or a failure while it is not over.
    pub open spec fn admits(self, event: SenderEvent) -> bool {
        match event {
            SenderEvent::Response(_) => self.need() == SenderNeed::Response,
            SenderEvent::Chunk(n) => self.need() matches SenderNeed::Chunk(limit) && n <= limit,
            SenderEvent::Failed(_) => !(self.phase matches SenderPhase::Closed(_)),
        }
    }

    /// Where the transfer stands after the byte `byte` that it waited for.
    pub open spec fn phase_after_response(self, byte: u8) -> SenderPhase {
        match self.phase {
            SenderPhase::AwaitPermission => if byte == HEADER_ACCEPTED {
                if self.file_size == 0 {
                    SenderPhase::AwaitCompletion
                } else {
                    SenderPhase::Streaming(Flow { total: self.file_size, moved: 0, reported: 0 })
                }
            } else if byte == HEADER_REJECTED {
                SenderPhase::Closed(Outcome::Failed(TransferError::Rejected))
            } else {
                SenderPhase::Closed(Outcome::Failed(TransferError::InvalidPermissionByte(byte)))
            },
            SenderPhase::AwaitCompletion => if byte == TRANSFER_COMPLETE {
                SenderPhase::Closed(Outcome::Completed)
            } else {
                SenderPhase::Closed(Outcome::Failed(TransferError::NotAcknowledged))
            },
            _ => self.phase,
        }
    }

    /// Where the transfer stands after a read of the file that brought `n`
    /// bytes while the count stood at `flow`.
    pub open spec fn phase_after_chunk(flow: Flow, n: usize) -> SenderPhase {
        if n == 0 {
            SenderPhase::Closed(Outcome::Failed(TransferError::IncompleteRead))
        } else if flow.advanced(n as nat).complete() {
            SenderPhase::AwaitCompletion
        } else {
            SenderPhase::Streaming(flow.advanced(n as nat))
        }
    }

    /// The transfer after `event`. An event that the transfer does not take
    /// in leaves it as it is.
    pub open spec fn after(self, event: SenderEvent) -> FileSenderView {
        if !self.admits(event) {
            self
        } else {
            FileSenderView {
                phase: match event {
                    SenderEvent::Response(byte) => self.phase_after_response(byte),
                    SenderEvent::Chunk(n) => Self::phase_after_chunk(self.phase->Streaming_0, n),
                    SenderEvent::Failed(f) => SenderPhase::Closed(
                        Outcome::Failed(TransferError::Io(f)),
                    ),
                },
                ..self
            }
        }
    }

    /// What the user is to be told after `event`. An event that the
    /// transfer does not take in tells nothing.
    pub open spec fn effects(self, event: SenderEvent) -> Seq<SenderEffect> {
        if !self.admits(event) {
            Seq::empty()
        } else {
            match event {
                SenderEvent::Response(byte) => if self.phase == SenderPhase::AwaitPermission
                    && byte == HEADER_REJECTED {
                    seq![SenderEffect::Rejected]
                } else {
                    Seq::empty()
                },
                SenderEvent::Chunk(n) => {
                    let flow = self.phase->Streaming_0;
                    if n > 0 && flow.reports_after(n as nat) {
                        seq![
                            SenderEffect::Progress {
                                sent: flow.advanced(n as nat).moved,
                                total: flow.total,
                            },
                        ]
                    } else {
                        Seq::empty()
                    }
                },
                SenderEvent::Failed(_) => Seq::empty(),
            }
        }
    }
}

impl FileSender {
    /// Prepares the transfer of a file called `filename`, of `file_size`
    /// bytes, to the peer at `receiver_ip`, under the identifier
    /// `transfer_id`.
    ///
    /// A name of more than 65535 bytes is refused; so is an address at which
    /// no peer is known. Otherwise the result is the transfer, waiting for
    /// permission, with the port to connect to and the header to send.
    pub fn begin_as(
        app: &AppState,
        receiver_ip: &str,
        filename: &str,
        file_size: u64,
        transfer_id: String,
    ) -> (r: Result<(FileSender, SendPlan), TransferError>)
        requires
            app.well_formed(),
        ensures
            encode_utf8(filename@).len() > MAX_NAME_BYTES ==> r is Err && r->Err_0
                == TransferError::NameTooLong,
            encode_utf8(filename@).len() <= MAX_NAME_BYTES && !app@.peers.dom().contains(
                receiver_ip@,
            ) ==> r is Err && r->Err_0 == TransferError::PeerUnknown,
            encode_utf8(filename@).len() <= MAX_NAME_BYTES && app@.peers.dom().contains(
                receiver_ip@,
            ) ==> r is Ok && r->Ok_0.0@ == (FileSenderView {
                phase: SenderPhase::AwaitPermission,
                transfer_id: transfer_id@,
                file_size,
            }) && r->Ok_0.0@.valid() && r->Ok_0.1.port == app@.peers[receiver_ip@].tcp_port
                && r->Ok_0.1.header@ == spec_encode_header(filename@, file_size),
    {
        let header: Vec<u8> = match encode_header(filename, file_size) {
            Ok(bytes) => bytes,
            Err(_) => {
                return Err(TransferError::NameTooLong);
            },
        };
        match app.find_device(receiver_ip) {
            Some(peer) => Ok(
                (
                    FileSender { phase: SenderPhase::AwaitPermission, transfer_id, file_size },
                    SendPlan { port: peer.tcp_port, header },
                ),
            ),
            None => Err(TransferError::PeerUnknown),
        }
    }

    /// Prepares a transfer under an identifier drawn for it; in all else as
    /// [`FileSender::begin_as`].
    pub fn begin(app: &AppState, receiver_ip: &str, filename: &str, file_size: u64) -> (r: Result<
        (FileSender, SendPlan),
        TransferError,
    >)
        requires
            app.well_formed(),
        ensures
            encode_utf8(filename@).len() > MAX_NAME_BYTES ==> r is Err && r->Err_0
                == TransferError::NameTooLong,
            encode_utf8(filename@).len() <= MAX_NAME_BYTES && !app@.peers.dom().contains(
                receiver_ip@,
            ) ==> r is Err && r->Err_0 == TransferError::PeerUnknown,
            encode_utf8(filename@).len() <= MAX_NAME_BYTES && app@.peers.dom().contains(
                receiver_ip@,
            ) ==> r is Ok && r->Ok_0.0@.phase == SenderPhase::AwaitPermission && is_id_text(
                r->Ok_0.0@.transfer_id,
            ) && r->Ok_0.0@.file_size == file_size && r->Ok_0.0@.valid() && r->Ok_0.1.port
                == app@.peers[receiver_ip@].tcp_port && r->Ok_0.1.header@ == spec_encode_header(
                filename@,
                file_size,
            ),
    {
        let transfer_id: String = new_transfer_id();
        FileSender::begin_as(app, receiver_ip, filename, file_size, transfer_id)
    }

    /// Where the transfer stands.
    pub fn phase(&self) -> (phase: SenderPhase)
        ensures
            phase == self@.phase,
    {
        self.phase
    }

    /// The identifier under which the user is told of the transfer.
    pub fn transfer_id(&self) -> (id: &str)
        ensures
            id@ == self@.transfer_id,
    {
        self.transfer_id.as_str()
    }

    /// The size of the file that is sent.
    pub fn file_size(&self) -> (size: u64)
        ensures
            size == self@.file_size,
    {
        self.file_size
    }

    /// What the user is told when the other side has declined the offer.
    pub fn rejection(&self) -> (told: TransferAccepted)
        ensures
            told@ == (TransferAcceptedView { transfer_id: self@.transfer_id, accepted: false }),
    {
        TransferAccepted { transfer_id: self.transfer_id.clone(), accepted: false }
    }

    /// What the transfer waits for.
    pub fn need(&self) -> (need: SenderNeed)
        requires
            self@.valid(),
        ensures
            need == self@.need(),
    {
        match self.phase {
            SenderPhase::AwaitPermission => SenderNeed::Response,
            SenderPhase::Streaming(flow) => SenderNeed::Chunk(flow.chunk_limit()),
            SenderPhase::AwaitCompletion => SenderNeed::Response,
            SenderPhase::Closed(_) => SenderNeed::Nothing,
        }
    }

    /// Takes in `event` and says what the user is to be told.
    pub fn step(&mut self, event: SenderEvent) -> (effects: Vec<SenderEffect>)
        requires
            old(self)@.valid(),
        ensures
            final(self)@.valid(),
            final(self)@ == old(self)@.after(event),
            effects@ == old(self)@.effects(event),
    {
        let mut effects: Vec<SenderEffect> = Vec::new();
        match event {
            SenderEvent::Response(byte) => {
                match self.phase {
                    SenderPhase::AwaitPermission => {
                        if byte == HEADER_ACCEPTED {
                            if self.file_size == 0 {
                                self.phase = SenderPhase::AwaitCompletion;
                            } else {
                                self.phase = SenderPhase::Streaming(Flow::start(self.file_size));
                            }
                        } else if byte == HEADER_REJECTED {
                            effects.push(SenderEffect::Rejected);
                            self.phase = SenderPhase::Closed(
                                Outcome::Failed(TransferError::Rejected),
                            );
                        } else {
                            self.phase = SenderPhase::Closed(
                                Outcome::Failed(TransferError::InvalidPermissionByte(byte)),
                            );
                        }
                    },
                    SenderPhase::AwaitCompletion => {
                        if byte == TRANSFER_COMPLETE {
                            self.phase = SenderPhase::Closed(Outcome::Completed);
                        } else {
                            self.phase = SenderPhase::Closed(
                                Outcome::Failed(TransferError::NotAcknowledged),
                            );
                        }
                    },
                    _ => {},
                }
            },
            SenderEvent::Chunk(n) => {
                if let SenderPhase::Streaming(flow) = self.phase {
                    if n <= flow.chunk_limit() {
                        if n == 0 {
                            self.phase = SenderPhase::Closed(
                                Outcome::Failed(TransferError::IncompleteRead),
                            );
                        } else {
                            let mut count: Flow = flow;
                            let report: bool = count.advance(n);
                            if report {
                                effects.push(
                                    SenderEffect::Progress { sent: count.moved, total: count.total },
                                );
                            }
                            if count.is_complete() {
                                self.phase = SenderPhase::AwaitCompletion;
                            } else {
                                self.phase = SenderPhase::Streaming(count);
                            }
                        }
                    }
                }
            },
            SenderEvent::Failed(failure) => {
                match self.phase {
                    SenderPhase::Closed(_) => {},
                    _ => {
                        self.phase = SenderPhase::Closed(
                            Outcome::Failed(TransferError::Io(failure)),
                        );
                    },
                }
            },
        }
        assert(effects@ =~= old(self)@.effects(event));
        effects
    }
}

/// A step keeps a transfer valid.
pub proof fn lemma_step_keeps_valid(v: FileSenderView, event: SenderEvent)
    requires
        v.valid(),
    ensures
        v.after(event).valid(),
{
}

/// A refusal ends the transfer as denied: the user is told of it, and the
/// transfer waits for nothing more, so that no byte of the payload is read
/// or sent.
pub proof fn lemma_refusal(v: FileSenderView)
    requires
        v.phase == SenderPhase::AwaitPermission,
    ensures
        v.after(SenderEvent::Response(HEADER_REJECTED)).phase == SenderPhase::Closed(
            Outcome::Failed(TransferError::Rejected),
        ),
        v.effects(SenderEvent::Response(HEADER_REJECTED)) == seq![SenderEffect::Rejected],
        v.after(SenderEvent::Response(HEADER_REJECTED)).need() == SenderNeed::Nothing,
        spec_kind(TransferError::Rejected) == FailureKind::PermissionDenied,
{
}

/// A byte that neither grants nor refuses ends the transfer, and the user
/// is told nothing.
pub proof fn lemma_unknown_permission(v: FileSenderView, byte: u8)
    requires
        v.phase == SenderPhase::AwaitPermission,
        byte != HEADER_ACCEPTED,
        byte != HEADER_REJECTED,
    ensures
        v.after(SenderEvent::Response(byte)).phase == SenderPhase::Closed(
            Outcome::Failed(TransferError::InvalidPermissionByte(byte)),
        ),
        v.effects(SenderEvent::Response(byte)) == Seq::<SenderEffect>::empty(),
{
}

/// A file that ends before its size is reached ends the transfer as
/// incomplete: no progress is told, the completion byte is not awaited, and
/// the transfer does not complete.
pub proof fn lemma_short_read(v: FileSenderView, flow: Flow)
    requires
        v.valid(),
        v.phase == SenderPhase::Streaming(flow),
    ensures
        v.after(SenderEvent::Chunk(0)).phase == SenderPhase::Closed(
            Outcome::Failed(TransferError::IncompleteRead),
        ),
        v.effects(SenderEvent::Chunk(0)) == Seq::<SenderEffect>::empty(),
        v.after(SenderEvent::Chunk(0)).need() == SenderNeed::Nothing,
{
}

/// The completion byte is awaited only once the whole payload is sent, and
/// a transfer completes only by the completion byte.
pub proof fn lemma_completion(v: FileSenderView, event: SenderEvent)
    requires
        v.valid(),
    ensures
        v.phase != SenderPhase::AwaitCompletion && v.after(event).phase
            == SenderPhase::AwaitCompletion ==> (match v.phase {
            SenderPhase::Streaming(flow) => event matches SenderEvent::Chunk(n) && flow.moved + n
                == v.file_size,
            _ => v.file_size == 0 && event == SenderEvent::Response(HEADER_ACCEPTED),
        }),
        v.phase != SenderPhase::Closed(Outcome::Completed) && v.after(event).phase
            == SenderPhase::Closed(Outcome::Completed) ==> v.phase == SenderPhase::AwaitCompletion
            && event == SenderEvent::Response(TRANSFER_COMPLETE),
{
}

/// The user is told that everything is sent exactly by the step that sends
/// the last byte.
pub proof fn lemma_full_progress(v: FileSenderView, event: SenderEvent)
    requires
        v.valid(),
    ensures
        v.effects(event).contains(
            SenderEffect::Progress { sent: v.file_size, total: v.file_size },
        ) <==> (v.phase matches SenderPhase::Streaming(_)) && v.after(event).phase
            == SenderPhase::AwaitCompletion,
{
    let full = SenderEffect::Progress { sent: v.file_size, total: v.file_size };
    let effects = v.effects(event);
    if (v.phase matches SenderPhase::Streaming(_)) && v.after(event).phase
        == SenderPhase::AwaitCompletion {
        assert(effects[0] == full);
    }
    if effects.contains(full) {
        let i = choose|i: int| 0 <= i < effects.len() && effects[i] == full;
        assert(effects[i] == full);
    }
}

/// A transfer that is over stays as it is, and nothing more is told.
pub proof fn lemma_closed_is_final(v: FileSenderView, event: SenderEvent)
    requires
        v.phase matches SenderPhase::Closed(_),
    ensures
        v.after(event) == v,
        v.effects(event) == Seq::<SenderEffect>::empty(),
{
}

/// The transfer after the events `events`, one after the other.
pub open spec fn after_all(start: FileSenderView, events: Seq<SenderEvent>) -> FileSenderView
    decreases events.len(),
{
    if events.len() == 0 {
        start
    } else {
        after_all(start, events.drop_last()).after(events.last())
    }
}

/// The bytes of the payload that the events `events` brought and the
/// transfer took in.
pub open spec fn sent_in(start: FileSenderView, events: Seq<SenderEvent>) -> nat
    decreases events.len(),
{
    if events.len() == 0 {
        0
    } else {
        sent_in(start, events.drop_last()) + match events.last() {
            SenderEvent::Chunk(n) => if after_all(start, events.drop_last()).admits(events.last()) {
                n as nat
            } else {
                0nat
            },
            _ => 0nat,
        }
    }
}

/// A file is sent whole or the transfer fails: whatever happens once the
/// header is sent, the bytes sent while the payload goes out are those that
/// the transfer has counted; the completion byte is awaited, and the
/// transfer completes, only after exactly as many bytes as the header
/// announced; and after a refusal not one was sent.
pub proof fn lemma_sent_whole(start: FileSenderView, events: Seq<SenderEvent>)
    requires
        start.phase == SenderPhase::AwaitPermission,
    ensures
        after_all(start, events).valid(),
        after_all(start, events).file_size == start.file_size,
        after_all(start, events).transfer_id == start.transfer_id,
        match after_all(start, events).phase {
            SenderPhase::AwaitPermission => sent_in(start, events) == 0,
            SenderPhase::Streaming(flow) => sent_in(start, events) == flow.moved,
            SenderPhase::AwaitCompletion => sent_in(start, events) == start.file_size,
            SenderPhase::Closed(Outcome::Completed) => sent_in(start, events) == start.file_size,
            SenderPhase::Closed(Outcome::Failed(TransferError::Rejected)) => sent_in(start, events)
                == 0,
            SenderPhase::Closed(_) => sent_in(start, events) <= start.file_size,
        },
    decreases events.len(),
{
    if events.len() > 0 {
        lemma_sent_whole(start, events.drop_last());
    }
}

} // verus!
