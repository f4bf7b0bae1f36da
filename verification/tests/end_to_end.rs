use lan_transfer::app_state::AppState;
use lan_transfer::services::transfer::receiver::{
    Receiver, ReceiverEffect, ReceiverEvent, ReceiverNeed, ReceiverPhase,
};
use lan_transfer::services::transfer::sender::{
    FileSender, SenderEffect, SenderEvent, SenderNeed, SenderPhase,
};
use lan_transfer::services::transfer::Outcome;
use lan_transfer::types::transfer::{FailureKind, TransferError};
use std::collections::VecDeque;
use std::path::PathBuf;
use tokio::sync::oneshot;

const MIB: usize = 1024 * 1024;

/// What one run of both sides over a connection in memory left behind.
struct Run {
    sender: SenderPhase,
    receiver: ReceiverPhase,
    told_sender: Vec<SenderEffect>,
    told_receiver: Vec<ReceiverEffect>,
    offered: Vec<(String, u64, String, String)>,
    file_created: bool,
    written: Vec<u8>,
    payload_bytes_on_the_wire: usize,
    sent_to_sender: Vec<u8>,
}

/// Moves `file` from one side to the other. `answer` is what the user says
/// to the offer; `available` is how much of the file can be read, and
/// `read_size` how much one read of the socket brings at most.
fn run(file: &[u8], available: usize, answer: Option<bool>, read_size: usize) -> Run {
    let mut sending_app = AppState::new(PathBuf::from("."));
    sending_app.upsert_device("10.0.0.2".to_string(), "receiver".to_string(), 40002, 0);
    let mut receiving_app = AppState::new(PathBuf::from("."));
    receiving_app.upsert_device("10.0.0.1".to_string(), "sender".to_string(), 40001, 0);

    let (mut sender, plan) =
        FileSender::begin(&sending_app, "10.0.0.2", "data.bin", file.len() as u64).ok().unwrap();
    assert_eq!(plan.port, 40002);
    let mut receiver = Receiver::new();

    let mut to_receiver: VecDeque<u8> = plan.header.iter().copied().collect();
    let mut to_sender: VecDeque<u8> = VecDeque::new();
    let mut out = Run {
        sender: sender.phase(),
        receiver: receiver.phase(),
        told_sender: Vec::new(),
        told_receiver: Vec::new(),
        offered: Vec::new(),
        file_created: false,
        written: Vec::new(),
        payload_bytes_on_the_wire: 0,
        sent_to_sender: Vec::new(),
    };
    let mut file_at = 0usize;
    let mut sender_done = false;

    loop {
        let mut moved = false;

        // the receiving side, as far as it can go
        loop {
            let event = match receiver.need() {
                ReceiverNeed::Exact(n) if to_receiver.len() >= n => {
                    ReceiverEvent::Bytes(to_receiver.drain(..n).collect())
                }
                ReceiverNeed::Offer => {
                    let (tx, rx) = oneshot::channel::<bool>();
                    match receiver.offer(&mut receiving_app, "10.0.0.1", tx) {
                        Ok(offer) => {
                            out.offered.push((
                                offer.filename.clone(),
                                offer.file_size,
                                offer.sender_hostname.clone(),
                                offer.sender_ip.clone(),
                            ));
                            assert!(receiving_app.is_pending(&offer.transfer_id));
                            match answer {
                                Some(a) => {
                                    assert!(receiving_app.resolve_pending(&offer.transfer_id, a))
                                }
                                None => drop(receiving_app.take_pending(&offer.transfer_id)),
                            }
                            assert!(!receiving_app.is_pending(&offer.transfer_id));
                            ReceiverEvent::Decision(rx.blocking_recv().ok())
                        }
                        Err(_) => break,
                    }
                }
                ReceiverNeed::Chunk(limit) if !to_receiver.is_empty() || sender_done => {
                    let n = limit.min(read_size).min(to_receiver.len());
                    out.written.extend(to_receiver.drain(..n));
                    ReceiverEvent::Chunk(n)
                }
                _ => break,
            };
            moved = true;
            for effect in receiver.step(event) {
                match effect {
                    ReceiverEffect::Send(byte) => {
                        to_sender.push_back(byte);
                        out.sent_to_sender.push(byte);
                    }
                    ReceiverEffect::CreateFile => out.file_created = true,
                    _ => {}
                }
                out.told_receiver.push(effect);
            }
        }

        // the sending side, as far as it can go
        loop {
            let event = match sender.need() {
                SenderNeed::Response => match to_sender.pop_front() {
                    Some(byte) => SenderEvent::Response(byte),
                    None => break,
                },
                SenderNeed::Chunk(limit) => {
                    let n = limit.min(available - file_at);
                    to_receiver.extend(&file[file_at..file_at + n]);
                    out.payload_bytes_on_the_wire += n;
                    file_at += n;
                    SenderEvent::Chunk(n)
                }
                SenderNeed::Nothing => {
                    sender_done = true;
                    break;
                }
            };
            moved = true;
            out.told_sender.extend(sender.step(event));
        }

        if !moved {
            break;
        }
    }
    out.sender = sender.phase();
    out.receiver = receiver.phase();
    out
}

fn pattern(len: usize) -> Vec<u8> {
    let mut x: u32 = 0x2545_f491;
    (0..len)
        .map(|_| {
            x ^= x << 13;
            x ^= x >> 17;
            x ^= x << 5;
            (x >> 8) as u8
        })
        .collect()
}

fn completions(told: &[ReceiverEffect]) -> usize {
    told.iter().filter(|e| **e == ReceiverEffect::Completed).count()
}

#[test]
fn accepted_transfer_of_five_mebibytes_arrives_whole() {
    let file = pattern(5 * MIB);
    let total = file.len() as u64;
    let run = run(&file, file.len(), Some(true), MIB);

    assert_eq!(run.sender, SenderPhase::Closed(Outcome::Completed));
    assert_eq!(run.receiver, ReceiverPhase::Closed(Outcome::Completed));
    assert_eq!(
        run.offered,
        vec![("data.bin".to_string(), total, "sender".to_string(), "10.0.0.1".to_string())]
    );
    // what was written is what was sent
    assert!(run.file_created);
    assert!(run.written == file);
    // both sides tell of the whole, once
    let whole_sent = SenderEffect::Progress { sent: total, total };
    let whole_received = ReceiverEffect::Progress { received: total, total };
    assert_eq!(run.told_sender.iter().filter(|e| **e == whole_sent).count(), 1);
    assert_eq!(run.told_receiver.iter().filter(|e| **e == whole_received).count(), 1);
    assert_eq!(completions(&run.told_receiver), 1);
    assert_eq!(run.told_sender.last(), Some(&whole_sent));
    // progress was told mebibyte by mebibyte
    assert_eq!(
        run.told_sender,
        (1..=5u64).map(|i| SenderEffect::Progress { sent: i * MIB as u64, total }).collect::<Vec<_>>()
    );
    // the receiver answered with accept, then complete
    assert_eq!(run.sent_to_sender, vec![0x01, 0x02]);
}

#[test]
fn accepted_transfer_arrives_whole_however_the_socket_cuts_it() {
    let file = pattern(3 * MIB + 4567);
    for read_size in [1000, 65536, MIB - 1, MIB] {
        let run = run(&file, file.len(), Some(true), read_size);
        assert_eq!(run.sender, SenderPhase::Closed(Outcome::Completed));
        assert_eq!(run.receiver, ReceiverPhase::Closed(Outcome::Completed));
        assert!(run.written == file, "read size {}", read_size);
        assert_eq!(completions(&run.told_receiver), 1);
        assert_eq!(run.sent_to_sender, vec![0x01, 0x02]);
    }
}

#[test]
fn accepted_transfer_of_small_and_empty_files() {
    for len in [0usize, 1, 2, 1023] {
        let file = pattern(len);
        let run = run(&file, len, Some(true), MIB);
        assert_eq!(run.sender, SenderPhase::Closed(Outcome::Completed));
        assert_eq!(run.receiver, ReceiverPhase::Closed(Outcome::Completed));
        assert!(run.file_created);
        assert!(run.written == file);
        assert_eq!(completions(&run.told_receiver), 1);
        assert_eq!(run.sent_to_sender, vec![0x01, 0x02]);
    }
}

#[test]
fn rejected_transfer_moves_nothing_but_the_header() {
    let file = pattern(5 * MIB);
    for answer in [Some(false), None] {
        let run = run(&file, file.len(), answer, MIB);
        assert_eq!(run.receiver, ReceiverPhase::Closed(Outcome::Rejected));
        assert_eq!(run.sender, SenderPhase::Closed(Outcome::Failed(TransferError::Rejected)));
        assert_eq!(TransferError::Rejected.kind(), FailureKind::PermissionDenied);
        // the sender is told of the refusal
        assert_eq!(run.told_sender, vec![SenderEffect::Rejected]);
        // nothing but the reject byte came back, and no payload went out
        assert_eq!(run.sent_to_sender, vec![0x00]);
        assert_eq!(run.payload_bytes_on_the_wire, 0);
        // no file was created
        assert!(!run.file_created);
        assert!(run.written.is_empty());
        assert_eq!(run.told_receiver, vec![ReceiverEffect::Send(0x00)]);
    }
}

#[test]
fn file_that_shrinks_ends_the_transfer_without_completion() {
    let file = pattern(3 * MIB);
    let run = run(&file, 2 * MIB + 10, Some(true), MIB);
    assert_eq!(run.sender, SenderPhase::Closed(Outcome::Failed(TransferError::IncompleteRead)));
    assert_eq!(TransferError::IncompleteRead.kind(), FailureKind::UnexpectedEof);
    // the sender did not tell of the whole
    let total = file.len() as u64;
    assert!(!run.told_sender.contains(&SenderEffect::Progress { sent: total, total }));
    // and the receiver, whose stream ended early, did not complete either
    assert_eq!(
        run.receiver,
        ReceiverPhase::Closed(Outcome::Failed(TransferError::ConnectionClosed))
    );
    assert_eq!(completions(&run.told_receiver), 0);
    assert_eq!(run.sent_to_sender, vec![0x01]);
    assert_eq!(run.written.len(), 2 * MIB + 10);
}

#[test]
fn two_connections_wait_side_by_side() {
    let mut app = AppState::new(PathBuf::from("."));
    app.upsert_device("10.0.0.1".to_string(), "one".to_string(), 1, 0);
    app.upsert_device("10.0.0.2".to_string(), "two".to_string(), 2, 0);

    let mut connections = Vec::new();
    for (ip, name, size) in [("10.0.0.1", "first.bin", 10u64), ("10.0.0.2", "second.bin", 20u64)] {
        let header = lan_transfer::wire::encode_header(name, size).unwrap();
        let mut r = Receiver::new();
        let mut at = 0;
        while let ReceiverNeed::Exact(n) = r.need() {
            r.step(ReceiverEvent::Bytes(header[at..at + n].to_vec()));
            at += n;
        }
        let (tx, rx) = oneshot::channel::<bool>();
        let offer = r.offer(&mut app, ip, tx).unwrap();
        assert_eq!(offer.filename, name);
        assert_eq!(offer.sender_ip, ip);
        connections.push((r, rx, offer));
    }
    let (mut second, mut rx_second, offer_second) = connections.pop().unwrap();
    let (mut first, mut rx_first, offer_first) = connections.pop().unwrap();
    assert_ne!(offer_first.transfer_id, offer_second.transfer_id);
    assert_eq!(offer_first.sender_hostname, "one");
    assert_eq!(offer_second.sender_hostname, "two");
    assert!(app.is_pending(&offer_first.transfer_id));
    assert!(app.is_pending(&offer_second.transfer_id));

    // the second is refused; the first still waits, untouched
    assert!(app.resolve_pending(&offer_second.transfer_id, false));
    assert_eq!(rx_second.try_recv(), Ok(false));
    assert!(app.is_pending(&offer_first.transfer_id));
    assert!(rx_first.try_recv().is_err());
    assert_eq!(first.phase(), ReceiverPhase::AwaitDecision);
    assert_eq!(second.step(ReceiverEvent::Decision(Some(false))), vec![ReceiverEffect::Send(0x00)]);
    assert_eq!(first.phase(), ReceiverPhase::AwaitDecision);

    // the first is accepted and runs to its end
    assert!(app.resolve_pending(&offer_first.transfer_id, true));
    assert_eq!(rx_first.try_recv(), Ok(true));
    first.step(ReceiverEvent::Decision(Some(true)));
    first.step(ReceiverEvent::Chunk(10));
    assert_eq!(first.phase(), ReceiverPhase::Closed(Outcome::Completed));
    assert_eq!(second.phase(), ReceiverPhase::Closed(Outcome::Rejected));
    assert!(!app.is_pending(&offer_first.transfer_id));
    assert!(!app.is_pending(&offer_second.transfer_id));
}
