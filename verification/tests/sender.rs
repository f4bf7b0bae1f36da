use lan_transfer::app_state::AppState;
use lan_transfer::services::transfer::sender::{
    FileSender, SenderEffect, SenderEvent, SenderNeed, SenderPhase,
};
use lan_transfer::services::transfer::{Flow, Outcome};
use lan_transfer::types::transfer::{FailureKind, IoFailure, TransferError};
use std::path::PathBuf;

const MIB: u64 = 1024 * 1024;

fn app_with_peer() -> AppState {
    let mut app = AppState::new(PathBuf::from("."));
    app.upsert_device("192.168.1.7".to_string(), "laptop".to_string(), 40001, 0);
    app
}

fn begun(size: u64) -> FileSender {
    FileSender::begin_as(&app_with_peer(), "192.168.1.7", "f.bin", size, "t-1".to_string())
        .ok()
        .unwrap()
        .0
}

fn streaming(size: u64) -> FileSender {
    let mut s = begun(size);
    assert!(s.step(SenderEvent::Response(0x01)).is_empty());
    s
}

#[test]
fn transfer_begins_with_the_port_and_the_header() {
    let app = app_with_peer();
    let (s, plan) =
        FileSender::begin_as(&app, "192.168.1.7", "a.txt", 0x0102, "t-1".to_string()).ok().unwrap();
    assert_eq!(plan.port, 40001);
    assert_eq!(plan.header, vec![0, 5, b'a', b'.', b't', b'x', b't', 0, 0, 0, 0, 0, 0, 1, 2]);
    assert_eq!(s.phase(), SenderPhase::AwaitPermission);
    assert_eq!(s.need(), SenderNeed::Response);
    assert_eq!(s.transfer_id(), "t-1");
    assert_eq!(s.file_size(), 0x0102);
}

#[test]
fn transfer_draws_an_identifier() {
    let app = app_with_peer();
    let (s, plan) = FileSender::begin(&app, "192.168.1.7", "a.txt", 7).ok().unwrap();
    assert_eq!(s.transfer_id().len(), 36);
    assert_eq!(plan.port, 40001);
    let (t, _) = FileSender::begin(&app, "192.168.1.7", "a.txt", 7).ok().unwrap();
    assert_ne!(s.transfer_id(), t.transfer_id());
}

#[test]
fn transfer_to_an_unknown_peer_is_refused() {
    let app = app_with_peer();
    let r = FileSender::begin_as(&app, "192.168.1.8", "a.txt", 1, "t".to_string());
    assert_eq!(r.err().map(|e| e), Some(TransferError::PeerUnknown));
    let r = FileSender::begin(&app, "", "a.txt", 1);
    assert_eq!(r.err(), Some(TransferError::PeerUnknown));
}

#[test]
fn transfer_of_a_name_too_long_is_refused() {
    let app = app_with_peer();
    let name = "n".repeat(65536);
    let r = FileSender::begin_as(&app, "192.168.1.7", &name, 1, "t".to_string());
    assert_eq!(r.err(), Some(TransferError::NameTooLong));
    assert_eq!(TransferError::NameTooLong.kind(), FailureKind::InvalidInput);
    // the name is judged before the peer is looked for
    let r = FileSender::begin_as(&app, "nowhere", &name, 1, "t".to_string());
    assert_eq!(r.err(), Some(TransferError::NameTooLong));
    let name = "n".repeat(65535);
    assert!(FileSender::begin_as(&app, "192.168.1.7", &name, 1, "t".to_string()).is_ok());
}

#[test]
fn permission_lets_the_payload_go() {
    let mut s = begun(3 * MIB);
    assert!(s.step(SenderEvent::Response(0x01)).is_empty());
    assert_eq!(s.phase(), SenderPhase::Streaming(Flow { total: 3 * MIB, moved: 0, reported: 0 }));
    assert_eq!(s.need(), SenderNeed::Chunk(MIB as usize));
}

#[test]
fn refusal_ends_the_transfer_as_denied() {
    let mut s = begun(3 * MIB);
    assert_eq!(s.step(SenderEvent::Response(0x00)), vec![SenderEffect::Rejected]);
    assert_eq!(s.phase(), SenderPhase::Closed(Outcome::Failed(TransferError::Rejected)));
    assert_eq!(TransferError::Rejected.kind(), FailureKind::PermissionDenied);
    // nothing of the payload is asked for
    assert_eq!(s.need(), SenderNeed::Nothing);
    assert!(s.step(SenderEvent::Chunk(1)).is_empty());
    let told = s.rejection();
    assert_eq!(told.transfer_id, "t-1");
    assert!(!told.accepted);
}

#[test]
fn any_other_permission_byte_is_a_protocol_error() {
    for byte in [0x02u8, 0x03, 0x7f, 0xff] {
        let mut s = begun(10);
        assert!(s.step(SenderEvent::Response(byte)).is_empty());
        assert_eq!(
            s.phase(),
            SenderPhase::Closed(Outcome::Failed(TransferError::InvalidPermissionByte(byte)))
        );
        assert_eq!(TransferError::InvalidPermissionByte(byte).kind(), FailureKind::InvalidData);
    }
}

#[test]
fn payload_is_read_in_chunks_of_at_most_one_mebibyte() {
    let mut s = streaming(MIB + 3);
    assert_eq!(s.need(), SenderNeed::Chunk(MIB as usize));
    s.step(SenderEvent::Chunk(MIB as usize));
    assert_eq!(s.need(), SenderNeed::Chunk(3));
}

#[test]
fn sender_progress_is_told_every_mebibyte_and_at_the_end() {
    let total = 2 * MIB + 10;
    let mut s = streaming(total);
    assert_eq!(
        s.step(SenderEvent::Chunk(MIB as usize)),
        vec![SenderEffect::Progress { sent: MIB, total }]
    );
    assert!(s.step(SenderEvent::Chunk(MIB as usize - 1)).is_empty());
    assert_eq!(
        s.step(SenderEvent::Chunk(5)),
        vec![SenderEffect::Progress { sent: 2 * MIB + 4, total }]
    );
    assert_eq!(
        s.step(SenderEvent::Chunk(6)),
        vec![SenderEffect::Progress { sent: total, total }]
    );
    assert_eq!(s.phase(), SenderPhase::AwaitCompletion);
    assert_eq!(s.need(), SenderNeed::Response);
}

#[test]
fn completion_byte_completes_the_transfer() {
    let mut s = streaming(4);
    s.step(SenderEvent::Chunk(4));
    assert!(s.step(SenderEvent::Response(0x02)).is_empty());
    assert_eq!(s.phase(), SenderPhase::Closed(Outcome::Completed));
    assert_eq!(s.need(), SenderNeed::Nothing);
}

#[test]
fn any_other_completion_byte_is_a_protocol_error() {
    for byte in [0x00u8, 0x01, 0x03, 0xff] {
        let mut s = streaming(4);
        s.step(SenderEvent::Chunk(4));
        assert!(s.step(SenderEvent::Response(byte)).is_empty());
        assert_eq!(s.phase(), SenderPhase::Closed(Outcome::Failed(TransferError::NotAcknowledged)));
    }
    assert_eq!(TransferError::NotAcknowledged.kind(), FailureKind::InvalidData);
}

#[test]
fn empty_file_goes_straight_to_the_completion_byte() {
    let mut s = begun(0);
    assert!(s.step(SenderEvent::Response(0x01)).is_empty());
    assert_eq!(s.phase(), SenderPhase::AwaitCompletion);
    assert!(s.step(SenderEvent::Response(0x02)).is_empty());
    assert_eq!(s.phase(), SenderPhase::Closed(Outcome::Completed));
}

#[test]
fn file_that_ends_early_ends_the_transfer_as_incomplete() {
    let total = 3 * MIB;
    let mut s = streaming(total);
    s.step(SenderEvent::Chunk(MIB as usize));
    s.step(SenderEvent::Chunk(100));
    // the file has shrunk: the next read is at its end
    assert!(s.step(SenderEvent::Chunk(0)).is_empty());
    assert_eq!(s.phase(), SenderPhase::Closed(Outcome::Failed(TransferError::IncompleteRead)));
    assert_eq!(TransferError::IncompleteRead.kind(), FailureKind::UnexpectedEof);
    assert_eq!(TransferError::IncompleteRead.message(), "File read incomplete");
    // the completion byte is not waited for, and nothing completes
    assert_eq!(s.need(), SenderNeed::Nothing);
    assert!(s.step(SenderEvent::Response(0x02)).is_empty());
    assert_eq!(s.phase(), SenderPhase::Closed(Outcome::Failed(TransferError::IncompleteRead)));
}

#[test]
fn file_that_is_empty_at_once_ends_the_transfer_as_incomplete() {
    let mut s = streaming(1);
    assert!(s.step(SenderEvent::Chunk(0)).is_empty());
    assert_eq!(s.phase(), SenderPhase::Closed(Outcome::Failed(TransferError::IncompleteRead)));
}

#[test]
fn sender_events_that_are_not_waited_for_change_nothing() {
    let mut s = begun(10);
    assert!(s.step(SenderEvent::Chunk(1)).is_empty());
    assert_eq!(s.phase(), SenderPhase::AwaitPermission);
    let mut s = streaming(10);
    assert!(s.step(SenderEvent::Response(0x02)).is_empty());
    assert!(s.step(SenderEvent::Chunk(11)).is_empty());
    assert_eq!(s.phase(), SenderPhase::Streaming(Flow { total: 10, moved: 0, reported: 0 }));
}

#[test]
fn sender_failure_closes_the_transfer_from_wherever_it_stands() {
    let reset = SenderPhase::Closed(Outcome::Failed(TransferError::Io(IoFailure::ConnectionReset)));
    let mut s = begun(10);
    assert!(s.step(SenderEvent::Failed(IoFailure::ConnectionReset)).is_empty());
    assert_eq!(s.phase(), reset);
    let mut s = streaming(10);
    s.step(SenderEvent::Chunk(5));
    s.step(SenderEvent::Failed(IoFailure::ConnectionReset));
    assert_eq!(s.phase(), reset);
    let mut s = streaming(10);
    s.step(SenderEvent::Chunk(10));
    s.step(SenderEvent::Failed(IoFailure::Other));
    assert_eq!(s.phase(), SenderPhase::Closed(Outcome::Failed(TransferError::Io(IoFailure::Other))));
    // a transfer that is over stays as it is
    s.step(SenderEvent::Failed(IoFailure::ConnectionReset));
    assert_eq!(s.phase(), SenderPhase::Closed(Outcome::Failed(TransferError::Io(IoFailure::Other))));
    let mut s = streaming(1);
    s.step(SenderEvent::Chunk(1));
    s.step(SenderEvent::Response(0x02));
    s.step(SenderEvent::Failed(IoFailure::ConnectionReset));
    assert_eq!(s.phase(), SenderPhase::Closed(Outcome::Completed));
}
