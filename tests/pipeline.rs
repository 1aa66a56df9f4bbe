use zelfm::{
    after_forward, after_pass, cap_reached, check_encoder_targets, on_chat_event, on_decode,
    on_encode_result, on_packet_read, on_worker_bus_event, on_writer_event, select_track,
    source_continues, BusEvent, ChatAction, DecodeAction, DecodeResult, EncodeResult, EndReason,
    PacketAction, PacketRead, PassOutcome, PublishResult, SessionError, SourceAction,
    TrackSummary, WorkerAction, WriterAction, WriterEvent, BUS_CAPACITY, BYTE_QUEUE_CAPACITY,
    RETRY_DELAY_MS, SEND_TIMEOUT_SECS,
};

#[test]
fn first_track_with_a_codec_is_selected() {
    let tracks = vec![
        TrackSummary { id: 3, has_codec: false },
        TrackSummary { id: 5, has_codec: true },
        TrackSummary { id: 8, has_codec: true },
    ];
    assert_eq!(select_track(&tracks), Some(5));
    assert_eq!(select_track(&vec![TrackSummary { id: 1, has_codec: false }]), None);
    assert_eq!(select_track(&Vec::new()), None);
}

#[test]
fn packets_of_other_tracks_are_skipped() {
    assert_eq!(on_packet_read(PacketRead::Packet { track_id: 2 }, 2), PacketAction::Decode);
    assert_eq!(on_packet_read(PacketRead::Packet { track_id: 1 }, 2), PacketAction::Skip);
    assert_eq!(on_packet_read(PacketRead::EndOfStream, 2), PacketAction::EndPass);
    assert_eq!(on_packet_read(PacketRead::ResetRequired, 2), PacketAction::EndPass);
    assert_eq!(on_packet_read(PacketRead::Failed, 2), PacketAction::AbortPass);
}

#[test]
fn bad_packets_are_skipped_and_other_failures_abort() {
    assert_eq!(on_decode(DecodeResult::Decoded), DecodeAction::Publish);
    assert_eq!(on_decode(DecodeResult::BadPacket), DecodeAction::Skip);
    assert_eq!(on_decode(DecodeResult::Failed), DecodeAction::AbortPass);
}

#[test]
fn publishing_to_nobody_is_no_error() {
    assert!(source_continues(PublishResult::NoSubscribers));
    assert!(source_continues(PublishResult::Delivered));
    assert!(!source_continues(PublishResult::Closed));
}

#[test]
fn the_source_loops_over_a_finished_file() {
    assert_eq!(after_pass(PassOutcome::Completed), SourceAction::Restart);
    assert_eq!(after_pass(PassOutcome::Failed), SourceAction::RestartAfter { delay_ms: 1000 });
    assert_eq!(RETRY_DELAY_MS, 1000);
    assert_eq!(after_pass(PassOutcome::SinkClosed), SourceAction::Exit);
}

#[test]
fn an_encoder_worker_survives_lag() {
    assert_eq!(BUS_CAPACITY, 100);
    assert_eq!(on_worker_bus_event(BusEvent::Item), WorkerAction::Encode);
    assert_eq!(on_worker_bus_event(BusEvent::Lagged { missed: 90 }), WorkerAction::Continue);
    assert_eq!(on_worker_bus_event(BusEvent::Closed), WorkerAction::Finish);
}

#[test]
fn an_encoder_worker_finishes_on_a_broken_sink_or_failure() {
    assert_eq!(on_encode_result(EncodeResult::Encoded), WorkerAction::Continue);
    assert_eq!(on_encode_result(EncodeResult::SinkBroken), WorkerAction::Finish);
    assert_eq!(on_encode_result(EncodeResult::EncoderFailed), WorkerAction::Finish);
}

#[test]
fn encoder_targets_must_be_positive() {
    assert_eq!(check_encoder_targets(44100, 2), Ok(()));
    assert_eq!(check_encoder_targets(0, 2), Err(SessionError::EncoderInitFailed));
    assert_eq!(check_encoder_targets(44100, 0), Err(SessionError::EncoderInitFailed));
}

#[test]
fn a_stalled_listener_is_disconnected() {
    assert_eq!(SEND_TIMEOUT_SECS, 30);
    assert_eq!(BYTE_QUEUE_CAPACITY, 10);
    assert_eq!(on_writer_event(WriterEvent::ChunkReady), WriterAction::Send);
    assert_eq!(on_writer_event(WriterEvent::Written), WriterAction::AwaitChunk);
    assert_eq!(
        on_writer_event(WriterEvent::TimedOut),
        WriterAction::Disconnect { reason: EndReason::Stalled }
    );
    assert_eq!(
        on_writer_event(WriterEvent::SendFailed),
        WriterAction::Disconnect { reason: EndReason::SendFailed }
    );
    assert_eq!(
        on_writer_event(WriterEvent::QueueClosed),
        WriterAction::Disconnect { reason: EndReason::EncoderEnded }
    );
}

#[test]
fn chat_subscriptions_forward_and_survive_lag() {
    assert_eq!(on_chat_event(BusEvent::Item), ChatAction::Forward);
    assert_eq!(on_chat_event(BusEvent::Lagged { missed: 1 }), ChatAction::Continue);
    assert_eq!(on_chat_event(BusEvent::Closed), ChatAction::End);
    assert_eq!(after_forward(true), ChatAction::Continue);
    assert_eq!(after_forward(false), ChatAction::End);
}

#[test]
fn playback_cap() {
    assert!(!cap_reached(4, Some(5)));
    assert!(cap_reached(5, Some(5)));
    assert!(cap_reached(6, Some(5)));
    assert!(!cap_reached(1_000_000, None));
}
