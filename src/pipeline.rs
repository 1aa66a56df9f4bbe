//! Decisions of the broadcast pipeline's loops.
//!
//! Each loop (the source decoder, a listener's encoder worker, its network
//! writer, a chat subscription, the listener's playback) alternates outside
//! work with a decision. The work is done by the caller; the decisions are
//! the functions here, from what happened to what to do next.
use vstd::prelude::*;

verus! {

/// Capacity of the PCM fan-out bus and of the chat bus, in items.
pub const BUS_CAPACITY: usize = 100;

/// Capacity of a listener's queue of encoded chunks.
pub const BYTE_QUEUE_CAPACITY: usize = 10;

/// Deadline of one network send, in seconds.
pub const SEND_TIMEOUT_SECS: u64 = 30;

/// Pause before the source decoder retries after a failed pass, in milliseconds.
pub const RETRY_DELAY_MS: u64 = 1000;

/// Sample rate that the source decoder assumes when the container gives none.
pub const DEFAULT_SOURCE_RATE: u32 = 44100;

/// Channel count that the source decoder assumes when the container gives none.
pub const DEFAULT_SOURCE_CHANNELS: usize = 2;

// ---------------------------------------------------------------------------
// Source decoder
// ---------------------------------------------------------------------------

/// A track of the source container, as far as track selection needs it.
#[derive(Debug, Clone, Copy, PartialEq, Eq, Structural)]
pub struct TrackSummary {
    pub id: u32,
    /// Whether the track names a codec (a null codec marks a non-audio track).
    pub has_codec: bool,
}

/// Whether track `i` is the first that names a codec.
pub open spec fn is_first_audio_track(tracks: Seq<TrackSummary>, i: int) -> bool {
    &&& 0 <= i < tracks.len()
    &&& tracks[i].has_codec
    &&& forall|j: int| 0 <= j < i ==> !(#[trigger] tracks[j]).has_codec
}

/// Picks the track to decode: the first one that names a codec.
pub fn select_track(tracks: &Vec<TrackSummary>) -> (r: Option<u32>)
    ensures
        r is None <==> forall|i: int| 0 <= i < tracks@.len() ==> !(#[trigger] tracks@[i]).has_codec,
        r matches Some(id) ==> exists|i: int|
            is_first_audio_track(tracks@, i) && (#[trigger] tracks@[i]).id == id,
{
    let mut i: usize = 0;
    while i < tracks.len()
        invariant
            i <= tracks@.len(),
            forall|j: int| 0 <= j < i ==> !(#[trigger] tracks@[j]).has_codec,
        decreases tracks@.len() - i,
    {
        if tracks[i].has_codec {
            assert(is_first_audio_track(tracks@, i as int));
            return Some(tracks[i].id);
        }
        i = i + 1;
    }
    None
}

/// What reading the next packet from the container gave.
#[derive(Debug, Clone, Copy, PartialEq, Eq, Structural)]
pub enum PacketRead {
    Packet { track_id: u32 },
    /// The input ended where more was expected.
    EndOfStream,
    /// The container asks for a reset of the decoder.
    ResetRequired,
    /// Any other failure to read.
    Failed,
}

/// What the decoder does with a packet read.
#[derive(Debug, Clone, Copy, PartialEq, Eq, Structural)]
pub enum PacketAction {
    Decode,
    Skip,
    /// The pass is over: start again from the beginning of the file.
    EndPass,
    /// The pass failed.
    AbortPass,
}

pub open spec fn packet_action(read: PacketRead, track: u32) -> PacketAction {
    match read {
        PacketRead::Packet { track_id } => if track_id == track {
            PacketAction::Decode
        } else {
            PacketAction::Skip
        },
        PacketRead::EndOfStream => PacketAction::EndPass,
        PacketRead::ResetRequired => PacketAction::EndPass,
        PacketRead::Failed => PacketAction::AbortPass,
    }
}

/// Packets of the selected `track` are decoded and those of other tracks
/// skipped; the end of the input or a reset ends the pass, and any other
/// read failure aborts it.
pub fn on_packet_read(read: PacketRead, track: u32) -> (r: PacketAction)
    ensures
        r == packet_action(read, track),
{
    match read {
        PacketRead::Packet { track_id } => if track_id == track {
            PacketAction::Decode
        } else {
            PacketAction::Skip
        },
        PacketRead::EndOfStream => PacketAction::EndPass,
        PacketRead::ResetRequired => PacketAction::EndPass,
        PacketRead::Failed => PacketAction::AbortPass,
    }
}

/// What decoding one packet gave.
#[derive(Debug, Clone, Copy, PartialEq, Eq, Structural)]
pub enum DecodeResult {
    Decoded,
    /// The packet is malformed; the stream can go on past it.
    BadPacket,
    Failed,
}

/// What the decoder does with a decode result.
#[derive(Debug, Clone, Copy, PartialEq, Eq, Structural)]
pub enum DecodeAction {
    Publish,
    Skip,
    AbortPass,
}

pub open spec fn decode_action(result: DecodeResult) -> DecodeAction {
    match result {
        DecodeResult::Decoded => DecodeAction::Publish,
        DecodeResult::BadPacket => DecodeAction::Skip,
        DecodeResult::Failed => DecodeAction::AbortPass,
    }
}

/// A decoded frame is published, a bad packet skipped, and any other decode
/// failure aborts the pass.
pub fn on_decode(result: DecodeResult) -> (r: DecodeAction)
    ensures
        r == decode_action(result),
{
    match result {
        DecodeResult::Decoded => DecodeAction::Publish,
        DecodeResult::BadPacket => DecodeAction::Skip,
        DecodeResult::Failed => DecodeAction::AbortPass,
    }
}

/// What publishing a block on the fan-out bus gave.
#[derive(Debug, Clone, Copy, PartialEq, Eq, Structural)]
pub enum PublishResult {
    Delivered,
    /// Nobody listens now, and listeners may still come.
    NoSubscribers,
    /// The bus is shut for every future subscriber.
    Closed,
}

/// Whether the source goes on after a publish: only a bus that is shut for
/// good stops it.
pub fn source_continues(result: PublishResult) -> (r: bool)
    ensures
        r <==> result != PublishResult::Closed,
{
    match result {
        PublishResult::Closed => false,
        _ => true,
    }
}

/// How one pass over the source file ended.
#[derive(Debug, Clone, Copy, PartialEq, Eq, Structural)]
pub enum PassOutcome {
    /// The file was read to its end.
    Completed,
    /// The fan-out bus is shut for good.
    SinkClosed,
    /// The pass could not open, probe or decode the file.
    Failed,
}

/// What the source decoder does after a pass.
#[derive(Debug, Clone, Copy, PartialEq, Eq, Structural)]
pub enum SourceAction {
    Restart,
    RestartAfter { delay_ms: u64 },
    Exit,
}

pub open spec fn source_action(outcome: PassOutcome) -> SourceAction {
    match outcome {
        PassOutcome::Completed => SourceAction::Restart,
        PassOutcome::SinkClosed => SourceAction::Exit,
        PassOutcome::Failed => SourceAction::RestartAfter { delay_ms: RETRY_DELAY_MS },
    }
}

/// A completed pass loops back to the start of the file, a failed one is
/// retried after [`RETRY_DELAY_MS`], and the decoder exits only once the bus
/// is shut.
pub fn after_pass(outcome: PassOutcome) -> (r: SourceAction)
    ensures
        r == source_action(outcome),
{
    match outcome {
        PassOutcome::Completed => SourceAction::Restart,
        PassOutcome::SinkClosed => SourceAction::Exit,
        PassOutcome::Failed => SourceAction::RestartAfter { delay_ms: RETRY_DELAY_MS },
    }
}

/// The source decoder loops: over any run of passes none of which found the
/// bus shut, it never exits, so a finite file yields an endless stream of
/// passes; and it exits after a pass exactly when the bus is shut.
pub proof fn lemma_source_loops(outcomes: Seq<PassOutcome>)
    ensures
        (forall|i: int| 0 <= i < outcomes.len() ==> outcomes[i] != PassOutcome::SinkClosed) ==> (
        forall|i: int|
            0 <= i < outcomes.len() ==> #[trigger] source_action(outcomes[i]) != SourceAction::Exit),
        forall|o: PassOutcome| #[trigger] source_action(o) == SourceAction::Exit <==> o
            == PassOutcome::SinkClosed,
{
}

// ---------------------------------------------------------------------------
// Encoder worker
// ---------------------------------------------------------------------------

/// What a listener's subscription to a bus gave.
#[derive(Debug, Clone, Copy, PartialEq, Eq, Structural)]
pub enum BusEvent {
    Item,
    /// The subscriber fell behind and `missed` items were dropped for it.
    Lagged { missed: u64 },
    /// No item will ever come again.
    Closed,
}

/// What happened when the encoder took a block.
#[derive(Debug, Clone, Copy, PartialEq, Eq, Structural)]
pub enum EncodeResult {
    Encoded,
    /// The byte sink reports that the listener is gone.
    SinkBroken,
    EncoderFailed,
}

/// What a listener's encoder worker does next.
#[derive(Debug, Clone, Copy, PartialEq, Eq, Structural)]
pub enum WorkerAction {
    /// Hand the block received to the encoder.
    Encode,
    /// Wait for the next block.
    Continue,
    /// Finalize the encoder, flushing what it holds, and stop.
    Finish,
}

pub open spec fn worker_on_bus(event: BusEvent) -> WorkerAction {
    match event {
        BusEvent::Item => WorkerAction::Encode,
        BusEvent::Lagged { .. } => WorkerAction::Continue,
        BusEvent::Closed => WorkerAction::Finish,
    }
}

/// A block is encoded; a lag is survived, at the live edge; a closed bus
/// finishes the worker.
pub fn on_worker_bus_event(event: BusEvent) -> (r: WorkerAction)
    ensures
        r == worker_on_bus(event),
{
    match event {
        BusEvent::Item => WorkerAction::Encode,
        BusEvent::Lagged { .. } => WorkerAction::Continue,
        BusEvent::Closed => WorkerAction::Finish,
    }
}

/// After a block is encoded the worker waits for the next one; a broken sink
/// or an encoder failure finishes it.
pub fn on_encode_result(result: EncodeResult) -> (r: WorkerAction)
    ensures
        result == EncodeResult::Encoded ==> r == WorkerAction::Continue,
        result != EncodeResult::Encoded ==> r == WorkerAction::Finish,
{
    match result {
        EncodeResult::Encoded => WorkerAction::Continue,
        _ => WorkerAction::Finish,
    }
}

/// Why a listener session was refused at accept.
#[derive(Debug, Clone, Copy, PartialEq, Eq, Structural)]
pub enum SessionError {
    /// The station's target rate or channel count cannot configure an encoder.
    EncoderInitFailed,
}

/// Checks the encoder's targets: a rate and a channel count of zero are
/// refused.
pub fn check_encoder_targets(sample_rate: u32, channels: u8) -> (r: Result<(), SessionError>)
    ensures
        r is Ok <==> (sample_rate > 0 && channels > 0),
        r is Err ==> r == Err::<(), SessionError>(SessionError::EncoderInitFailed),
{
    if sample_rate > 0 && channels > 0 {
        Ok(())
    } else {
        Err(SessionError::EncoderInitFailed)
    }
}

// ---------------------------------------------------------------------------
// Network writer
// ---------------------------------------------------------------------------

/// What the network writer of a listener session observed.
#[derive(Debug, Clone, Copy, PartialEq, Eq, Structural)]
pub enum WriterEvent {
    /// An encoded chunk is waiting in the queue.
    ChunkReady,
    /// The encoder worker is gone and the queue is empty.
    QueueClosed,
    /// A chunk was written within the deadline.
    Written,
    /// A write failed.
    SendFailed,
    /// A write made no progress within [`SEND_TIMEOUT_SECS`].
    TimedOut,
}

/// Why a listener session ended.
#[derive(Debug, Clone, Copy, PartialEq, Eq, Structural)]
pub enum EndReason {
    EncoderEnded,
    SendFailed,
    Stalled,
}

/// What the network writer does next.
#[derive(Debug, Clone, Copy, PartialEq, Eq, Structural)]
pub enum WriterAction {
    /// Write the waiting chunk, within [`SEND_TIMEOUT_SECS`].
    Send,
    /// Wait for the next chunk.
    AwaitChunk,
    /// Finish the send stream, abort the encoder worker, then release the listener.
    Disconnect { reason: EndReason },
}

pub open spec fn writer_action(event: WriterEvent) -> WriterAction {
    match event {
        WriterEvent::ChunkReady => WriterAction::Send,
        WriterEvent::Written => WriterAction::AwaitChunk,
        WriterEvent::QueueClosed => WriterAction::Disconnect { reason: EndReason::EncoderEnded },
        WriterEvent::SendFailed => WriterAction::Disconnect { reason: EndReason::SendFailed },
        WriterEvent::TimedOut => WriterAction::Disconnect { reason: EndReason::Stalled },
    }
}

/// A chunk in the queue is sent; a write in time waits for the next; a closed
/// queue, a failed write and a stalled write each end the session.
pub fn on_writer_event(event: WriterEvent) -> (r: WriterAction)
    ensures
        r == writer_action(event),
{
    match event {
        WriterEvent::ChunkReady => WriterAction::Send,
        WriterEvent::Written => WriterAction::AwaitChunk,
        WriterEvent::QueueClosed => WriterAction::Disconnect { reason: EndReason::EncoderEnded },
        WriterEvent::SendFailed => WriterAction::Disconnect { reason: EndReason::SendFailed },
        WriterEvent::TimedOut => WriterAction::Disconnect { reason: EndReason::Stalled },
    }
}

// ---------------------------------------------------------------------------
// Chat subscription
// ---------------------------------------------------------------------------

/// What a chat subscription does next.
#[derive(Debug, Clone, Copy, PartialEq, Eq, Structural)]
pub enum ChatAction {
    /// Hand the message received to the subscriber's sink.
    Forward,
    Continue,
    End,
}

pub open spec fn chat_action(event: BusEvent) -> ChatAction {
    match event {
        BusEvent::Item => ChatAction::Forward,
        BusEvent::Lagged { .. } => ChatAction::Continue,
        BusEvent::Closed => ChatAction::End,
    }
}

/// A message is forwarded, a lag is survived, a closed bus ends the
/// subscription.
pub fn on_chat_event(event: BusEvent) -> (r: ChatAction)
    ensures
        r == chat_action(event),
{
    match event {
        BusEvent::Item => ChatAction::Forward,
        BusEvent::Lagged { .. } => ChatAction::Continue,
        BusEvent::Closed => ChatAction::End,
    }
}

/// After a forward: the subscription goes on while the sink takes messages.
pub fn after_forward(sink_accepted: bool) -> (r: ChatAction)
    ensures
        sink_accepted ==> r == ChatAction::Continue,
        !sink_accepted ==> r == ChatAction::End,
{
    if sink_accepted {
        ChatAction::Continue
    } else {
        ChatAction::End
    }
}

/// A lag is never the end of a subscriber: neither an encoder worker nor a
/// chat subscription stops on one, whatever the number of items missed.
pub proof fn lemma_lag_is_survived(missed: u64)
    ensures
        worker_on_bus(BusEvent::Lagged { missed }) == WorkerAction::Continue,
        chat_action(BusEvent::Lagged { missed }) == ChatAction::Continue,
{
}

// ---------------------------------------------------------------------------
// Listener playback
// ---------------------------------------------------------------------------

/// Whether a listener with an optional cap of `cap_secs` seconds stops after
/// `elapsed_secs` seconds of playback.
pub fn cap_reached(elapsed_secs: u64, cap_secs: Option<u64>) -> (r: bool)
    ensures
        r <==> (cap_secs matches Some(cap) && elapsed_secs >= cap),
{
    match cap_secs {
        Some(cap) => elapsed_secs >= cap,
        None => false,
    }
}

} // verus!
