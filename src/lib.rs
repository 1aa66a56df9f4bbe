//! Core logic of a peer-to-peer internet radio: station bookkeeping, chat
//! composition, PCM block reshaping, byte chunking between the codecs and the
//! transport, and the decisions of the streaming loops.

mod chunks;
mod command;
mod pcm;
mod pipeline;
mod source;
mod station;
mod text;

pub use chunks::{ChunkBuffer, ChunkReader, FLUSH_THRESHOLD, READ_CHUNK};
pub use command::{classify_command, parse_command, Command};
pub use pcm::{copy_plane, deinterleave, interleave, shape_channels, upmix_mono};
pub use pipeline::{
    after_forward, after_pass, cap_reached, check_encoder_targets, on_chat_event, on_decode,
    on_encode_result, on_packet_read, on_worker_bus_event, on_writer_event, select_track,
    source_continues, BusEvent, ChatAction, DecodeAction, DecodeResult, EncodeResult, EndReason,
    PacketAction, PacketRead, PassOutcome, PublishResult, SessionError, SourceAction,
    TrackSummary, WorkerAction, WriterAction, WriterEvent, BUS_CAPACITY, BYTE_QUEUE_CAPACITY,
    DEFAULT_SOURCE_CHANNELS, DEFAULT_SOURCE_RATE, RETRY_DELAY_MS, SEND_TIMEOUT_SECS,
};
pub use source::{find_device_by_name, first_holding, FileSource, LiveSource};
pub use station::{
    compose_chat, ChatError, ChatMessage, ListenerInfo, StationInfo, StationState,
    NOMINAL_BITRATE,
};
pub use text::{contains_chars, has_prefix, same_chars};
