//! Voice-reception core of a transcription bot: per-connection participant
//! tracking, admission control, per-speaker audio buffers and the decisions
//! that turn a finished utterance into a transcode job and a relayed message.
pub mod admission;
pub mod autojoin;
pub mod bot;
pub mod registry;
pub mod relay;
pub mod session;
pub mod table;
pub mod transcode;

pub use admission::{Admission, AdmissionSet};
pub use bot::{Handler, ShardManagerWrapper};
pub use registry::ParticipantRegistry;
pub use session::{DecodeMode, DecoderCommand, Receiver, Utterance};
