//! Batch transcription uploads: how a recording is prepared, encoded, split and sent, what
//! is reported on the way, and how the answers to its pieces are put together again.

pub mod compression;
pub mod duration;
pub mod encode;
pub mod failure;
pub mod fraction;
pub mod json;
pub mod merge;
pub mod merge_laws;
pub mod merge_result_laws;
pub mod moved;
pub mod prepare;
pub mod prepare_laws;
pub mod progress;
pub mod progress_laws;
pub mod response;
pub mod run;
pub mod run_laws;
pub mod text;
pub mod timeout;
pub mod upload_progress;
pub mod upload_progress_laws;
