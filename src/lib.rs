//! Task orchestration for an external media transcoder: time codes and
//! progress parsing, the registry and store of running tasks with their
//! pause, resume, delete and shutdown decisions, hardware encoder probing,
//! and the transcoder's argument lists.

pub mod banner;
pub mod codec_list;
pub mod codecs;
pub mod command;
pub mod frames;
pub mod hardware;
pub mod image;
pub mod lifecycle;
pub mod media_info;
pub mod progress;
pub mod table;
pub mod text;
pub mod timecode;
pub mod types;
