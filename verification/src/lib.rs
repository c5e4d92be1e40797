//! Core logic of the Rivulet recording and streaming studio.
use vstd::prelude::*;

pub mod assoc;
pub mod chat;
pub mod engine;
pub mod health;
pub mod i18n;
pub mod ids;
pub mod json;
pub mod media_source;
pub mod midi;
pub mod ndi;
pub mod opengl_hook;
pub mod output;
pub mod plugin_manifest;
pub mod plugin_registry;
pub mod plugin_runtime;
pub mod presence;
pub mod preset;
pub mod rate_limit;
pub mod reconnect;
pub mod region;
pub mod replay;
pub mod scene;
pub mod scene_snapshot;
pub mod sdp;
pub mod source;
pub mod srt;
pub mod stream;
pub mod stream_info;
pub mod stream_info_flow;
pub mod stream_runtime;
pub mod studio;
pub mod telemetry;
pub mod text;
pub mod text_source;
pub mod time;
pub mod transition;

pub use engine::{AudioTrack, RivuletEngine, AUDIO_CHANNELS, AUDIO_SAMPLE_RATE};

verus! {
} // verus!
