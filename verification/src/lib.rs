//! Batch voice-cloning for subtitled audio.
pub mod api;
pub mod api_laws;
pub mod audio;
pub mod audio_laws;
pub mod cli;
pub mod commands;
pub mod course_laws;
pub mod display;
pub mod executor;
pub mod list_laws;
pub mod log_capture;
pub mod merge_laws;
pub mod metrics;
pub mod model_laws;
pub mod numeral_laws;
pub mod order_laws;
pub mod outside;
pub mod page_laws;
pub mod pipeline;
pub mod report;
pub mod round_laws;
pub mod rounds;
pub mod run_laws;
pub mod silence;
pub mod split;
pub mod srt;
pub mod srt_laws;
pub mod subtitle_laws;
pub mod task;
pub mod task_laws;
pub mod tempo;
pub mod text;
pub mod text_laws;
pub mod timed_merge;
pub mod validation;
pub mod web;
