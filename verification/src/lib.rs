//! Conversion task orchestration for a media transcoding front end.
//!
//! The crate turns a declarative [`types::ConversionConfig`] into the exact
//! argument vectors handed to the external transcoder, rejects requests that
//! the target container cannot hold before any process is started, schedules
//! jobs under a concurrency ceiling, and sequences the three stages of the
//! frame upscaling pipeline.  Everything here is pure: processes, files and
//! events live with the caller.
//!
//! * [`media_rules`] is the table of what each container can hold.
//! * [`validate`] and [`stream_copy`] decide whether a request is accepted.
//! * [`args`], with [`codec`] and [`filters`], synthesizes the arguments of
//!   a conversion; [`output_path`] says where the result goes.
//! * [`scheduler`] queues tasks and admits them under the ceiling.
//! * [`upscale`], [`pipeline`] and [`progress`] plan and lead the upscaling
//!   pipeline; [`worker`] reads the progress of a plain conversion.
//! * [`text`] and [`timecode`] read and write the texts all of them use.

pub mod text;
pub mod error;
pub mod types;
pub mod media_rules;
pub mod timecode;
pub mod filters;
pub mod codec;
pub mod args;
pub mod output_path;
pub mod validate;
pub mod stream_copy;
pub mod progress;
pub mod upscale;
pub mod pipeline;
pub mod scheduler;
pub mod worker;
