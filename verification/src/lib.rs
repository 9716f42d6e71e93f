//! Screen capture and recording for the desktop: what happens between the
//! screencast that the portal hands out and the MP4 file in the end.
//!
//! - [`recording`] encodes frames and audio as they come, and muxes both; it
//!   rests on [`h264`], [`aac`], [`mux`] and [`clock`], which stand between
//!   the recorder and the crates that do the work.
//! - [`frame`], [`pcm`] and [`nal`] hold what there is to know about raw
//!   frames, raw audio and coded video.
//! - [`screencast`] picks the stream to record.
//! - [`cli`] reads the command line; [`server`] decides what the tools of the
//!   MCP server do.

pub mod aac;
pub mod cli;
pub mod clock;
pub mod frame;
pub mod h264;
pub mod mux;
pub mod nal;
pub mod pcm;
pub mod recording;
pub mod screencast;
pub mod server;
pub mod text;
