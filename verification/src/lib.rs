//! The host side of an Android device that serves as a monitor for niri over USB: what it decides
//! and computes, without the files, sockets, processes and clocks that it does this for.
//!
//! - `annexb`, `access_unit` and `wire` turn what an H.264 encoder writes into frames for the
//!   device; `annexb_laws` and `access_unit_laws` say what that keeps.
//! - `messages` and `pointer` turn what the device sends back into pointer events.
//! - `config`, `args`, `paths` and `control` hold the settings and the requests that change them.
//! - `session`, `supervisor`, `recorder`, `commands`, `geometry` and `status` decide the course of
//!   a session and what other programs are told.
//! - `json` reads JSON through `serde_json`; `text` holds what the others need of strings.
pub mod access_unit;
pub mod access_unit_laws;
pub mod annexb;
pub mod annexb_laws;
pub mod args;
pub mod commands;
pub mod config;
pub mod control;
pub mod geometry;
pub mod json;
pub mod messages;
pub mod paths;
pub mod pointer;
pub mod recorder;
pub mod session;
pub mod status;
pub mod supervisor;
pub mod text;
pub mod wire;
