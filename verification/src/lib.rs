//! Verified core of the Helm alarm daemon: configuration parsing, the
//! armed/disarmed state machine, the persisted-state codec, sound-id
//! resolution and the decisions behind the D-Bus control surface.

pub mod text;
pub mod time;
pub mod persistence;
pub mod daemon;
pub mod config;
pub mod logging;
pub mod systemd;
pub mod audio;
pub mod output;
pub mod sounds;
pub mod control;
