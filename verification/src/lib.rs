//! A terminal video-chat library: frames of colored ASCII cells are encoded
//! from raw RGB rasters, distributed to every member of a shared session by
//! a broadcast hub, and mirrored on each client by an aggregator.

pub mod ascii;
pub mod client;
pub mod hub;
pub mod message;
pub mod ui;
pub mod user;
pub mod webcam;
