//! Decision and message logic of a peer-to-peer Docker image transfer tool,
//! verified with Verus.
pub mod cli;
pub mod clientbeam;
pub mod connection_handler;
pub mod io;
pub mod serverbeacon;
pub mod text;
pub mod transfer;
pub mod webrtc_control;
