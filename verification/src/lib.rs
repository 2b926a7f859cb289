//! A small NTP clock-comparison library: the wire format of the NTP header,
//! the conversion between Unix time and NTP era seconds, and the clock-offset
//! computations of the client and of the server's answers.

pub mod error;

pub mod ntp;
pub mod common;
pub mod client;
pub mod server;
