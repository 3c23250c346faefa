//! The core of a console for trying out TCP and UDP sockets, free of input
//! and output.
//!
//! The console stands up a TCP listener or a UDP socket, connects and
//! accepts peers, and exchanges text with them. Every call into the
//! operating system is made by a driver outside this library. The library
//! decides: it resolves addresses, says which socket call comes next, takes
//! the outcome of each call, and answers with the next step or the result.
//!
//! - [`common`] resolves a host and a port as typed, over [`address`] and
//!   [`text`].
//! - [`tcp_client`], [`tcp_server`] and [`udp_client`] are the engines of a
//!   TCP connection, a TCP listener with its [`registry`] of peers, and a
//!   UDP socket. The driver speaks to them in the terms of [`outcome`] and
//!   [`wire`].
//! - [`console`] holds the checklist of peers and the lines of the logs.
//! - [`rokit_error`] is the one error of them all.

pub mod address;
pub mod common;
pub mod console;
pub mod outcome;
pub mod registry;
pub mod rokit_error;
pub mod tcp_client;
pub mod tcp_server;
pub mod text;
pub mod udp_client;
pub mod wire;
