//! A small key-value engine behind a line-oriented wire protocol.
//!
//! The library holds what the server decides: how the bytes of a request
//! become a command ([`resp`]), what a command answers and what it does to
//! the store ([`command`], [`database`]), and how the bytes of a snapshot
//! file become entries ([`parser`]). Each of these is stated as a
//! mathematical function and the code is proved to compute it; [`laws`]
//! proves what follows for the engine as a whole. Sockets, files, threads and
//! the lock around the store are left to the program around the library,
//! which calls [`server`] once per read.
//!
//! Three things are believed rather than proved, and each is kept behind a
//! narrow contract: the byte cursor of the `bytes` crate ([`buffer`]), the
//! wall clock and the calendar of `chrono` ([`clock`]), and two functions of
//! the standard library, its UTF-8 check and its lower-casing of text beyond
//! ASCII (both in [`text`]).

pub mod buffer;
pub mod clock;
pub mod command;
pub mod database;
pub mod dict;
pub mod error;
pub mod laws;
pub mod parser;
pub mod resp;
pub mod server;
pub mod text;
