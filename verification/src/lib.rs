//! The decisions behind an SSH session keeper: it starts `ssh`, watches the
//! connection by sending a probe through a pair of port forwards, and starts
//! `ssh` again when the connection is gone.
//!
//! Everything here is a function of plain values. Sockets, clocks, threads and
//! child processes belong to the program around the library: it reports what
//! happened and carries out what the library answers.
pub mod backoff;
pub mod cli;
pub mod command;
pub mod conntester;
pub mod duration;
pub mod exchange;
pub mod parse;
pub mod session;
pub mod supervisor;
pub mod text;
pub mod verdict;
