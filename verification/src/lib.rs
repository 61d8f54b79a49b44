//! A file-watching command runner: decides which changed paths should trigger a
//! command restart, debounces bursts of change notifications into a single
//! restart decision, and supervises a single child process group across
//! restarts with a graceful-then-forceful termination protocol.

pub mod debounce;
pub mod filter;
pub mod paths;
pub mod supervise;
