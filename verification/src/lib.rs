//! The decisions of a single-threaded asynchronous runtime on top of epoll.
//!
//! The modules mirror the layers of the runtime. [`epoll`] reads the return
//! values of the epoll system calls, [`blockers`] turns interest in a file
//! descriptor into epoll requests, [`services`] polls a TCP stream, and
//! [`runtime`] schedules tasks. [`client`] prepares the sample program that
//! talks to a row of local servers.
//!
//! Nothing here performs a system call. Where the runtime alternates between
//! system calls and decisions, a function takes what the last call gave and
//! returns what is to be done next. The loops of the executor and the reactor do
//! their outside work through [`hooks`], which keep a record of it. [`laws`]
//! holds what is proved of the parts taken together.
pub mod blockers;
pub mod client;
pub mod epoll;
pub mod error;
pub mod hooks;
pub mod laws;
pub mod platform;
pub mod runtime;
pub mod services;
