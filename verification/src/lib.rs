//! Lifecycle management for a single supervised tunnel process.
//!
//! The crate holds the decisions of the tunnel manager as plain functions
//! with machine-checked contracts; whoever drives it performs the process and
//! file operations that the controller asks for and reports their results.
//!
//! - [`request`] checks what the form holds and puts it in order.
//! - [`relay`] describes the one-shot helper that hands over a password.
//! - [`invocation`] builds the command line and environment of the tunnel
//!   tool.
//! - [`handle`] owns the running process and the helper's path.
//! - [`status`] holds the outcomes and the status lines that tell of them.
//! - [`controller`] decides, call by call, what is done next.
//! - [`sequence`] states and proves what whole sequences of calls come to.
//! - [`apps`] makes the inventory of installed applications.
//! - [`text`] holds the text primitives that the others share.

pub mod apps;
pub mod controller;
pub mod handle;
pub mod invocation;
pub mod relay;
pub mod request;
pub mod sequence;
pub mod status;
pub mod text;
