//! Engine for following log files on remote hosts: session bookkeeping,
//! line reassembly and the decisions of the tail loop, with machine-checked
//! contracts. All input and output is left to the caller.

pub mod control;
pub mod credentials;
pub mod discovery;
pub mod endpoint;
pub mod events;
pub mod failure;
pub mod levels;
pub mod lines;
pub mod local;
pub mod reader;
pub mod reassembler;
pub mod registry;
pub mod tail;
pub mod text;
