//! Supervision of dataflow nodes: when a node process is restarted, parked or given up on, what
//! is done with its output, and how the node commands talk to the coordinator.

pub mod command;
pub mod command_laws;
pub mod control;
pub mod log_message;
pub mod logging;
pub mod node;
pub mod output;
pub mod recent;
pub mod restart_limit;
pub mod sample;
pub mod spawn;
pub mod supervisor;
pub mod supervisor_laws;
pub mod supervisor_steps;
pub mod text;
pub mod time;
pub mod wait;
