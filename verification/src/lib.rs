//! A small process-network library: the sequential computation it distributes,
//! the decisions of each task of the network, the wire format of the messages
//! exchanged over pipes, and the command lines that start the tasks.

pub mod funs;
pub mod input_example;
pub mod wire;
pub mod channel;
pub mod tasks;
pub mod network;
pub mod launch;
pub mod channel_names;
