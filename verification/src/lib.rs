//! A verified core for nodes of the Maelstrom distributed-systems workbench:
//! the message model, the node runtime's bookkeeping of outstanding calls,
//! the dispatch of incoming messages, and the echo, broadcast and unique-id
//! workloads built on it.

pub mod maelstrom;
pub mod echo;
pub mod broadcast;
pub mod uniq_ids;
