//! A small distributed key-value store whose servers talk over MQTT.
//!
//! Keys are spread over the servers by the sum of their characters; each
//! server keeps a value table for its keys, answers searches on a return
//! topic, and sends heartbeats to a monitor. This crate holds the decisions
//! and data of that protocol; the network plumbing lives around it.

pub mod text;
pub mod messages;
pub mod responsibility;
pub mod topics;
pub mod values_table;
pub mod client;
pub mod communicator;
pub mod routing;
pub mod reconnect;
pub mod last_message;
pub mod monitor;
pub mod client_ids;

pub use messages::{ContentDumpInfo, HeartbeatInfo, RequestInfo, SearchReturnInfo};
pub use responsibility::{is_this_node_search_responsability, should_become_substitute};
pub use values_table::{ExternalConnectionRequest, ExternalConnectionRequestType};
