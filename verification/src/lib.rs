//! Client-side runtime for a command-and-event mesh: handler registries,
//! flow-control permit accounting, the aggregate command pipeline, the
//! tracking event processor and the query provider, as verified decision
//! logic that a transport loop drives.

pub mod codec;
pub mod command_submit;
pub mod command_worker;
pub mod connection;
pub mod errors;
pub mod event_processor;
pub mod event_query;
pub mod flow_control;
pub mod ids;
pub mod messages;
pub mod query_processor;
pub mod query_submit;
pub mod registry;
