//! The messages exchanged with the mesh server, as plain values.

use std::collections::HashMap;
use vstd::prelude::*;

verus! {

/// The envelope around every encoded body: a stable type name, a revision and
/// the opaque bytes.
#[derive(Debug)]
pub struct SerializedObject {
    pub object_type: String,
    pub revision: String,
    pub data: Vec<u8>,
}

/// What a [`SerializedObject`] holds.
pub struct SerializedObjectView {
    pub object_type: Seq<char>,
    pub revision: Seq<char>,
    pub data: Seq<u8>,
}

impl View for SerializedObject {
    type V = SerializedObjectView;

    open spec fn view(&self) -> SerializedObjectView {
        SerializedObjectView {
            object_type: self.object_type@,
            revision: self.revision@,
            data: self.data@,
        }
    }
}

impl Clone for SerializedObject {
    fn clone(&self) -> (copy: Self)
        ensures
            copy@ == self@,
    {
        let data = self.data.clone();
        assert(data@ =~= self.data@);
        SerializedObject { object_type: self.object_type.clone(), revision: self.revision.clone(), data }
    }
}

/// What an optional payload holds.
pub open spec fn payload_view(payload: Option<SerializedObject>) -> Option<SerializedObjectView> {
    match payload {
        Some(object) => Some(object@),
        None => None,
    }
}

/// A batch of permits granted to the server on a provider stream.
#[derive(Debug)]
pub struct FlowControl {
    pub client_id: String,
    pub permits: i64,
}

/// The error part of a response.
#[derive(Debug)]
pub struct ErrorMessage {
    pub message: String,
    pub location: String,
    pub details: Vec<String>,
    pub error_code: String,
}

/// A command as the server delivers it, or as a client submits it.
#[derive(Debug)]
pub struct Command {
    pub message_identifier: String,
    pub name: String,
    pub timestamp: i64,
    pub payload: Option<SerializedObject>,
    pub meta_data: HashMap<String, String>,
    pub client_id: String,
    pub component_name: String,
}

/// The announcement that this client handles one command name.
#[derive(Debug)]
pub struct CommandSubscription {
    pub message_id: String,
    pub command: String,
    pub component_name: String,
    pub client_id: String,
    pub load_factor: i32,
}

/// The reply to one command.
#[derive(Debug)]
pub struct CommandResponse {
    pub message_identifier: String,
    pub error_code: String,
    pub error_message: Option<ErrorMessage>,
    pub payload: Option<SerializedObject>,
    pub request_identifier: String,
}

/// What one instruction on the command provider stream carries.
#[derive(Debug)]
pub enum CommandInstruction {
    Subscribe(CommandSubscription),
    Unsubscribe(CommandSubscription),
    FlowControl(FlowControl),
    CommandResponse(CommandResponse),
}

/// One outbound instruction on the command provider stream.
#[derive(Debug)]
pub struct CommandProviderOutbound {
    pub instruction_id: String,
    pub request: CommandInstruction,
}

/// An event of an aggregate.
#[derive(Debug)]
pub struct Event {
    pub message_identifier: String,
    pub aggregate_identifier: String,
    pub aggregate_sequence_number: i64,
    pub aggregate_type: String,
    pub timestamp: i64,
    pub payload: Option<SerializedObject>,
    pub meta_data: HashMap<String, String>,
    pub snapshot: bool,
}

/// An event together with its position in the global event log.
#[derive(Debug)]
pub struct EventWithToken {
    pub token: i64,
    pub event: Option<Event>,
}

/// The request that opens, and later replenishes, a tracking event stream.
#[derive(Debug)]
pub struct GetEventsRequest {
    pub tracking_token: i64,
    pub number_of_permits: i64,
    pub client_id: String,
    pub component_name: String,
    pub processor: String,
    pub blacklist: Vec<SerializedObject>,
    pub force_read_from_leader: bool,
}

/// The request for the events of one aggregate.
#[derive(Debug)]
pub struct GetAggregateEventsRequest {
    pub aggregate_id: String,
    pub initial_sequence: i64,
    pub allow_snapshots: bool,
    pub max_sequence: i64,
    pub min_token: i64,
}

/// The request for the highest sequence number of one aggregate.
#[derive(Debug)]
pub struct ReadHighestSequenceNrRequest {
    pub aggregate_id: String,
    pub from_sequence_nr: i64,
}

/// A query as the server delivers it, or as a client submits it.
#[derive(Debug)]
pub struct QueryRequest {
    pub message_identifier: String,
    pub query: String,
    pub timestamp: i64,
    pub payload: Option<SerializedObject>,
    pub response_type: Option<SerializedObject>,
    pub client_id: String,
    pub component_name: String,
}

/// One answer to a query.
#[derive(Debug)]
pub struct QueryResponse {
    pub message_identifier: String,
    pub error_code: String,
    pub error_message: Option<ErrorMessage>,
    pub payload: Option<SerializedObject>,
    pub request_identifier: String,
}

/// The marker that ends the answers to one query.
#[derive(Debug)]
pub struct QueryComplete {
    pub message_id: String,
    pub request_id: String,
}

/// The announcement that this client answers one query name.
#[derive(Debug)]
pub struct QuerySubscription {
    pub message_id: String,
    pub query: String,
    pub result_name: String,
    pub component_name: String,
    pub client_id: String,
}

/// What one instruction on the query provider stream carries.
#[derive(Debug)]
pub enum QueryInstruction {
    Subscribe(QuerySubscription),
    Unsubscribe(QuerySubscription),
    FlowControl(FlowControl),
    QueryResponse(QueryResponse),
    QueryComplete(QueryComplete),
}

/// One outbound instruction on the query provider stream.
#[derive(Debug)]
pub struct QueryProviderOutbound {
    pub instruction_id: String,
    pub request: QueryInstruction,
}

/// How a client introduces itself to the server.
#[derive(Debug)]
pub struct ClientIdentification {
    pub client_id: String,
    pub component_name: String,
}

} // verus!
