//! The query provider: dispatch of one query and the outbound stream.

use crate::errors::{error_code, error_message, is_error_message, DispatchError, ErrorKind};
use crate::flow_control::{balance_after_response, grants_after_response, PermitAccount, PERMITS_BATCH_SIZE};
use crate::ids::{fresh_identifier, is_identifier};
use crate::messages::{
    payload_view, FlowControl, QueryComplete, QueryInstruction, QueryProviderOutbound, QueryRequest, QueryResponse,
    QuerySubscription, SerializedObject, SerializedObjectView,
};
use crate::registry::TheHandlerRegistry;
use vstd::prelude::*;
use vstd::string::StringExecFns;

verus! {

/// The context that query handlers run in.
pub trait QueryContext {

}

/// What a query handler yields.
#[derive(Debug)]
pub struct QueryResult {
    pub payload: Option<SerializedObject>,
}

/// How the handling of one query ended: the identifier of the query, and
/// the payload to answer with, or the failure.
#[derive(Debug)]
pub struct AxonQueryResult {
    pub message_identifier: String,
    pub result: Result<Option<SerializedObject>, DispatchError>,
}

/// What a query is answered with after its handler ended in `outcome`: the
/// payload that the handler yields, nothing where it yields none, or its
/// failure.
pub open spec fn answer(outcome: Result<Option<QueryResult>, DispatchError>) -> Result<Option<SerializedObject>, DispatchError> {
    match outcome {
        Ok(Some(result)) => Ok(result.payload),
        Ok(None) => Ok(None),
        Err(error) => Err(error),
    }
}

/// Whether handling `query` in `context` can end in `result`. A query whose
/// name has no handler, and a query without payload, is an error; any other
/// goes to its handler.
pub open spec fn query_outcome<Q>(
    registry: TheHandlerRegistry<Q, QueryResult>,
    context: &Q,
    query: QueryRequest,
    result: AxonQueryResult,
) -> bool {
    &&& result.message_identifier@ == query.message_identifier@
    &&& if !registry.contains(query.query@) {
        result.result matches Err(error) && error.kind == ErrorKind::HandlerMissing && error.detail@ == query.query@
    } else {
        match query.payload {
            None => result.result matches Err(error) && error.kind == ErrorKind::MissingPayload && error.detail@
                == query.query@,
            Some(payload) => exists|outcome: Result<Option<QueryResult>, DispatchError>| #[trigger]
                registry.dispatches(query.query@, payload.data@, context, outcome) && result.result == answer(
                    outcome,
                ),
        }
    }
}

/// Handles one query: looks up the handler by the query's name and calls it
/// with the payload's bytes and the context.
pub fn handle_query<Q>(query: &QueryRequest, query_context: &Q, query_handler_registry: &TheHandlerRegistry<Q, QueryResult>) -> (result: AxonQueryResult)
    ensures
        query_outcome(*query_handler_registry, query_context, *query, result),
{
    let message_identifier = query.message_identifier.clone();
    let result = match query_handler_registry.get(query.query.as_str()) {
        None => Err(DispatchError::new(ErrorKind::HandlerMissing, query.query.as_str())),
        Some(handler) => match &query.payload {
            None => Err(DispatchError::new(ErrorKind::MissingPayload, query.query.as_str())),
            Some(payload) => {
                let data = payload.data.clone();
                assert(data@ =~= payload.data@);
                let outcome = handler.handle(data, query_context);
                assert(query_handler_registry.dispatches(query.query@, payload.data@, query_context, outcome));
                match outcome {
                    Ok(Some(result)) => Ok(result.payload),
                    Ok(None) => Ok(None),
                    Err(error) => Err(error),
                }
            },
        },
    };
    AxonQueryResult { message_identifier, result }
}

/// The payload that a handled query is answered with.
pub open spec fn answer_payload(result: Result<Option<SerializedObject>, DispatchError>) -> Option<SerializedObjectView> {
    match result {
        Ok(payload) => payload_view(payload),
        Err(_) => None,
    }
}

/// Whether `response`, under the identifier `message_identifier`, is the
/// answer to the query that `result` is about. A success carries the payload,
/// if any, and no error; a failure carries the error code, the error's
/// message and no payload.
pub open spec fn answers(response: QueryResponse, message_identifier: Seq<char>, result: AxonQueryResult) -> bool {
    &&& response.message_identifier@ == message_identifier
    &&& response.request_identifier@ == result.message_identifier@
    &&& payload_view(response.payload) == answer_payload(result.result)
    &&& match result.result {
        Ok(_) => response.error_code@.len() == 0 && response.error_message.is_none(),
        Err(error) => {
            &&& response.error_code@ == error_code()
            &&& response.error_message matches Some(message)
            &&& is_error_message(message, error.spec_message())
        },
    }
}

/// The answer, under the identifier `message_identifier`, to the query that
/// `result` is about.
pub fn query_response(message_identifier: String, result: AxonQueryResult) -> (response: QueryResponse)
    ensures
        answers(response, message_identifier@, result),
{
    match result.result {
        Ok(payload) => QueryResponse {
            message_identifier,
            error_code: String::new(),
            error_message: None,
            payload,
            request_identifier: result.message_identifier,
        },
        Err(error) => QueryResponse {
            message_identifier,
            error_code: String::from_str("ERROR"),
            error_message: Some(error_message(&error)),
            payload: None,
            request_identifier: result.message_identifier,
        },
    }
}

/// Whether `instruction` subscribes the client `client_id` to `query`, for
/// results of any name.
pub open spec fn is_query_subscribe(instruction: QueryProviderOutbound, client_id: Seq<char>, query: Seq<char>) -> bool {
    &&& is_identifier(instruction.instruction_id@)
    &&& instruction.request matches QueryInstruction::Subscribe(subscription)
    &&& is_identifier(subscription.message_id@)
    &&& subscription.query@ == query
    &&& subscription.result_name@ == "*"@
    &&& subscription.client_id@ == client_id
    &&& subscription.component_name@ == client_id
}

/// Whether `instruction` grants `permits` permits in the name of `client_id`.
pub open spec fn is_query_flow_control(instruction: QueryProviderOutbound, client_id: Seq<char>, permits: int) -> bool {
    &&& is_identifier(instruction.instruction_id@)
    &&& instruction.request matches QueryInstruction::FlowControl(flow_control)
    &&& flow_control.client_id@ == client_id
    &&& flow_control.permits == permits
}

/// Whether `instruction` carries the answer to the query that `result` is
/// about.
pub open spec fn is_query_reply(instruction: QueryProviderOutbound, result: AxonQueryResult) -> bool {
    &&& is_identifier(instruction.instruction_id@)
    &&& instruction.request matches QueryInstruction::QueryResponse(response)
    &&& is_identifier(response.message_identifier@)
    &&& answers(response, response.message_identifier@, result)
}

/// Whether `instruction` ends the answers to the query `request_id`.
pub open spec fn is_query_complete(instruction: QueryProviderOutbound, request_id: Seq<char>) -> bool {
    &&& is_identifier(instruction.instruction_id@)
    &&& instruction.request matches QueryInstruction::QueryComplete(complete)
    &&& is_identifier(complete.message_id@)
    &&& complete.request_id@ == request_id
}

/// The instruction `instruction_id` that subscribes `client_id` to `query`
/// under the subscription identifier `message_id`.
pub fn query_subscribe_instruction(instruction_id: String, message_id: String, client_id: &str, query: &str) -> (instruction: QueryProviderOutbound)
    ensures
        instruction.instruction_id == instruction_id,
        instruction.request matches QueryInstruction::Subscribe(subscription) && subscription.message_id
            == message_id && subscription.query@ == query@ && subscription.result_name@ == "*"@
            && subscription.client_id@ == client_id@ && subscription.component_name@ == client_id@,
{
    QueryProviderOutbound {
        instruction_id,
        request: QueryInstruction::Subscribe(
            QuerySubscription {
                message_id,
                query: String::from_str(query),
                result_name: String::from_str("*"),
                component_name: String::from_str(client_id),
                client_id: String::from_str(client_id),
            },
        ),
    }
}

/// The instruction `instruction_id` that grants `permits` permits in the
/// name of `client_id`.
pub fn query_flow_control_instruction(instruction_id: String, client_id: &str, permits: i64) -> (instruction: QueryProviderOutbound)
    ensures
        instruction.instruction_id == instruction_id,
        instruction.request matches QueryInstruction::FlowControl(flow_control) && flow_control.client_id@
            == client_id@ && flow_control.permits == permits,
{
    QueryProviderOutbound {
        instruction_id,
        request: QueryInstruction::FlowControl(FlowControl { client_id: String::from_str(client_id), permits }),
    }
}

/// The instruction `instruction_id` that carries `response`.
pub fn query_response_instruction(instruction_id: String, response: QueryResponse) -> (instruction: QueryProviderOutbound)
    ensures
        instruction.instruction_id == instruction_id,
        instruction.request == QueryInstruction::QueryResponse(response),
{
    QueryProviderOutbound { instruction_id, request: QueryInstruction::QueryResponse(response) }
}

/// The instruction `instruction_id` that ends, under the identifier
/// `message_id`, the answers to the query `request_id`.
pub fn query_complete_instruction(instruction_id: String, message_id: String, request_id: String) -> (instruction: QueryProviderOutbound)
    ensures
        instruction.instruction_id == instruction_id,
        instruction.request matches QueryInstruction::QueryComplete(complete) && complete.message_id == message_id
            && complete.request_id == request_id,
{
    QueryProviderOutbound {
        instruction_id,
        request: QueryInstruction::QueryComplete(QueryComplete { message_id, request_id }),
    }
}

/// Whether `instructions` open a query provider stream for `client_id`: one
/// subscription for each of `queries`, in order, and then the initial grant
/// of `permits` permits.
pub open spec fn opens_query_stream(
    instructions: Seq<QueryProviderOutbound>,
    client_id: Seq<char>,
    queries: Seq<String>,
    permits: int,
) -> bool {
    &&& instructions.len() == queries.len() + 1
    &&& forall|i: int|
        #![trigger instructions[i]]
        0 <= i < queries.len() ==> is_query_subscribe(instructions[i], client_id, queries[i]@)
    &&& is_query_flow_control(instructions[queries.len() as int], client_id, permits)
}

/// Whether `instructions` answer one query on a stream of `client_id` whose
/// balance was `permits`: the response, right after it the completion for
/// the same query, and then a grant of one batch where the balance has come
/// down to the batch size.
pub open spec fn answers_query(
    instructions: Seq<QueryProviderOutbound>,
    client_id: Seq<char>,
    permits: int,
    batch: int,
    result: AxonQueryResult,
) -> bool {
    &&& instructions.len() == if grants_after_response(permits, batch) {
        3int
    } else {
        2int
    }
    &&& is_query_reply(instructions[0], result)
    &&& is_query_complete(instructions[1], result.message_identifier@)
    &&& grants_after_response(permits, batch) ==> is_query_flow_control(instructions[2], client_id, batch)
}

/// The outbound side of a query provider stream: the identity of the client
/// and the balance of permits.
#[derive(Debug)]
pub struct QueryOutboundStream {
    client_id: String,
    account: PermitAccount,
}

impl QueryOutboundStream {
    /// The identity of the client.
    pub closed spec fn client(&self) -> Seq<char> {
        self.client_id@
    }

    /// The permits that the server still holds.
    pub closed spec fn permits(&self) -> int {
        self.account.permits()
    }

    /// The number of permits granted at a time.
    pub closed spec fn batch(&self) -> int {
        self.account.batch()
    }

    /// The permits that the server still holds; always positive, and at
    /// most twice the batch size.
    pub fn balance(&self) -> (permits: i64)
        ensures
            permits == self.permits(),
            0 < permits <= 2 * self.batch(),
    {
        self.account.balance()
    }

    /// Emits the answer to the query that `result` is about, then the
    /// completion for that query, and replenishes the permits where the
    /// balance has come down to the batch size.
    pub fn respond(&mut self, result: AxonQueryResult) -> (instructions: Vec<QueryProviderOutbound>)
        ensures
            final(self).client() == old(self).client(),
            final(self).batch() == old(self).batch(),
            final(self).permits() == balance_after_response(old(self).permits(), old(self).batch()),
            0 < final(self).permits() <= 2 * final(self).batch(),
            answers_query(instructions@, old(self).client(), old(self).permits(), old(self).batch(), result),
    {
        let mut instructions: Vec<QueryProviderOutbound> = Vec::new();
        let request_id = result.message_identifier.clone();
        let response = query_response(fresh_identifier(), result);
        instructions.push(query_response_instruction(fresh_identifier(), response));
        instructions.push(query_complete_instruction(fresh_identifier(), fresh_identifier(), request_id));
        match self.account.consume() {
            Some(permits) => {
                instructions.push(query_flow_control_instruction(fresh_identifier(), self.client_id.as_str(), permits));
            },
            None => {},
        }
        instructions
    }
}

/// Opens the outbound side of a query provider stream for `client_id`:
/// subscribes to each of `query_box`, in order, and grants the initial
/// permits, twice the batch size.
pub fn create_output_stream(client_id: String, query_box: &Vec<String>) -> (opened: (
    QueryOutboundStream,
    Vec<QueryProviderOutbound>,
))
    ensures
        opened.0.client() == client_id@,
        opened.0.batch() == PERMITS_BATCH_SIZE,
        opened.0.permits() == 2 * PERMITS_BATCH_SIZE,
        opens_query_stream(opened.1@, client_id@, query_box@, 2 * PERMITS_BATCH_SIZE),
{
    let mut instructions: Vec<QueryProviderOutbound> = Vec::new();
    let mut i: usize = 0;
    while i < query_box.len()
        invariant
            i <= query_box@.len(),
            instructions@.len() == i,
            forall|j: int|
                #![trigger instructions@[j]]
                0 <= j < i ==> is_query_subscribe(instructions@[j], client_id@, query_box@[j]@),
        decreases query_box@.len() - i,
    {
        let subscription_id = fresh_identifier();
        let instruction_id = fresh_identifier();
        instructions.push(
            query_subscribe_instruction(instruction_id, subscription_id, client_id.as_str(), query_box[i].as_str()),
        );
        i += 1;
    }
    let account = PermitAccount::new();
    instructions.push(query_flow_control_instruction(fresh_identifier(), client_id.as_str(), account.balance()));
    (QueryOutboundStream { client_id, account }, instructions)
}

} // verus!
