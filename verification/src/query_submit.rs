//! Submitting a query to the mesh and collecting its answers.

use crate::command_submit::{encode_for_submission, is_submitted};
use crate::command_worker::{always_encodes, is_encode_failure, VecU8Message};
use crate::errors::DispatchError;
use crate::ids::{fresh_identifier, is_identifier};
use crate::messages::{payload_view, QueryRequest, QueryResponse, SerializedObject, SerializedObjectView};
use vstd::prelude::*;
use vstd::string::StringExecFns;

verus! {

/// Whether `request` submits the query named `query` with `payload` in the
/// name of `client_id`, under the identifier `message_identifier`.
pub open spec fn submits_query(
    request: QueryRequest,
    message_identifier: Seq<char>,
    client_id: Seq<char>,
    query: Seq<char>,
    payload: Option<SerializedObjectView>,
) -> bool {
    &&& request.message_identifier@ == message_identifier
    &&& request.query@ == query
    &&& payload_view(request.payload) == payload
    &&& request.response_type.is_none()
    &&& request.client_id@ == client_id
    &&& request.component_name@ == "RustCommandClient"@
    &&& request.timestamp == 0
}

/// The request that submits the query named `query` with `payload`, if any,
/// in the name of `client_id`, under the identifier `message_identifier`.
pub fn submit_query(message_identifier: String, client_id: &str, query: &str, payload: Option<SerializedObject>) -> (request: QueryRequest)
    ensures
        submits_query(request, message_identifier@, client_id@, query@, payload_view(payload)),
{
    QueryRequest {
        message_identifier,
        query: String::from_str(query),
        timestamp: 0,
        payload,
        response_type: None,
        client_id: String::from_str(client_id),
        component_name: String::from_str("RustCommandClient"),
    }
}

/// Makes the request that submits `query`, a message of type `query_type`,
/// in the name of `client_id`, under a fresh identifier. Fails where the
/// message does not encode.
pub fn send_query<M: VecU8Message>(client_id: &str, query_type: &str, query: &M) -> (result: Result<QueryRequest, DispatchError>)
    ensures
        match result {
            Ok(submitted) => {
                &&& is_identifier(submitted.message_identifier@)
                &&& submitted.payload matches Some(payload)
                &&& query.encodes(payload.data@)
                &&& is_submitted(payload@, query_type@, payload.data@)
                &&& submits_query(submitted, submitted.message_identifier@, client_id@, query_type@, Some(payload@))
            },
            Err(error) => is_encode_failure(query, error),
        },
        always_encodes(query) ==> result.is_ok(),
{
    match encode_for_submission(query_type, query) {
        Ok(message) => Ok(submit_query(fresh_identifier(), client_id, query_type, Some(message))),
        Err(error) => Err(error),
    }
}

/// The payloads that `responses` carry, in order; a response without
/// payload adds none.
pub open spec fn payloads_of(responses: Seq<QueryResponse>) -> Seq<SerializedObjectView>
    decreases responses.len(),
{
    if responses.len() == 0 {
        Seq::<SerializedObjectView>::empty()
    } else {
        let earlier = payloads_of(responses.drop_last());
        match responses.last().payload {
            Some(payload) => earlier.push(payload@),
            None => earlier,
        }
    }
}

/// What each of `objects` holds.
pub open spec fn views_of(objects: Seq<SerializedObject>) -> Seq<SerializedObjectView> {
    Seq::new(objects.len(), |i: int| objects[i]@)
}

/// Collects the payloads of the answers to a query, in the order in which
/// the answers came, up to the end of the stream.
pub fn collect_payloads(responses: &Vec<QueryResponse>) -> (payloads: Vec<SerializedObject>)
    ensures
        views_of(payloads@) == payloads_of(responses@),
{
    let mut payloads: Vec<SerializedObject> = Vec::new();
    let mut i: usize = 0;
    assert(responses@.take(0) =~= Seq::<QueryResponse>::empty());
    while i < responses.len()
        invariant
            i <= responses@.len(),
            views_of(payloads@) == payloads_of(responses@.take(i as int)),
        decreases responses@.len() - i,
    {
        let ghost before = payloads@;
        match &responses[i].payload {
            Some(payload) => {
                payloads.push(payload.clone());
            },
            None => {},
        }
        proof {
            let longer = responses@.take(i + 1);
            assert(longer.drop_last() =~= responses@.take(i as int));
            assert(longer.last() == responses@[i as int]);
            match responses@[i as int].payload {
                Some(payload) => {
                    assert(views_of(payloads@) =~= views_of(before).push(payload@));
                },
                None => {},
            }
        }
        i += 1;
    }
    assert(responses@.take(responses@.len() as int) =~= responses@);
    payloads
}

} // verus!
