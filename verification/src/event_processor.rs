//! The event processor: a tracking token, the events after it, and the
//! requests that open and replenish the stream.

use crate::errors::DispatchError;
use crate::flow_control::{balance_after_response, grants_after_response, PermitAccount, PERMITS_BATCH_SIZE};
use crate::messages::{EventWithToken, GetEventsRequest};
use crate::registry::TheHandlerRegistry;
use vstd::prelude::*;
use vstd::string::StringExecFns;

verus! {

/// The token of a processor that has processed no event.
pub const NO_TOKEN: i64 = -1;

/// The durable position of an event processor: the token of the last event
/// that a handler handled with success.
pub trait TokenStore {
    /// Whether storing `token` can leave the store at `after`. Unless a store
    /// says more, it can.
    open spec fn stores(&self, after: &Self, token: i64) -> bool {
        true
    }

    /// Whether `retrieved` is a possible result of reading the store. Unless
    /// a store says more, it is.
    open spec fn retrieves(&self, retrieved: Result<i64, String>) -> bool {
        true
    }

    /// Makes `token` the token that the store holds.
    fn store_token(&mut self, token: i64)
        ensures
            old(self).stores(final(self), token),
    ;

    /// The token that the store holds; an error where it holds none or
    /// cannot be read.
    fn retrieve_token(&self) -> (retrieved: Result<i64, String>)
        ensures
            self.retrieves(retrieved),
    ;
}

/// A token store in memory.
#[derive(Debug)]
pub struct MemoryTokenStore {
    pub token: Option<i64>,
}

impl TokenStore for MemoryTokenStore {
    open spec fn stores(&self, after: &Self, token: i64) -> bool {
        after.token == token_after(self.token, token, true)
    }

    open spec fn retrieves(&self, retrieved: Result<i64, String>) -> bool {
        match self.token {
            Some(token) => retrieved == Ok::<i64, String>(token),
            None => retrieved.is_err(),
        }
    }

    fn store_token(&mut self, token: i64) {
        self.token = Some(token);
    }

    fn retrieve_token(&self) -> (retrieved: Result<i64, String>) {
        match self.token {
            Some(token) => Ok(token),
            None => Err(String::from_str("no token stored")),
        }
    }
}

/// The position that a stored token stands for: the token itself, or the
/// position before the first event where none is stored.
pub open spec fn position(stored: Option<i64>) -> int {
    match stored {
        Some(token) => token as int,
        None => NO_TOKEN as int,
    }
}

/// The token that the store holds after the event at `token` was handled:
/// `token` where the handling succeeded, and what it held before otherwise.
pub open spec fn token_after(stored: Option<i64>, token: i64, succeeded: bool) -> Option<i64> {
    if succeeded {
        Some(token)
    } else {
        stored
    }
}

/// The token never moves back, and it advances exactly when the event was
/// handled with success, as long as events arrive at tokens after the stored
/// one.
pub proof fn lemma_token_advances_on_success(stored: Option<i64>, token: i64, succeeded: bool)
    requires
        position(stored) < token,
    ensures
        position(stored) <= position(token_after(stored, token, succeeded)),
        position(stored) < position(token_after(stored, token, succeeded)) <==> succeeded,
        !succeeded ==> token_after(stored, token, succeeded) == stored,
{
}

/// The token to ask the server for first: the one after the retrieved token,
/// or the first token of all where none could be retrieved.
pub open spec fn first_token(retrieved: Result<i64, String>) -> int {
    match retrieved {
        Ok(token) => token + 1,
        Err(_) => NO_TOKEN + 1,
    }
}

/// The token to ask the server for first, given what the token store
/// returned.
pub fn initial_token(retrieved: Result<i64, String>) -> (token: i64)
    requires
        retrieved matches Ok(stored) ==> stored < i64::MAX,
    ensures
        token == first_token(retrieved),
{
    match retrieved {
        Ok(stored) => stored + 1,
        Err(_) => NO_TOKEN + 1,
    }
}

/// The token to ask the server for first, given what the token store
/// returned; `None` where the retrieved token is the last one that there is.
pub open spec fn next_token(retrieved: Result<i64, String>) -> Option<i64> {
    match retrieved {
        Ok(token) if token == i64::MAX => None,
        _ => Some(first_token(retrieved) as i64),
    }
}

/// The token to ask the server for first, read from `query_model`; `None`
/// where the stored token is the last one that there is.
pub fn next_token_of<Q: TokenStore>(query_model: &Q) -> (token: Option<i64>)
    ensures
        exists|retrieved: Result<i64, String>| #[trigger] query_model.retrieves(retrieved) && token == next_token(retrieved),
{
    let retrieved = query_model.retrieve_token();
    assert(query_model.retrieves(retrieved));
    match retrieved {
        Ok(stored) => {
            if stored == i64::MAX {
                None
            } else {
                Some(initial_token(Ok(stored)))
            }
        },
        Err(text) => Some(initial_token(Err(text))),
    }
}

/// Whether `request` asks, in the name of `client_id`, for the events from
/// `tracking_token` on, with `permits` permits.
pub open spec fn is_events_request(request: GetEventsRequest, client_id: Seq<char>, tracking_token: int, permits: int) -> bool {
    &&& request.tracking_token == tracking_token
    &&& request.number_of_permits == permits
    &&& request.client_id@ == client_id
    &&& request.component_name@ == "Dendrite"@
    &&& request.processor@ == "Event Processor"@
    &&& request.blacklist@.len() == 0
    &&& !request.force_read_from_leader
}

/// The request that asks, in the name of `client_id`, for the events from
/// `tracking_token` on, with `permits` permits.
pub fn events_request(client_id: &str, tracking_token: i64, permits: i64) -> (request: GetEventsRequest)
    ensures
        is_events_request(request, client_id@, tracking_token as int, permits as int),
{
    GetEventsRequest {
        tracking_token,
        number_of_permits: permits,
        client_id: String::from_str(client_id),
        component_name: String::from_str("Dendrite"),
        processor: String::from_str("Event Processor"),
        blacklist: Vec::new(),
        force_read_from_leader: false,
    }
}

/// The outbound side of a tracking event stream: the identity of the
/// client, the token that the stream was opened at, and the balance of
/// permits.
#[derive(Debug)]
pub struct EventOutboundStream {
    client_id: String,
    initial_token: i64,
    account: PermitAccount,
}

impl EventOutboundStream {
    /// The identity of the client.
    pub closed spec fn client(&self) -> Seq<char> {
        self.client_id@
    }

    /// The token that the stream was opened at.
    pub closed spec fn opened_at(&self) -> int {
        self.initial_token as int
    }

    /// The permits that the server still holds.
    pub closed spec fn permits(&self) -> int {
        self.account.permits()
    }

    /// The number of permits granted at a time.
    pub closed spec fn batch(&self) -> int {
        self.account.batch()
    }

    /// The permits that the server still holds; always positive, and at
    /// most twice the batch size.
    pub fn balance(&self) -> (permits: i64)
        ensures
            permits == self.permits(),
            0 < permits <= 2 * self.batch(),
    {
        self.account.balance()
    }

    /// Accounts for one processed event. Returns the request that grants
    /// one more batch of permits, where the balance has come down to the
    /// batch size.
    pub fn processed(&mut self) -> (request: Option<GetEventsRequest>)
        ensures
            final(self).client() == old(self).client(),
            final(self).opened_at() == old(self).opened_at(),
            final(self).batch() == old(self).batch(),
            final(self).permits() == balance_after_response(old(self).permits(), old(self).batch()),
            0 < final(self).permits() <= 2 * final(self).batch(),
            request.is_some() == grants_after_response(old(self).permits(), old(self).batch()),
            request matches Some(grant) ==> is_events_request(
                grant,
                old(self).client(),
                old(self).opened_at(),
                old(self).batch(),
            ),
    {
        match self.account.consume() {
            Some(permits) => Some(events_request(self.client_id.as_str(), self.initial_token, permits)),
            None => None,
        }
    }
}

/// Opens the outbound side of a tracking event stream for `client_id` at
/// `initial_token`: the first request asks for the events from that token
/// on, with the initial permits, twice the batch size.
pub fn create_output_stream(client_id: String, initial_token: i64) -> (opened: (EventOutboundStream, GetEventsRequest))
    ensures
        opened.0.client() == client_id@,
        opened.0.opened_at() == initial_token,
        opened.0.batch() == PERMITS_BATCH_SIZE,
        opened.0.permits() == 2 * PERMITS_BATCH_SIZE,
        is_events_request(opened.1, client_id@, initial_token as int, 2 * PERMITS_BATCH_SIZE),
{
    let account = PermitAccount::new();
    let request = events_request(client_id.as_str(), initial_token, account.balance());
    (EventOutboundStream { client_id, initial_token, account }, request)
}

/// What the processor does with one inbound message.
#[derive(Clone, Copy, Debug, PartialEq, Eq, Structural)]
pub enum Processed {
    /// The message held no event: nothing was done, and no permit was used.
    Nothing,
    /// The event has no payload, or no handler is registered for its type:
    /// it was passed over, and the token stays where it was. The event has
    /// used one permit.
    Skipped,
    /// The handler of the event succeeded, and the token of the event is
    /// stored. The event has used one permit.
    Stored,
}

/// Whether processing `message` with the model at `before` can end in
/// `result`, with the model at `after`. A message without event changes
/// nothing. An event without payload, and one whose type has no handler, is
/// passed over, and the model stays as it was. Any other event goes to the
/// handler of its type: where the handler succeeds, the token of the event
/// is stored; where it fails, the failure is the result and the model stays
/// as it was, so that the token is not advanced.
pub open spec fn processes<Q: TokenStore>(
    registry: TheHandlerRegistry<Q, Option<Q>>,
    message: EventWithToken,
    before: Q,
    after: Q,
    result: Result<Processed, DispatchError>,
) -> bool {
    match message.event {
        None => result == Ok::<Processed, DispatchError>(Processed::Nothing) && after == before,
        Some(event) => match event.payload {
            Some(payload) if registry.contains(payload.object_type@) => exists|
                outcome: Result<Option<Option<Q>>, DispatchError>,
            | #[trigger]
                registry.dispatches(payload.object_type@, payload.data@, &before, outcome) && match outcome {
                    Ok(_) => result == Ok::<Processed, DispatchError>(Processed::Stored) && before.stores(
                        &after,
                        message.token,
                    ),
                    Err(error) => result == Err::<Processed, DispatchError>(error) && after == before,
                },
            _ => result == Ok::<Processed, DispatchError>(Processed::Skipped) && after == before,
        },
    }
}

/// Whether `result` says that the handler of an event succeeded.
pub open spec fn handler_succeeded(result: Result<Processed, DispatchError>) -> bool {
    result == Ok::<Processed, DispatchError>(Processed::Stored)
}

/// Whether `result` says that an event was taken up, so that one permit is
/// used: it was handled with success, or passed over.
pub open spec fn event_taken_up(result: Result<Processed, DispatchError>) -> bool {
    result == Ok::<Processed, DispatchError>(Processed::Stored) || result == Ok::<Processed, DispatchError>(
        Processed::Skipped,
    )
}

/// With the token store in memory, the stored token after a message is the
/// event's token where the handler of the event succeeded, and in every
/// other case the token that was stored before: after a failure, after an
/// event that was passed over, and after a message without event. So the
/// token advances exactly when a handler succeeded, as long as events arrive
/// at tokens after the stored one.
pub proof fn lemma_stored_token_follows_success(
    registry: TheHandlerRegistry<MemoryTokenStore, Option<MemoryTokenStore>>,
    message: EventWithToken,
    before: MemoryTokenStore,
    after: MemoryTokenStore,
    result: Result<Processed, DispatchError>,
)
    requires
        processes(registry, message, before, after, result),
    ensures
        after.token == token_after(before.token, message.token, handler_succeeded(result)),
        handler_succeeded(result) ==> message.event.is_some(),
        position(before.token) < message.token ==> position(before.token) <= position(after.token),
        position(before.token) < message.token ==> (position(before.token) < position(after.token)
            <==> handler_succeeded(result)),
{
    if position(before.token) < message.token {
        lemma_token_advances_on_success(before.token, message.token, handler_succeeded(result));
    }
}

/// Tells whether `result` says that an event was taken up, so that one
/// permit is used.
pub fn has_taken_event(result: &Result<Processed, DispatchError>) -> (taken: bool)
    ensures
        taken == event_taken_up(*result),
{
    match result {
        Ok(Processed::Stored) => true,
        Ok(Processed::Skipped) => true,
        _ => false,
    }
}

/// Processes one inbound message: an event whose type has a handler goes to
/// it, and its token is stored where the handler succeeds; any other event
/// is passed over. After a failure the processor must halt.
pub fn process_event<Q: TokenStore>(
    query_model: &mut Q,
    event_handler_registry: &TheHandlerRegistry<Q, Option<Q>>,
    event_with_token: &EventWithToken,
) -> (result: Result<Processed, DispatchError>)
    ensures
        processes(*event_handler_registry, *event_with_token, *old(query_model), *final(query_model), result),
{
    let event = match &event_with_token.event {
        None => {
            return Ok(Processed::Nothing);
        },
        Some(event) => event,
    };
    let payload = match &event.payload {
        None => {
            return Ok(Processed::Skipped);
        },
        Some(payload) => payload,
    };
    let handler = match event_handler_registry.get(payload.object_type.as_str()) {
        None => {
            return Ok(Processed::Skipped);
        },
        Some(handler) => handler,
    };
    let data = payload.data.clone();
    assert(data@ =~= payload.data@);
    let outcome = handler.handle(data, &*query_model);
    assert(event_handler_registry.dispatches(payload.object_type@, payload.data@, &*old(query_model), outcome));
    match outcome {
        Ok(_) => {
            query_model.store_token(event_with_token.token);
            Ok(Processed::Stored)
        },
        Err(error) => Err(error),
    }
}

} // verus!
