//! The command provider: the aggregate pipeline and the outbound stream.

use crate::errors::{error_code, error_message, is_error_message, DispatchError, ErrorKind};
use crate::flow_control::{
    balance_after_response, grants_after_response, PermitAccount, COMMAND_LOAD_FACTOR, PERMITS_BATCH_SIZE,
};
use crate::ids::{fresh_identifier, is_identifier};
use crate::messages::{
    payload_view, Command, CommandInstruction, CommandProviderOutbound, CommandResponse,
    CommandSubscription, Event, FlowControl, SerializedObject, SerializedObjectView,
};
use crate::registry::TheHandlerRegistry;
use std::collections::HashMap;
use vstd::prelude::*;
use vstd::string::StringExecFns;

verus! {

/// A message that can append its encoding to a byte buffer.
pub trait VecU8Message {
    /// Whether `bytes` is a possible encoding of the message. Unless a
    /// message says more, any bytes are.
    open spec fn encodes(&self, bytes: Seq<u8>) -> bool {
        true
    }

    /// Whether encoding the message can fail with the message `text`.
    /// Unless a message says more, it can.
    open spec fn refuses(&self, text: Seq<char>) -> bool {
        true
    }

    /// Appends the encoding of the message to `buf`, or fails with a
    /// message.
    fn encode_u8(&self, buf: &mut Vec<u8>) -> (result: Result<(), String>)
        ensures
            result.is_ok() ==> old(buf)@.len() <= final(buf)@.len(),
            result.is_ok() ==> final(buf)@.subrange(0, old(buf)@.len() as int) == old(buf)@,
            result.is_ok() ==> self.encodes(final(buf)@.subrange(old(buf)@.len() as int, final(buf)@.len() as int)),
            result matches Err(text) ==> self.refuses(text@),
    ;
}

/// Whether encoding `message` cannot fail.
pub open spec fn always_encodes<M: VecU8Message + ?Sized>(message: &M) -> bool {
    forall|text: Seq<char>| !#[trigger] message.refuses(text)
}

/// Whether `error` reports that `message` failed to encode, with the
/// message that it failed with.
pub open spec fn is_encode_failure<M: VecU8Message + ?Sized>(message: &M, error: DispatchError) -> bool {
    error.kind == ErrorKind::Encode && message.refuses(error.detail@)
}

/// An event that can be applied to a projection of type `P`, and that can
/// append its encoding to a byte buffer.
pub trait ApplicableTo<P>: Send + Sync {
    /// Whether `bytes` is a possible encoding of the event. Unless an event
    /// says more, any bytes are.
    open spec fn encodes(&self, bytes: Seq<u8>) -> bool {
        true
    }

    /// Whether encoding the event can fail with the message `text`. Unless
    /// an event says more, it can.
    open spec fn refuses(&self, text: Seq<char>) -> bool {
        true
    }

    /// Whether applying the event to `before` can end in `result`, with the
    /// projection at `after`. Unless an event says more, it can.
    open spec fn applies(&self, before: P, after: P, result: Result<(), String>) -> bool {
        true
    }

    /// Appends the encoding of the event to `buf`, or fails with a message.
    fn encode_u8(&self, buf: &mut Vec<u8>) -> (result: Result<(), String>)
        ensures
            result.is_ok() ==> old(buf)@.len() <= final(buf)@.len(),
            result.is_ok() ==> final(buf)@.subrange(0, old(buf)@.len() as int) == old(buf)@,
            result.is_ok() ==> self.encodes(final(buf)@.subrange(old(buf)@.len() as int, final(buf)@.len() as int)),
            result matches Err(text) ==> self.refuses(text@),
    ;

    /// Applies the event to `projection`.
    fn apply_to(&self, projection: &mut P) -> (result: Result<(), String>)
        ensures
            self.applies(*old(projection), *final(projection), result),
    ;
}

/// An applicable event of any type, held by value, so that it can be stored
/// behind one interface.
struct Emitted<E> {
    inner: E,
}

impl<P, E: ApplicableTo<P>> ApplicableTo<P> for Emitted<E> {
    closed spec fn encodes(&self, bytes: Seq<u8>) -> bool {
        self.inner.encodes(bytes)
    }

    closed spec fn refuses(&self, text: Seq<char>) -> bool {
        self.inner.refuses(text)
    }

    closed spec fn applies(&self, before: P, after: P, result: Result<(), String>) -> bool {
        self.inner.applies(before, after, result)
    }

    fn encode_u8(&self, buf: &mut Vec<u8>) -> (result: Result<(), String>) {
        self.inner.encode_u8(buf)
    }

    fn apply_to(&self, projection: &mut P) -> (result: Result<(), String>) {
        self.inner.apply_to(projection)
    }
}

/// An emitted event: the name of its type and the event itself.
#[verifier::reject_recursive_types(P)]
pub struct ApplicableEvent<P> {
    pub event_type: String,
    pub event: Box<dyn ApplicableTo<P>>,
}

/// Whether `second` is the event that `first` is: both have the same
/// encodings, fail to encode with the same messages, and have the same
/// effects on a projection.
pub open spec fn same_event<P, A: ApplicableTo<P> + ?Sized, B: ApplicableTo<P> + ?Sized>(first: &A, second: &B) -> bool {
    &&& forall|bytes: Seq<u8>|
        #![trigger first.encodes(bytes)]
        #![trigger second.encodes(bytes)]
        first.encodes(bytes) == second.encodes(bytes)
    &&& forall|text: Seq<char>|
        #![trigger first.refuses(text)]
        #![trigger second.refuses(text)]
        first.refuses(text) == second.refuses(text)
    &&& forall|before: P, after: P, result: Result<(), String>|
        #![trigger first.applies(before, after, result)]
        #![trigger second.applies(before, after, result)]
        first.applies(before, after, result) == second.applies(before, after, result)
}

/// Puts `event` under the name `event_type`.
fn applicable<P, E: ApplicableTo<P> + 'static>(event_type: String, event: E) -> (emitted: ApplicableEvent<P>)
    ensures
        emitted.event_type == event_type,
        same_event::<P, _, _>(&*emitted.event, &event),
{
    let held = Emitted { inner: event };
    let emitted = ApplicableEvent::<P> { event_type, event: Box::new(held) };
    assert(same_event::<P, _, _>(&*emitted.event, &held));
    emitted
}

/// Encodes one emitted event: returns the bytes that the event wrote into
/// an empty buffer, or the message that the event failed with.
fn encode_one<P>(emitted: &ApplicableEvent<P>) -> (result: Result<Vec<u8>, String>)
    ensures
        match result {
            Ok(bytes) => emitted.event.encodes(bytes@),
            Err(text) => emitted.event.refuses(text@),
        },
{
    let mut buf: Vec<u8> = Vec::new();
    match emitted.event.encode_u8(&mut buf) {
        Ok(_) => {
            assert(buf@.subrange(0, buf@.len() as int) =~= buf@);
            Ok(buf)
        },
        Err(text) => Err(text),
    }
}

/// Whether `object` carries `data` under the name `object_type`, with the
/// revision left empty.
pub open spec fn is_serialized(object: SerializedObject, object_type: Seq<char>, data: Seq<u8>) -> bool {
    &&& object.object_type@ == object_type
    &&& object.revision@.len() == 0
    &&& object.data@ == data
}

/// Puts `data` into an envelope under the name `object_type`.
pub fn serialized_object(object_type: &str, data: Vec<u8>) -> (object: SerializedObject)
    ensures
        is_serialized(object, object_type@, data@),
{
    SerializedObject { object_type: String::from_str(object_type), revision: String::new(), data }
}

/// Encodes `message` and puts the bytes into an envelope under the name
/// `object_type`. Fails where the message does not encode, with the message
/// that it failed with.
pub fn axon_serialize<M: VecU8Message>(object_type: &str, message: &M) -> (result: Result<SerializedObject, DispatchError>)
    ensures
        match result {
            Ok(object) => message.encodes(object.data@) && is_serialized(object, object_type@, object.data@),
            Err(error) => is_encode_failure(message, error),
        },
        always_encodes(message) ==> result.is_ok(),
{
    let mut buf: Vec<u8> = Vec::new();
    match message.encode_u8(&mut buf) {
        Ok(_) => {
            assert(buf@.subrange(0, buf@.len() as int) =~= buf@);
            Ok(serialized_object(object_type, buf))
        },
        Err(text) => Err(DispatchError { kind: ErrorKind::Encode, detail: text }),
    }
}

/// What a command handler asks for: events for one aggregate, already
/// encoded, and an optional response.
#[derive(Debug)]
pub struct EmitEventsAndResponse {
    pub target_aggregate_identifier: String,
    pub events: Vec<SerializedObject>,
    pub response: Option<SerializedObject>,
}

/// What a command handler of an aggregate asks for: events for one aggregate,
/// each with the name of its type, and an optional response.
#[verifier::reject_recursive_types(P)]
pub struct EmitApplicableEventsAndResponse<P> {
    pub target_aggregate_identifier: String,
    pub events: Vec<ApplicableEvent<P>>,
    pub response: Option<SerializedObject>,
}

/// A request that emits nothing yet and responds with nothing.
pub fn emit_events(target_aggregate_identifier: &str) -> (holder: EmitEventsAndResponse)
    ensures
        holder.target_aggregate_identifier@ == target_aggregate_identifier@,
        holder.events@.len() == 0,
        holder.response.is_none(),
{
    EmitEventsAndResponse {
        target_aggregate_identifier: String::from_str(target_aggregate_identifier),
        events: Vec::new(),
        response: None,
    }
}

/// A request that emits nothing yet and responds with `response`, encoded
/// under the name `response_type`. Fails where the response does not encode.
pub fn emit_events_and_response<M: VecU8Message>(
    target_aggregate_identifier: &str,
    response_type: &str,
    response: &M,
) -> (result: Result<EmitEventsAndResponse, DispatchError>)
    ensures
        match result {
            Ok(holder) => {
                &&& holder.target_aggregate_identifier@ == target_aggregate_identifier@
                &&& holder.events@.len() == 0
                &&& holder.response matches Some(object) && response.encodes(object.data@) && is_serialized(
                    object,
                    response_type@,
                    object.data@,
                )
            },
            Err(error) => is_encode_failure(response, error),
        },
        always_encodes(response) ==> result.is_ok(),
{
    match axon_serialize(response_type, response) {
        Ok(payload) => Ok(
            EmitEventsAndResponse {
                target_aggregate_identifier: String::from_str(target_aggregate_identifier),
                events: Vec::new(),
                response: Some(payload),
            },
        ),
        Err(error) => Err(error),
    }
}

/// A request of an aggregate that emits nothing yet and responds with
/// `response`, encoded under the name `response_type`. Fails where the
/// response does not encode.
pub fn emit_applicable_events_and_response<M: VecU8Message, P>(
    target_aggregate_identifier: &str,
    response_type: &str,
    response: &M,
) -> (result: Result<EmitApplicableEventsAndResponse<P>, DispatchError>)
    ensures
        match result {
            Ok(holder) => {
                &&& holder.target_aggregate_identifier@ == target_aggregate_identifier@
                &&& holder.events@.len() == 0
                &&& holder.response matches Some(object) && response.encodes(object.data@) && is_serialized(
                    object,
                    response_type@,
                    object.data@,
                )
            },
            Err(error) => is_encode_failure(response, error),
        },
        always_encodes(response) ==> result.is_ok(),
{
    match axon_serialize(response_type, response) {
        Ok(payload) => Ok(
            EmitApplicableEventsAndResponse {
                target_aggregate_identifier: String::from_str(target_aggregate_identifier),
                events: Vec::new(),
                response: Some(payload),
            },
        ),
        Err(error) => Err(error),
    }
}

/// Adds `event`, encoded under the name `event_type`, to the events that
/// `holder` emits. Where the event does not encode, `holder` stays as it is.
pub fn emit<M: VecU8Message>(holder: &mut EmitEventsAndResponse, event_type: &str, event: &M) -> (result: Result<(), DispatchError>)
    ensures
        final(holder).target_aggregate_identifier == old(holder).target_aggregate_identifier,
        final(holder).response == old(holder).response,
        match result {
            Ok(_) => {
                &&& final(holder).events@.len() == old(holder).events@.len() + 1
                &&& final(holder).events@.subrange(0, old(holder).events@.len() as int) == old(holder).events@
                &&& event.encodes(final(holder).events@.last().data@)
                &&& is_serialized(final(holder).events@.last(), event_type@, final(holder).events@.last().data@)
            },
            Err(error) => is_encode_failure(event, error) && final(holder).events@ == old(holder).events@,
        },
        always_encodes(event) ==> result.is_ok(),
{
    match axon_serialize(event_type, event) {
        Ok(payload) => {
            let ghost before = holder.events@;
            holder.events.push(payload);
            assert(holder.events@.subrange(0, before.len() as int) =~= before);
            Ok(())
        },
        Err(error) => Err(error),
    }
}

/// Adds `event`, under the name `event_type`, to the events that `holder`
/// emits.
pub fn emit_applicable<P, E: ApplicableTo<P> + 'static>(
    holder: &mut EmitApplicableEventsAndResponse<P>,
    event_type: &str,
    event: E,
) -> (result: Result<(), DispatchError>)
    ensures
        result.is_ok(),
        final(holder).target_aggregate_identifier == old(holder).target_aggregate_identifier,
        final(holder).response == old(holder).response,
        final(holder).events@.len() == old(holder).events@.len() + 1,
        final(holder).events@.subrange(0, old(holder).events@.len() as int) == old(holder).events@,
        final(holder).events@.last().event_type@ == event_type@,
        same_event::<P, _, _>(&*final(holder).events@.last().event, &event),
{
    let emitted = applicable(String::from_str(event_type), event);
    let ghost before = holder.events@;
    holder.events.push(emitted);
    assert(holder.events@.subrange(0, before.len() as int) =~= before);
    Ok(())
}

/// An aggregate: the name of its projection, the projection that an
/// aggregate without events has, the handlers of its commands and the
/// handlers that apply its events.
#[verifier::reject_recursive_types(P)]
#[verifier::reject_recursive_types(E)]
pub struct AggregateDefinition<P, E: Fn() -> P> {
    projection_name: String,
    empty_projection: E,
    command_handler_registry: TheHandlerRegistry<P, EmitApplicableEventsAndResponse<P>>,
    sourcing_handler_registry: TheHandlerRegistry<P, P>,
}

impl<P, E: Fn() -> P> AggregateDefinition<P, E> {
    #[verifier::type_invariant]
    spec fn can_start(&self) -> bool {
        call_requires(self.empty_projection, ())
    }

    /// The name of the projection, which is the type of the aggregate.
    pub closed spec fn name(&self) -> Seq<char> {
        self.projection_name@
    }

    /// The function that makes the projection of an aggregate without events.
    pub closed spec fn factory(&self) -> E {
        self.empty_projection
    }

    /// The handlers of the aggregate's commands.
    pub closed spec fn commands(&self) -> TheHandlerRegistry<P, EmitApplicableEventsAndResponse<P>> {
        self.command_handler_registry
    }

    /// The handlers that apply the aggregate's events.
    pub closed spec fn sourcing(&self) -> TheHandlerRegistry<P, P> {
        self.sourcing_handler_registry
    }

    /// The name of the projection, which is the type of the aggregate.
    pub fn projection_name(&self) -> (name: &str)
        ensures
            name@ == self.name(),
    {
        self.projection_name.as_str()
    }

    /// The names of the commands that the aggregate handles, in the order of
    /// registration.
    pub fn command_names(&self) -> (names: Vec<String>)
        ensures
            names@.len() == self.commands().names().len(),
            forall|i: int| 0 <= i < names@.len() ==> (#[trigger] names@[i])@ == self.commands().names()[i],
    {
        self.command_handler_registry.names_in_order()
    }
}

/// An aggregate named `projection_name` that starts from `empty_projection`.
pub fn create_aggregate_definition<P, E: Fn() -> P>(
    projection_name: String,
    empty_projection: E,
    command_handler_registry: TheHandlerRegistry<P, EmitApplicableEventsAndResponse<P>>,
    sourcing_handler_registry: TheHandlerRegistry<P, P>,
) -> (definition: AggregateDefinition<P, E>)
    requires
        call_requires(empty_projection, ()),
    ensures
        definition.name() == projection_name@,
        definition.factory() == empty_projection,
        definition.commands() == command_handler_registry,
        definition.sourcing() == sourcing_handler_registry,
{
    AggregateDefinition { projection_name, empty_projection, command_handler_registry, sourcing_handler_registry }
}

/// The projection after a sourcing handler ended in `outcome`: the one that
/// the handler yields, or `before` where it yields none.
pub open spec fn sourced<P>(before: P, outcome: Result<Option<P>, DispatchError>) -> Result<P, DispatchError> {
    match outcome {
        Ok(Some(next)) => Ok(next),
        Ok(None) => Ok(before),
        Err(error) => Err(error),
    }
}

/// Whether applying `event` to `before` can end in `after`. An event without
/// payload changes nothing; one whose type has no sourcing handler is an
/// error; any other goes through its handler.
pub open spec fn replay_step<P>(
    sourcing: TheHandlerRegistry<P, P>,
    event: Event,
    before: P,
    after: Result<P, DispatchError>,
) -> bool {
    match event.payload {
        None => after == Ok::<P, DispatchError>(before),
        Some(payload) => if sourcing.contains(payload.object_type@) {
            exists|outcome: Result<Option<P>, DispatchError>| #[trigger]
                sourcing.dispatches(payload.object_type@, payload.data@, &before, outcome) && after == sourced(
                    before,
                    outcome,
                )
        } else {
            after matches Err(error) && error.kind == ErrorKind::HandlerMissing && error.detail@
                == payload.object_type@
        },
    }
}

/// Whether `states` are the projections of a replay of `events` from
/// `start`, as far as it goes: the first is `start`, and each event takes one
/// state to the next.
pub open spec fn replay_trace<P>(
    sourcing: TheHandlerRegistry<P, P>,
    events: Seq<Event>,
    start: P,
    states: Seq<P>,
) -> bool {
    &&& 1 <= states.len() <= events.len() + 1
    &&& states[0] == start
    &&& forall|i: int|
        #![trigger events[i]]
        0 <= i < states.len() - 1 ==> replay_step(sourcing, events[i], states[i], Ok(states[i + 1]))
}

/// Whether replaying `events` on `start`, in order, can end in `end`: in the
/// projection after all of them, or in the failure of the first event that
/// fails.
pub open spec fn replay_outcome<P>(
    sourcing: TheHandlerRegistry<P, P>,
    events: Seq<Event>,
    start: P,
    end: Result<P, DispatchError>,
) -> bool {
    exists|states: Seq<P>| #[trigger]
        replay_trace(sourcing, events, start, states) && match end {
            Ok(projection) => states.len() == events.len() + 1 && states.last() == projection,
            Err(_) => states.len() <= events.len() && replay_step(
                sourcing,
                events[states.len() - 1],
                states.last(),
                end,
            ),
        }
}

/// Whether dispatching the command named `name` with `data` on `projection`
/// can end in `result`.
pub open spec fn dispatch_outcome<P>(
    commands: TheHandlerRegistry<P, EmitApplicableEventsAndResponse<P>>,
    name: Seq<char>,
    data: Seq<u8>,
    projection: P,
    result: Result<Option<EmitApplicableEventsAndResponse<P>>, DispatchError>,
) -> bool {
    if commands.contains(name) {
        commands.dispatches(name, data, &projection, result)
    } else {
        result matches Err(error) && error.kind == ErrorKind::HandlerMissing && error.detail@ == name
    }
}

/// Whether handling `command` on an aggregate with the history `events` can
/// end in `result`. A command without payload is an error. Otherwise the
/// events are replayed on a fresh projection; a failure there is the result;
/// else the command goes to its handler with the projection, and a command
/// without handler is an error.
pub open spec fn command_outcome<P, E: Fn() -> P>(
    definition: AggregateDefinition<P, E>,
    command: Command,
    events: Seq<Event>,
    result: Result<Option<EmitApplicableEventsAndResponse<P>>, DispatchError>,
) -> bool {
    match command.payload {
        None => result matches Err(error) && error.kind == ErrorKind::MissingPayload && error.detail@
            == command.name@,
        Some(payload) => exists|start: P, end: Result<P, DispatchError>|
            #![trigger replay_outcome(definition.sourcing(), events, start, end)]
            call_ensures(definition.factory(), (), start) && replay_outcome(definition.sourcing(), events, start, end)
                && match end {
                Err(error) => result == Err::<Option<EmitApplicableEventsAndResponse<P>>, DispatchError>(error),
                Ok(projection) => dispatch_outcome(
                    definition.commands(),
                    command.name@,
                    payload.data@,
                    projection,
                    result,
                ),
            },
    }
}

/// Copies a byte vector.
fn copy_bytes(bytes: &Vec<u8>) -> (copy: Vec<u8>)
    ensures
        copy@ == bytes@,
{
    let copy = bytes.clone();
    assert(copy@ =~= bytes@);
    copy
}

/// Applies `event` to `projection`.
fn replay_event<P>(sourcing: &TheHandlerRegistry<P, P>, event: &Event, projection: P) -> (after: Result<P, DispatchError>)
    ensures
        replay_step(*sourcing, *event, projection, after),
{
    match &event.payload {
        None => Ok(projection),
        Some(payload) => match sourcing.get(payload.object_type.as_str()) {
            None => Err(DispatchError::new(ErrorKind::HandlerMissing, payload.object_type.as_str())),
            Some(handler) => {
                let outcome = handler.handle(copy_bytes(&payload.data), &projection);
                assert(sourcing.dispatches(payload.object_type@, payload.data@, &projection, outcome));
                match outcome {
                    Ok(Some(next)) => Ok(next),
                    Ok(None) => Ok(projection),
                    Err(error) => Err(error),
                }
            },
        },
    }
}

/// Handles one command of an aggregate whose history is `events`, in
/// sequence order: replays the events on a fresh projection and hands the
/// command to its handler.
pub fn handle_command<P, E: Fn() -> P>(
    command: &Command,
    aggregate_definition: &AggregateDefinition<P, E>,
    events: &Vec<Event>,
) -> (result: Result<Option<EmitApplicableEventsAndResponse<P>>, DispatchError>)
    ensures
        command_outcome(*aggregate_definition, *command, events@, result),
{
    proof {
        use_type_invariant(aggregate_definition);
    }
    let data = match &command.payload {
        None => {
            return Err(DispatchError::new(ErrorKind::MissingPayload, command.name.as_str()));
        },
        Some(payload) => copy_bytes(&payload.data),
    };
    let sourcing = &aggregate_definition.sourcing_handler_registry;
    let mut projection = (aggregate_definition.empty_projection)();
    let ghost start = projection;
    let ghost mut states = seq![start];
    let mut i: usize = 0;
    while i < events.len()
        invariant
            i <= events@.len(),
            *sourcing == aggregate_definition.sourcing(),
            command.payload.is_some(),
            call_ensures(aggregate_definition.factory(), (), start),
            states.len() == i + 1,
            states.last() == projection,
            replay_trace(*sourcing, events@, start, states),
        decreases events@.len() - i,
    {
        let after = replay_event(sourcing, &events[i], projection);
        match after {
            Ok(next) => {
                projection = next;
                proof {
                    let longer = states.push(next);
                    assert forall|j: int| 0 <= j < longer.len() - 1 implies replay_step(
                        *sourcing,
                        #[trigger] events@[j],
                        longer[j],
                        Ok(longer[j + 1]),
                    ) by {
                        if j < states.len() - 1 {
                            assert(replay_step(*sourcing, events@[j], states[j], Ok(states[j + 1])));
                        }
                    }
                    states = longer;
                }
            },
            Err(error) => {
                proof {
                    assert(replay_outcome(*sourcing, events@, start, after));
                }
                return Err(error);
            },
        }
        i += 1;
    }
    proof {
        assert(replay_outcome(*sourcing, events@, start, Ok(projection)));
    }
    match aggregate_definition.command_handler_registry.get(command.name.as_str()) {
        None => Err(DispatchError::new(ErrorKind::HandlerMissing, command.name.as_str())),
        Some(handler) => {
            let result = handler.handle(data, &projection);
            assert(dispatch_outcome(
                aggregate_definition.commands(),
                command.name@,
                command.payload->Some_0.data@,
                projection,
                result,
            ));
            result
        },
    }
}

/// Whether the sequence numbers of `events` are `first`, `first + 1`, and so
/// on, without gap or repetition.
pub open spec fn contiguous_from(events: Seq<Event>, first: int) -> bool {
    forall|i: int| 0 <= i < events.len() ==> (#[trigger] events[i]).aggregate_sequence_number == first + i
}

/// The highest sequence number of a history that is in sequence order; `-1`
/// for an aggregate without events.
pub open spec fn highest_sequence_number(events: Seq<Event>) -> int {
    if events.len() == 0 {
        -1
    } else {
        events.last().aggregate_sequence_number as int
    }
}

/// Whether `event` is the event that an append of `payload` makes at
/// `sequence_number`.
pub open spec fn is_appended_event(
    event: Event,
    message_identifier: Seq<char>,
    aggregate_identifier: Seq<char>,
    aggregate_type: Seq<char>,
    sequence_number: int,
    timestamp: i64,
    payload: SerializedObjectView,
) -> bool {
    &&& event.message_identifier@ == message_identifier
    &&& event.aggregate_identifier@ == aggregate_identifier
    &&& event.aggregate_sequence_number == sequence_number
    &&& event.aggregate_type@ == aggregate_type
    &&& event.timestamp == timestamp
    &&& payload_view(event.payload) == Some(payload)
    &&& event.meta_data@ == Map::<String, String>::empty()
    &&& !event.snapshot
}

/// Whether `events` is the batch that appends `payloads` to an aggregate
/// whose highest sequence number is `highest`: one event for each payload, in
/// order, numbered from `highest + 1` on, all with one message identifier and
/// one timestamp.
pub open spec fn is_append_batch(
    events: Seq<Event>,
    message_identifier: Seq<char>,
    aggregate_identifier: Seq<char>,
    aggregate_type: Seq<char>,
    highest: int,
    timestamp: i64,
    payloads: Seq<SerializedObject>,
) -> bool {
    &&& events.len() == payloads.len()
    &&& forall|i: int|
        #![trigger events[i]]
        0 <= i < events.len() ==> is_appended_event(
            events[i],
            message_identifier,
            aggregate_identifier,
            aggregate_type,
            highest + 1 + i,
            timestamp,
            payloads[i]@,
        )
}

/// Makes the events that append `payloads` to the aggregate
/// `aggregate_identifier`, whose highest sequence number is `highest`.
pub fn sequence_events(
    message_identifier: &str,
    aggregate_identifier: &str,
    aggregate_type: &str,
    highest: i64,
    timestamp: i64,
    payloads: &Vec<SerializedObject>,
) -> (events: Vec<Event>)
    requires
        highest + payloads@.len() <= i64::MAX,
    ensures
        is_append_batch(
            events@,
            message_identifier@,
            aggregate_identifier@,
            aggregate_type@,
            highest as int,
            timestamp,
            payloads@,
        ),
        contiguous_from(events@, highest + 1),
{
    let mut events: Vec<Event> = Vec::new();
    let mut next: i64 = highest;
    let mut i: usize = 0;
    while i < payloads.len()
        invariant
            i <= payloads@.len(),
            highest + payloads@.len() <= i64::MAX,
            next == highest + i,
            events@.len() == i,
            forall|j: int|
                #![trigger events@[j]]
                0 <= j < i ==> is_appended_event(
                    events@[j],
                    message_identifier@,
                    aggregate_identifier@,
                    aggregate_type@,
                    highest + 1 + j,
                    timestamp,
                    payloads@[j]@,
                ),
        decreases payloads@.len() - i,
    {
        next = next + 1;
        events.push(
            Event {
                message_identifier: String::from_str(message_identifier),
                aggregate_identifier: String::from_str(aggregate_identifier),
                aggregate_sequence_number: next,
                aggregate_type: String::from_str(aggregate_type),
                timestamp,
                payload: Some(payloads[i].clone()),
                meta_data: HashMap::new(),
                snapshot: false,
            },
        );
        i += 1;
    }
    events
}

/// Successive appends continue one another: a batch numbered from `first`
/// on, followed by the batch that was made for the highest sequence number
/// after it, is numbered from `first` on without gap or repetition.
pub proof fn lemma_successive_appends(earlier: Seq<Event>, later: Seq<Event>, first: int)
    requires
        contiguous_from(earlier, first),
        contiguous_from(later, first + earlier.len()),
    ensures
        contiguous_from(earlier + later, first),
        earlier.len() > 0 ==> first + earlier.len() == highest_sequence_number(earlier) + 1,
        earlier.len() + later.len() > 0 ==> highest_sequence_number(earlier + later) == first + earlier.len()
            + later.len() - 1,
{
    let all = earlier + later;
    assert forall|i: int| 0 <= i < all.len() implies (#[trigger] all[i]).aggregate_sequence_number == first
        + i by {
        if i < earlier.len() {
            assert(all[i] == earlier[i]);
        } else {
            assert(all[i] == later[i - earlier.len()]);
        }
    }
    if earlier.len() > 0 {
        assert(earlier.last() == earlier[earlier.len() - 1]);
    }
    if all.len() > 0 {
        assert(all.last() == all[all.len() - 1]);
    }
}

/// A history that starts at sequence number 0 and is extended by the batch
/// made for its highest sequence number still starts at 0 and has neither
/// gap nor repetition.
pub proof fn lemma_append_keeps_history_contiguous(history: Seq<Event>, batch: Seq<Event>)
    requires
        contiguous_from(history, 0),
        contiguous_from(batch, highest_sequence_number(history) + 1),
    ensures
        contiguous_from(history + batch, 0),
{
    if history.len() > 0 {
        assert(history.last() == history[history.len() - 1]);
    }
    lemma_successive_appends(history, batch, 0);
}

/// Whether `objects` are encodings of the events that `emitted` holds, each
/// under the name of its type.
pub open spec fn encodes_events<P>(emitted: Seq<ApplicableEvent<P>>, objects: Seq<SerializedObject>) -> bool {
    &&& objects.len() == emitted.len()
    &&& forall|i: int|
        #![trigger objects[i]]
        0 <= i < objects.len() ==> emitted[i].event.encodes(objects[i].data@) && is_serialized(
            objects[i],
            emitted[i].event_type@,
            objects[i].data@,
        )
}

/// Whether one of `events` can fail to encode with the message `text`.
pub open spec fn refused_by<P>(events: Seq<ApplicableEvent<P>>, text: Seq<char>) -> bool {
    exists|i: int| 0 <= i < events.len() && (#[trigger] events[i]).event.refuses(text)
}

/// Whether none of `events` can fail to encode.
pub open spec fn all_encode<P>(events: Seq<ApplicableEvent<P>>) -> bool {
    forall|text: Seq<char>| !#[trigger] refused_by(events, text)
}

/// Encodes the events that `emitted` holds, in order. Fails where one of
/// them does not encode, with the message that this event failed with.
/// Succeeds where there are no events, and where none of them can fail.
pub fn encode_events<P>(emitted: &EmitApplicableEventsAndResponse<P>) -> (result: Result<Vec<SerializedObject>, DispatchError>)
    ensures
        match result {
            Ok(objects) => encodes_events(emitted.events@, objects@),
            Err(error) => error.kind == ErrorKind::Encode && refused_by(emitted.events@, error.detail@),
        },
        all_encode(emitted.events@) ==> result.is_ok(),
{
    let mut objects: Vec<SerializedObject> = Vec::new();
    let mut i: usize = 0;
    while i < emitted.events.len()
        invariant
            i <= emitted.events@.len(),
            objects@.len() == i,
            forall|j: int|
                #![trigger objects@[j]]
                0 <= j < i ==> emitted.events@[j].event.encodes(objects@[j].data@) && is_serialized(
                    objects@[j],
                    emitted.events@[j].event_type@,
                    objects@[j].data@,
                ),
        decreases emitted.events@.len() - i,
    {
        match encode_one(&emitted.events[i]) {
            Ok(data) => {
                objects.push(serialized_object(emitted.events[i].event_type.as_str(), data));
            },
            Err(text) => {
                assert(emitted.events@[i as int].event.refuses(text@));
                assert(refused_by(emitted.events@, text@));
                return Err(DispatchError { kind: ErrorKind::Encode, detail: text });
            },
        }
        i += 1;
    }
    Ok(objects)
}

/// Whether handling a command that ended in `handled` calls for an append:
/// it does where the handler asked for at least one event.
pub open spec fn needs_append<P>(handled: Result<Option<EmitApplicableEventsAndResponse<P>>, DispatchError>) -> bool {
    handled matches Ok(Some(emitted)) && emitted.events@.len() > 0
}

/// Tells whether handling a command that ended in `handled` calls for an
/// append.
pub fn has_events_to_append<P>(handled: &Result<Option<EmitApplicableEventsAndResponse<P>>, DispatchError>) -> (needed: bool)
    ensures
        needed == needs_append(*handled),
{
    match handled {
        Ok(Some(emitted)) => emitted.events.len() > 0,
        _ => false,
    }
}

/// Whether `events` is the batch that stores what `emitted` holds in an
/// aggregate of type `aggregate_type` whose highest sequence number is
/// `highest`.
pub open spec fn stores<P>(
    emitted: EmitApplicableEventsAndResponse<P>,
    aggregate_type: Seq<char>,
    highest: int,
    timestamp: i64,
    events: Seq<Event>,
) -> bool {
    exists|message_identifier: Seq<char>, payloads: Seq<SerializedObject>|
        #![trigger is_append_batch(events, message_identifier, emitted.target_aggregate_identifier@, aggregate_type, highest, timestamp, payloads)]
        is_identifier(message_identifier) && encodes_events(emitted.events@, payloads) && is_append_batch(
            events,
            message_identifier,
            emitted.target_aggregate_identifier@,
            aggregate_type,
            highest,
            timestamp,
            payloads,
        )
}

/// Makes the batch that stores what `emitted` holds in its aggregate, whose
/// type is the name of the projection of `aggregate_definition` and whose
/// highest sequence number is `highest`: one event for each emitted event,
/// in order, numbered from `highest + 1` on, under one fresh message
/// identifier and the one timestamp `timestamp`. Fails where an event does
/// not encode, with the message that this event failed with, and where the
/// sequence numbers would leave the range of the wire format. Succeeds in
/// every other case: so where there are no events, and where none of them
/// can fail to encode, as long as the sequence numbers stay in range.
pub fn store_events<P, E: Fn() -> P>(
    aggregate_definition: &AggregateDefinition<P, E>,
    emitted: &EmitApplicableEventsAndResponse<P>,
    highest: i64,
    timestamp: i64,
) -> (result: Result<Vec<Event>, DispatchError>)
    ensures
        match result {
            Ok(events) => stores(*emitted, aggregate_definition.name(), highest as int, timestamp, events@)
                && contiguous_from(events@, highest + 1),
            Err(error) => (error.kind == ErrorKind::Encode && refused_by(emitted.events@, error.detail@)) || (
            error.kind == ErrorKind::AppendRejection && highest + emitted.events@.len() > i64::MAX),
        },
        highest + emitted.events@.len() > i64::MAX ==> result.is_err(),
        all_encode(emitted.events@) && highest + emitted.events@.len() <= i64::MAX ==> result.is_ok(),
{
    let payloads = match encode_events(emitted) {
        Ok(payloads) => payloads,
        Err(error) => {
            return Err(error);
        },
    };
    if highest as i128 + payloads.len() as i128 > i64::MAX as i128 {
        return Err(DispatchError::new(ErrorKind::AppendRejection, "sequence number out of range"));
    }
    let message_identifier = fresh_identifier();
    let events = sequence_events(
        message_identifier.as_str(),
        emitted.target_aggregate_identifier.as_str(),
        aggregate_definition.projection_name(),
        highest,
        timestamp,
        &payloads,
    );
    Ok(events)
}

/// How the handling of one command ended: the identifier of the command,
/// and what to respond with, or the failure.
#[derive(Debug)]
pub struct AxonCommandResult {
    pub message_identifier: String,
    pub result: Result<Option<EmitEventsAndResponse>, DispatchError>,
}

/// Whether `result` concludes the command `message_identifier`, whose
/// handling ended in `handled` and whose append, where one was needed, ended
/// in `appended`. A failure of the handling, or of a needed append, is the
/// result. Otherwise the result carries the response that the handler asked
/// for, and no events, since they are stored by then.
pub open spec fn concludes<P>(
    message_identifier: Seq<char>,
    handled: Result<Option<EmitApplicableEventsAndResponse<P>>, DispatchError>,
    appended: Result<(), DispatchError>,
    result: AxonCommandResult,
) -> bool {
    &&& result.message_identifier@ == message_identifier
    &&& match handled {
        Err(error) => result.result == Err::<Option<EmitEventsAndResponse>, DispatchError>(error),
        Ok(None) => result.result == Ok::<Option<EmitEventsAndResponse>, DispatchError>(None),
        Ok(Some(emitted)) => match appended {
            Err(error) if emitted.events@.len() > 0 => result.result == Err::<
                Option<EmitEventsAndResponse>,
                DispatchError,
            >(error),
            _ => result.result matches Ok(Some(concluded)) && concluded.target_aggregate_identifier
                == emitted.target_aggregate_identifier && concluded.events@.len() == 0 && concluded.response
                == emitted.response,
        },
    }
}

/// Concludes the command `message_identifier`.
pub fn conclude_command<P>(
    message_identifier: String,
    handled: Result<Option<EmitApplicableEventsAndResponse<P>>, DispatchError>,
    appended: Result<(), DispatchError>,
) -> (result: AxonCommandResult)
    ensures
        concludes(message_identifier@, handled, appended, result),
{
    let result = match handled {
        Err(error) => Err(error),
        Ok(None) => Ok(None),
        Ok(Some(emitted)) => {
            let stored = emitted.events.len() > 0;
            match appended {
                Err(error) if stored => Err(error),
                _ => Ok(
                    Some(
                        EmitEventsAndResponse {
                            target_aggregate_identifier: emitted.target_aggregate_identifier,
                            events: Vec::new(),
                            response: emitted.response,
                        },
                    ),
                ),
            }
        },
    };
    AxonCommandResult { message_identifier, result }
}

/// The payload that a concluded command responds with.
pub open spec fn response_payload(result: Result<Option<EmitEventsAndResponse>, DispatchError>) -> Option<SerializedObjectView> {
    match result {
        Ok(Some(concluded)) => payload_view(concluded.response),
        _ => None,
    }
}

/// Whether `response`, under the identifier `message_identifier`, is the
/// response to the command that `result` concludes. A success carries the
/// payload and no error; a failure carries the error code, the error's
/// message and no payload.
pub open spec fn responds(response: CommandResponse, message_identifier: Seq<char>, result: AxonCommandResult) -> bool {
    &&& response.message_identifier@ == message_identifier
    &&& response.request_identifier@ == result.message_identifier@
    &&& payload_view(response.payload) == response_payload(result.result)
    &&& match result.result {
        Ok(_) => response.error_code@.len() == 0 && response.error_message.is_none(),
        Err(error) => {
            &&& response.error_code@ == error_code()
            &&& response.error_message matches Some(message)
            &&& is_error_message(message, error.spec_message())
        },
    }
}

/// The response, under the identifier `message_identifier`, to the command
/// that `result` concludes.
pub fn command_response(message_identifier: String, result: AxonCommandResult) -> (response: CommandResponse)
    ensures
        responds(response, message_identifier@, result),
{
    match result.result {
        Ok(concluded) => {
            let payload = match concluded {
                Some(holder) => holder.response,
                None => None,
            };
            CommandResponse {
                message_identifier,
                error_code: String::new(),
                error_message: None,
                payload,
                request_identifier: result.message_identifier,
            }
        },
        Err(error) => CommandResponse {
            message_identifier,
            error_code: String::from_str("ERROR"),
            error_message: Some(error_message(&error)),
            payload: None,
            request_identifier: result.message_identifier,
        },
    }
}

/// A command whose handler yields nothing has no effect: no append is made
/// for it, and its response carries neither payload nor error.
pub proof fn lemma_command_without_output<P>(
    message_identifier: Seq<char>,
    appended: Result<(), DispatchError>,
    result: AxonCommandResult,
    response_identifier: Seq<char>,
    response: CommandResponse,
)
    requires
        concludes(
            message_identifier,
            Ok::<Option<EmitApplicableEventsAndResponse<P>>, DispatchError>(None),
            appended,
            result,
        ),
        responds(response, response_identifier, result),
    ensures
        !needs_append(Ok::<Option<EmitApplicableEventsAndResponse<P>>, DispatchError>(None)),
        response.payload.is_none(),
        response.error_code@.len() == 0,
        response.error_message.is_none(),
        response.request_identifier@ == message_identifier,
{
}

/// Whether `instruction` subscribes the client `client_id` to `command`.
pub open spec fn is_command_subscribe(instruction: CommandProviderOutbound, client_id: Seq<char>, command: Seq<char>) -> bool {
    &&& is_identifier(instruction.instruction_id@)
    &&& instruction.request matches CommandInstruction::Subscribe(subscription)
    &&& is_identifier(subscription.message_id@)
    &&& subscription.command@ == command
    &&& subscription.client_id@ == client_id
    &&& subscription.component_name@ == client_id
    &&& subscription.load_factor == COMMAND_LOAD_FACTOR
}

/// Whether `instruction` grants `permits` permits in the name of `client_id`.
pub open spec fn is_command_flow_control(instruction: CommandProviderOutbound, client_id: Seq<char>, permits: int) -> bool {
    &&& is_identifier(instruction.instruction_id@)
    &&& instruction.request matches CommandInstruction::FlowControl(flow_control)
    &&& flow_control.client_id@ == client_id
    &&& flow_control.permits == permits
}

/// Whether `instruction` carries the response to the command that `result`
/// concludes.
pub open spec fn is_command_reply(instruction: CommandProviderOutbound, result: AxonCommandResult) -> bool {
    &&& is_identifier(instruction.instruction_id@)
    &&& instruction.request matches CommandInstruction::CommandResponse(response)
    &&& is_identifier(response.message_identifier@)
    &&& responds(response, response.message_identifier@, result)
}

/// The instruction `instruction_id` that subscribes `client_id` to `command`
/// under the subscription identifier `message_id`.
pub fn command_subscribe_instruction(instruction_id: String, message_id: String, client_id: &str, command: &str) -> (instruction: CommandProviderOutbound)
    ensures
        instruction.instruction_id == instruction_id,
        instruction.request matches CommandInstruction::Subscribe(subscription) && subscription.message_id
            == message_id && subscription.command@ == command@ && subscription.client_id@ == client_id@
            && subscription.component_name@ == client_id@ && subscription.load_factor == COMMAND_LOAD_FACTOR,
{
    CommandProviderOutbound {
        instruction_id,
        request: CommandInstruction::Subscribe(
            CommandSubscription {
                message_id,
                command: String::from_str(command),
                component_name: String::from_str(client_id),
                client_id: String::from_str(client_id),
                load_factor: COMMAND_LOAD_FACTOR,
            },
        ),
    }
}

/// The instruction `instruction_id` that grants `permits` permits in the
/// name of `client_id`.
pub fn command_flow_control_instruction(instruction_id: String, client_id: &str, permits: i64) -> (instruction: CommandProviderOutbound)
    ensures
        instruction.instruction_id == instruction_id,
        instruction.request matches CommandInstruction::FlowControl(flow_control) && flow_control.client_id@
            == client_id@ && flow_control.permits == permits,
{
    CommandProviderOutbound {
        instruction_id,
        request: CommandInstruction::FlowControl(FlowControl { client_id: String::from_str(client_id), permits }),
    }
}

/// The instruction `instruction_id` that carries `response`.
pub fn command_response_instruction(instruction_id: String, response: CommandResponse) -> (instruction: CommandProviderOutbound)
    ensures
        instruction.instruction_id == instruction_id,
        instruction.request == CommandInstruction::CommandResponse(response),
{
    CommandProviderOutbound { instruction_id, request: CommandInstruction::CommandResponse(response) }
}

/// Whether `instructions` open a command provider stream for `client_id`:
/// one subscription for each of `commands`, in order, and then the initial
/// grant of `permits` permits.
pub open spec fn opens_command_stream(
    instructions: Seq<CommandProviderOutbound>,
    client_id: Seq<char>,
    commands: Seq<String>,
    permits: int,
) -> bool {
    &&& instructions.len() == commands.len() + 1
    &&& forall|i: int|
        #![trigger instructions[i]]
        0 <= i < commands.len() ==> is_command_subscribe(instructions[i], client_id, commands[i]@)
    &&& is_command_flow_control(instructions[commands.len() as int], client_id, permits)
}

/// Whether `instructions` answer one command on a stream of `client_id`
/// whose balance was `permits`: the response, and after it a grant of one
/// batch where the balance has come down to the batch size.
pub open spec fn answers_command(
    instructions: Seq<CommandProviderOutbound>,
    client_id: Seq<char>,
    permits: int,
    batch: int,
    result: AxonCommandResult,
) -> bool {
    &&& instructions.len() == if grants_after_response(permits, batch) {
        2int
    } else {
        1int
    }
    &&& is_command_reply(instructions[0], result)
    &&& grants_after_response(permits, batch) ==> is_command_flow_control(instructions[1], client_id, batch)
}

/// The outbound side of a command provider stream: the identity of the
/// client and the balance of permits.
#[derive(Debug)]
pub struct CommandOutboundStream {
    client_id: String,
    account: PermitAccount,
}

impl CommandOutboundStream {
    /// The identity of the client.
    pub closed spec fn client(&self) -> Seq<char> {
        self.client_id@
    }

    /// The permits that the server still holds.
    pub closed spec fn permits(&self) -> int {
        self.account.permits()
    }

    /// The number of permits granted at a time.
    pub closed spec fn batch(&self) -> int {
        self.account.batch()
    }

    /// The permits that the server still holds; always positive, and at
    /// most twice the batch size.
    pub fn balance(&self) -> (permits: i64)
        ensures
            permits == self.permits(),
            0 < permits <= 2 * self.batch(),
    {
        self.account.balance()
    }

    /// Emits the response to the command that `result` concludes, and
    /// replenishes the permits where the balance has come down to the batch
    /// size.
    pub fn respond(&mut self, result: AxonCommandResult) -> (instructions: Vec<CommandProviderOutbound>)
        ensures
            final(self).client() == old(self).client(),
            final(self).batch() == old(self).batch(),
            final(self).permits() == balance_after_response(old(self).permits(), old(self).batch()),
            0 < final(self).permits() <= 2 * final(self).batch(),
            answers_command(instructions@, old(self).client(), old(self).permits(), old(self).batch(), result),
    {
        let mut instructions: Vec<CommandProviderOutbound> = Vec::new();
        let response = command_response(fresh_identifier(), result);
        instructions.push(command_response_instruction(fresh_identifier(), response));
        match self.account.consume() {
            Some(permits) => {
                instructions.push(
                    command_flow_control_instruction(fresh_identifier(), self.client_id.as_str(), permits),
                );
            },
            None => {},
        }
        instructions
    }
}

/// Opens the outbound side of a command provider stream for `client_id`:
/// subscribes to each of `command_box`, in order, and grants the initial
/// permits, twice the batch size.
pub fn create_output_stream(client_id: String, command_box: &Vec<String>) -> (opened: (
    CommandOutboundStream,
    Vec<CommandProviderOutbound>,
))
    ensures
        opened.0.client() == client_id@,
        opened.0.batch() == PERMITS_BATCH_SIZE,
        opened.0.permits() == 2 * PERMITS_BATCH_SIZE,
        opens_command_stream(opened.1@, client_id@, command_box@, 2 * PERMITS_BATCH_SIZE),
{
    let mut instructions: Vec<CommandProviderOutbound> = Vec::new();
    let mut i: usize = 0;
    while i < command_box.len()
        invariant
            i <= command_box@.len(),
            instructions@.len() == i,
            forall|j: int|
                #![trigger instructions@[j]]
                0 <= j < i ==> is_command_subscribe(instructions@[j], client_id@, command_box@[j]@),
        decreases command_box@.len() - i,
    {
        let subscription_id = fresh_identifier();
        let instruction_id = fresh_identifier();
        instructions.push(
            command_subscribe_instruction(
                instruction_id,
                subscription_id,
                client_id.as_str(),
                command_box[i].as_str(),
            ),
        );
        i += 1;
    }
    let account = PermitAccount::new();
    instructions.push(command_flow_control_instruction(fresh_identifier(), client_id.as_str(), account.balance()));
    (CommandOutboundStream { client_id, account }, instructions)
}

} // verus!
