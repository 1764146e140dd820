use bytes::Bytes;
use dendrite::command_worker::{
    axon_serialize, command_flow_control_instruction, command_response, command_response_instruction,
    command_subscribe_instruction, conclude_command, create_aggregate_definition, create_output_stream, emit,
    emit_applicable, emit_applicable_events_and_response, emit_events, emit_events_and_response, encode_events,
    handle_command, has_events_to_append, sequence_events, serialized_object, store_events, AggregateDefinition,
    ApplicableTo, AxonCommandResult, EmitApplicableEventsAndResponse, EmitEventsAndResponse, VecU8Message,
};
use dendrite::errors::{DispatchError, ErrorKind};
use dendrite::ids::has_identifier_shape;
use dendrite::messages::{Command, CommandInstruction, CommandProviderOutbound, Event, SerializedObject};
use dendrite::registry::{empty_handler_registry, SubscriptionHandle, TheHandlerRegistry};
use prost::{DecodeError, Message};
use std::collections::HashMap;

#[derive(Clone, Debug, Default, PartialEq)]
struct Text {
    value: String,
}

impl Message for Text {
    fn encode_raw(&self, buf: &mut impl bytes::BufMut) {
        if !self.value.is_empty() {
            prost::encoding::string::encode(1, &self.value, buf);
        }
    }

    fn merge_field(
        &mut self,
        tag: u32,
        wire_type: prost::encoding::WireType,
        buf: &mut impl bytes::Buf,
        ctx: prost::encoding::DecodeContext,
    ) -> Result<(), DecodeError> {
        if tag == 1 {
            prost::encoding::string::merge(wire_type, &mut self.value, buf, ctx)
        } else {
            prost::encoding::skip_field(wire_type, tag, buf, ctx)
        }
    }

    fn encoded_len(&self) -> usize {
        if self.value.is_empty() {
            0
        } else {
            prost::encoding::string::encoded_len(1, &self.value)
        }
    }

    fn clear(&mut self) {
        self.value.clear();
    }
}

impl VecU8Message for Text {
    fn encode_u8(&self, buf: &mut Vec<u8>) -> Result<(), String> {
        self.encode(buf).map_err(|error| error.to_string())
    }
}

struct Unencodable;

impl VecU8Message for Unencodable {
    fn encode_u8(&self, _buf: &mut Vec<u8>) -> Result<(), String> {
        Err("cannot encode".to_string())
    }
}

#[derive(Clone, Debug, PartialEq)]
struct GreeterProjection {
    is_recording: bool,
    greetings: usize,
}

#[derive(Clone, Debug)]
struct GreetedEvent {
    message: String,
}

impl ApplicableTo<GreeterProjection> for GreetedEvent {
    fn encode_u8(&self, buf: &mut Vec<u8>) -> Result<(), String> {
        Text { value: self.message.clone() }.encode_u8(buf)
    }

    fn apply_to(&self, projection: &mut GreeterProjection) -> Result<(), String> {
        projection.greetings += 1;
        Ok(())
    }
}

#[derive(Clone, Debug)]
struct StartedRecordingEvent;

impl ApplicableTo<GreeterProjection> for StartedRecordingEvent {
    fn encode_u8(&self, _buf: &mut Vec<u8>) -> Result<(), String> {
        Ok(())
    }

    fn apply_to(&self, projection: &mut GreeterProjection) -> Result<(), String> {
        projection.is_recording = true;
        Ok(())
    }
}

#[derive(Clone, Debug)]
struct StoppedRecordingEvent;

impl ApplicableTo<GreeterProjection> for StoppedRecordingEvent {
    fn encode_u8(&self, _buf: &mut Vec<u8>) -> Result<(), String> {
        Ok(())
    }

    fn apply_to(&self, projection: &mut GreeterProjection) -> Result<(), String> {
        projection.is_recording = false;
        Ok(())
    }
}

struct BrokenEvent;

impl ApplicableTo<GreeterProjection> for BrokenEvent {
    fn encode_u8(&self, _buf: &mut Vec<u8>) -> Result<(), String> {
        Err("event cannot be encoded".to_string())
    }

    fn apply_to(&self, _projection: &mut GreeterProjection) -> Result<(), String> {
        Ok(())
    }
}

fn decode_text(bytes: Bytes) -> Result<Text, DecodeError> {
    Text::decode(bytes)
}

fn source<E: ApplicableTo<GreeterProjection>>(event: E, projection: &GreeterProjection) -> Result<Option<GreeterProjection>, String> {
    let mut next = projection.clone();
    event.apply_to(&mut next)?;
    Ok(Some(next))
}

fn source_greeted(message: Text, projection: &GreeterProjection) -> Result<Option<GreeterProjection>, String> {
    source(GreetedEvent { message: message.value }, projection)
}

fn source_started(_message: Text, projection: &GreeterProjection) -> Result<Option<GreeterProjection>, String> {
    source(StartedRecordingEvent, projection)
}

fn source_stopped(_message: Text, projection: &GreeterProjection) -> Result<Option<GreeterProjection>, String> {
    source(StoppedRecordingEvent, projection)
}

fn source_nothing(_message: Text, _projection: &GreeterProjection) -> Result<Option<GreeterProjection>, String> {
    Ok(None)
}

fn source_failing(_message: Text, _projection: &GreeterProjection) -> Result<Option<GreeterProjection>, String> {
    Err("cannot apply".to_string())
}

type Emitted = EmitApplicableEventsAndResponse<GreeterProjection>;

fn handle_greet(command: Text, projection: &GreeterProjection) -> Result<Option<Emitted>, String> {
    if !projection.is_recording {
        return Ok(None);
    }
    if command.value == "ERROR" {
        return Err("Panicked at reading 'ERROR'".to_string());
    }
    let acknowledgement = Text { value: format!("ACK! {}", command.value) };
    let mut emitted: Emitted =
        emit_applicable_events_and_response("xxx", "Acknowledgement", &acknowledgement).map_err(|e| e.message())?;
    emit_applicable(&mut emitted, "GreetedEvent", GreetedEvent { message: command.value }).map_err(|e| e.message())?;
    Ok(Some(emitted))
}

fn handle_record(_command: Text, projection: &GreeterProjection) -> Result<Option<Emitted>, String> {
    if projection.is_recording {
        return Ok(None);
    }
    let mut emitted: Emitted =
        emit_applicable_events_and_response("xxx", "Acknowledgement", &Text::default()).map_err(|e| e.message())?;
    emit_applicable(&mut emitted, "StartedRecordingEvent", StartedRecordingEvent).map_err(|e| e.message())?;
    Ok(Some(emitted))
}

fn handle_stop(_command: Text, projection: &GreeterProjection) -> Result<Option<Emitted>, String> {
    if !projection.is_recording {
        return Ok(None);
    }
    let mut emitted: Emitted =
        emit_applicable_events_and_response("xxx", "Acknowledgement", &Text::default()).map_err(|e| e.message())?;
    emit_applicable(&mut emitted, "StoppedRecordingEvent", StoppedRecordingEvent).map_err(|e| e.message())?;
    Ok(Some(emitted))
}

fn handle_count(_command: Text, projection: &GreeterProjection) -> Result<Option<Emitted>, String> {
    let count = Text { value: projection.greetings.to_string() };
    let emitted: Emitted = emit_applicable_events_and_response("xxx", "Count", &count).map_err(|e| e.message())?;
    Ok(Some(emitted))
}

fn empty_projection() -> GreeterProjection {
    GreeterProjection { is_recording: true, greetings: 0 }
}

fn greeter() -> AggregateDefinition<GreeterProjection, fn() -> GreeterProjection> {
    let mut sourcing: TheHandlerRegistry<GreeterProjection, GreeterProjection> = empty_handler_registry();
    sourcing.insert_with_output("GreetedEvent", decode_text, source_greeted).unwrap();
    sourcing.insert_with_output("StoppedRecordingEvent", decode_text, source_stopped).unwrap();
    sourcing.insert_with_output("StartedRecordingEvent", decode_text, source_started).unwrap();
    sourcing.insert_with_output("IgnoredEvent", decode_text, source_nothing).unwrap();
    sourcing.insert_with_output("FailingEvent", decode_text, source_failing).unwrap();
    let mut commands: TheHandlerRegistry<GreeterProjection, Emitted> = empty_handler_registry();
    commands.insert_with_output("GreetCommand", decode_text, handle_greet).unwrap();
    commands.insert_with_output("RecordCommand", decode_text, handle_record).unwrap();
    commands.insert_with_output("StopCommand", decode_text, handle_stop).unwrap();
    commands.insert_with_output("CountCommand", decode_text, handle_count).unwrap();
    create_aggregate_definition(
        "GreeterProjection".to_string(),
        empty_projection as fn() -> GreeterProjection,
        commands,
        sourcing,
    )
}

fn command(name: &str, value: &str) -> Command {
    Command {
        message_identifier: "command-1".to_string(),
        name: name.to_string(),
        timestamp: 0,
        payload: Some(SerializedObject {
            object_type: name.to_string(),
            revision: "1".to_string(),
            data: Text { value: value.to_string() }.encode_to_vec(),
        }),
        meta_data: HashMap::new(),
        client_id: "client".to_string(),
        component_name: "component".to_string(),
    }
}

fn stored(sequence_number: i64, object_type: &str, value: &str) -> Event {
    Event {
        message_identifier: "stored".to_string(),
        aggregate_identifier: "xxx".to_string(),
        aggregate_sequence_number: sequence_number,
        aggregate_type: "GreeterProjection".to_string(),
        timestamp: 1,
        payload: Some(SerializedObject {
            object_type: object_type.to_string(),
            revision: String::new(),
            data: Text { value: value.to_string() }.encode_to_vec(),
        }),
        meta_data: HashMap::new(),
        snapshot: false,
    }
}

fn decoded(object: &SerializedObject) -> String {
    Text::decode(Bytes::from(object.data.clone())).unwrap().value
}

fn only_reply(instruction: &CommandProviderOutbound) -> &dendrite::messages::CommandResponse {
    match &instruction.request {
        CommandInstruction::CommandResponse(response) => response,
        other => panic!("expected a response, got {:?}", other),
    }
}

#[test]
fn serialized_object_has_an_empty_revision() {
    let object = serialized_object("Greeting", vec![1, 2, 3]);
    assert_eq!(object.object_type, "Greeting");
    assert_eq!(object.revision, "");
    assert_eq!(object.data, vec![1, 2, 3]);
}

#[test]
fn axon_serialize_encodes_the_message_under_its_name() {
    let object = axon_serialize("Greeting", &Text { value: "World".to_string() }).unwrap();
    assert_eq!(object.object_type, "Greeting");
    assert_eq!(object.revision, "");
    assert_eq!(object.data, vec![0x0a, 0x05, b'W', b'o', b'r', b'l', b'd']);
    assert_eq!(decoded(&object), "World");
}

#[test]
fn axon_serialize_of_an_empty_message_has_no_bytes() {
    let object = axon_serialize("Empty", &Text::default()).unwrap();
    assert!(object.data.is_empty());
}

#[test]
fn axon_serialize_reports_a_message_that_does_not_encode() {
    let error = axon_serialize("Broken", &Unencodable).unwrap_err();
    assert_eq!(error.kind, ErrorKind::Encode);
    assert_eq!(error.detail, "cannot encode");
}

#[test]
fn emit_events_starts_without_events_and_response() {
    let holder = emit_events("xxx");
    assert_eq!(holder.target_aggregate_identifier, "xxx");
    assert!(holder.events.is_empty());
    assert!(holder.response.is_none());
}

#[test]
fn emit_events_and_response_carries_the_encoded_response() {
    let holder = emit_events_and_response("xxx", "Acknowledgement", &Text { value: "ok".to_string() }).unwrap();
    assert_eq!(holder.target_aggregate_identifier, "xxx");
    assert!(holder.events.is_empty());
    let response = holder.response.unwrap();
    assert_eq!(response.object_type, "Acknowledgement");
    assert_eq!(decoded(&response), "ok");
    assert_eq!(emit_events_and_response("xxx", "A", &Unencodable).unwrap_err().kind, ErrorKind::Encode);
}

#[test]
fn emit_appends_encoded_events_in_order() {
    let mut holder = emit_events("xxx");
    emit(&mut holder, "First", &Text { value: "1".to_string() }).unwrap();
    emit(&mut holder, "Second", &Text { value: "2".to_string() }).unwrap();
    assert_eq!(holder.events.len(), 2);
    assert_eq!(holder.events[0].object_type, "First");
    assert_eq!(decoded(&holder.events[0]), "1");
    assert_eq!(holder.events[1].object_type, "Second");
    assert_eq!(decoded(&holder.events[1]), "2");
    assert_eq!(emit(&mut holder, "Third", &Unencodable).unwrap_err().kind, ErrorKind::Encode);
    assert_eq!(holder.events.len(), 2);
    assert_eq!(holder.target_aggregate_identifier, "xxx");
}

#[test]
fn emit_applicable_appends_events_in_order() {
    let mut holder: Emitted = emit_applicable_events_and_response("xxx", "Acknowledgement", &Text::default()).unwrap();
    assert!(holder.events.is_empty());
    emit_applicable(&mut holder, "GreetedEvent", GreetedEvent { message: "a".to_string() }).unwrap();
    emit_applicable(&mut holder, "StoppedRecordingEvent", StoppedRecordingEvent).unwrap();
    assert_eq!(holder.events.len(), 2);
    assert_eq!(holder.events[0].event_type, "GreetedEvent");
    assert_eq!(holder.events[1].event_type, "StoppedRecordingEvent");
    let objects = encode_events(&holder).unwrap();
    assert_eq!(objects.len(), 2);
    assert_eq!(objects[0].object_type, "GreetedEvent");
    assert_eq!(objects[0].revision, "");
    assert_eq!(decoded(&objects[0]), "a");
    assert_eq!(objects[1].object_type, "StoppedRecordingEvent");
    assert!(objects[1].data.is_empty());
    let mut projection = empty_projection();
    holder.events[1].event.apply_to(&mut projection).unwrap();
    assert!(!projection.is_recording);
}

#[test]
fn encode_events_reports_an_event_that_does_not_encode() {
    let mut holder: Emitted = emit_applicable_events_and_response("xxx", "A", &Text::default()).unwrap();
    emit_applicable(&mut holder, "GreetedEvent", GreetedEvent { message: "a".to_string() }).unwrap();
    emit_applicable(&mut holder, "BrokenEvent", BrokenEvent).unwrap();
    let error = encode_events(&holder).unwrap_err();
    assert_eq!(error.kind, ErrorKind::Encode);
    assert_eq!(error.detail, "event cannot be encoded");
    assert_eq!(store_events(&greeter(), &holder, 0, 7).unwrap_err().kind, ErrorKind::Encode);
}

#[test]
fn aggregate_definition_keeps_its_name_and_command_names() {
    let definition = greeter();
    assert_eq!(definition.projection_name(), "GreeterProjection");
    assert_eq!(
        definition.command_names(),
        vec![
            "GreetCommand".to_string(),
            "RecordCommand".to_string(),
            "StopCommand".to_string(),
            "CountCommand".to_string()
        ]
    );
}

#[test]
fn greet_while_recording() {
    let definition = greeter();
    let history = vec![stored(0, "StartedRecordingEvent", "")];
    let handled = handle_command(&command("GreetCommand", "World"), &definition, &history);
    assert!(has_events_to_append(&handled));
    let emitted = handled.as_ref().unwrap().as_ref().unwrap();
    let highest = history.last().unwrap().aggregate_sequence_number;
    let batch = store_events(&definition, emitted, highest, 1234).unwrap();
    assert_eq!(batch.len(), 1);
    assert_eq!(batch[0].aggregate_sequence_number, 1);
    assert_eq!(batch[0].aggregate_identifier, "xxx");
    assert_eq!(batch[0].aggregate_type, "GreeterProjection");
    assert_eq!(batch[0].timestamp, 1234);
    assert!(!batch[0].snapshot);
    assert!(batch[0].meta_data.is_empty());
    assert!(has_identifier_shape(&batch[0].message_identifier));
    let payload = batch[0].payload.as_ref().unwrap();
    assert_eq!(payload.object_type, "GreetedEvent");
    assert_eq!(payload.revision, "");
    assert_eq!(decoded(payload), "World");

    let result = conclude_command("command-1".to_string(), handled, Ok(()));
    let response = command_response("response-1".to_string(), result);
    assert_eq!(response.message_identifier, "response-1");
    assert_eq!(response.request_identifier, "command-1");
    assert_eq!(response.error_code, "");
    assert!(response.error_message.is_none());
    let acknowledgement = response.payload.unwrap();
    assert_eq!(acknowledgement.object_type, "Acknowledgement");
    assert_eq!(decoded(&acknowledgement), "ACK! World");
}

#[test]
fn greet_while_stopped() {
    let definition = greeter();
    let history = vec![stored(0, "GreetedEvent", "x"), stored(1, "StoppedRecordingEvent", "")];
    let handled = handle_command(&command("GreetCommand", "World"), &definition, &history);
    assert!(matches!(handled, Ok(None)));
    assert!(!has_events_to_append(&handled));
    let result = conclude_command("command-1".to_string(), handled, Ok(()));
    assert!(matches!(result.result, Ok(None)));
    let response = command_response("response-1".to_string(), result);
    assert!(response.payload.is_none());
    assert_eq!(response.error_code, "");
    assert!(response.error_message.is_none());
    assert_eq!(response.request_identifier, "command-1");
}

#[test]
fn handler_error() {
    let definition = greeter();
    let history = vec![stored(0, "StartedRecordingEvent", "")];
    let handled = handle_command(&command("GreetCommand", "ERROR"), &definition, &history);
    assert!(!has_events_to_append(&handled));
    let error = handled.as_ref().err().unwrap();
    assert_eq!(error.kind, ErrorKind::HandlerFailure);
    let result = conclude_command("command-1".to_string(), handled, Ok(()));
    let response = command_response("response-1".to_string(), result);
    assert_eq!(response.error_code, "ERROR");
    assert!(response.payload.is_none());
    let message = response.error_message.unwrap();
    assert!(message.message.contains("ERROR"));
    assert_eq!(message.message, "Panicked at reading 'ERROR'");
    assert_eq!(message.error_code, "ERROR");
    assert_eq!(message.location, "");
    assert!(message.details.is_empty());
}

#[test]
fn replay_applies_events_in_order() {
    let definition = greeter();
    let stopped_then_started = vec![stored(0, "StoppedRecordingEvent", ""), stored(1, "StartedRecordingEvent", "")];
    assert!(matches!(
        handle_command(&command("GreetCommand", "a"), &definition, &stopped_then_started),
        Ok(Some(_))
    ));
    let started_then_stopped = vec![stored(0, "StartedRecordingEvent", ""), stored(1, "StoppedRecordingEvent", "")];
    assert!(matches!(
        handle_command(&command("GreetCommand", "a"), &definition, &started_then_stopped),
        Ok(None)
    ));
}

#[test]
fn replay_hands_each_projection_to_the_next_event() {
    let definition = greeter();
    let history = vec![
        stored(0, "GreetedEvent", "a"),
        stored(1, "IgnoredEvent", ""),
        stored(2, "GreetedEvent", "b"),
        stored(3, "GreetedEvent", "c"),
    ];
    let handled = handle_command(&command("CountCommand", ""), &definition, &history).unwrap().unwrap();
    assert_eq!(decoded(handled.response.as_ref().unwrap()), "3");
    assert!(handled.events.is_empty());
}

#[test]
fn command_on_an_aggregate_without_events_sees_the_empty_projection() {
    let definition = greeter();
    let handled = handle_command(&command("CountCommand", ""), &definition, &Vec::new()).unwrap().unwrap();
    assert_eq!(decoded(handled.response.as_ref().unwrap()), "0");
    assert!(matches!(handle_command(&command("RecordCommand", ""), &definition, &Vec::new()), Ok(None)));
}

#[test]
fn event_without_payload_is_passed_over() {
    let definition = greeter();
    let mut bare = stored(1, "StoppedRecordingEvent", "");
    bare.payload = None;
    let history = vec![stored(0, "GreetedEvent", "a"), bare];
    let handled = handle_command(&command("CountCommand", ""), &definition, &history).unwrap().unwrap();
    assert_eq!(decoded(handled.response.as_ref().unwrap()), "1");
}

#[test]
fn missing_sourcing_handler_fails_the_command() {
    let definition = greeter();
    let history = vec![stored(0, "StartedRecordingEvent", ""), stored(1, "UnknownEvent", "")];
    let error = handle_command(&command("GreetCommand", "World"), &definition, &history).err().unwrap();
    assert_eq!(error.kind, ErrorKind::HandlerMissing);
    assert_eq!(error.detail, "UnknownEvent");
    assert_eq!(error.message(), "No handler for: UnknownEvent");
}

#[test]
fn failing_sourcing_handler_fails_the_command() {
    let definition = greeter();
    let history = vec![stored(0, "FailingEvent", ""), stored(1, "UnknownEvent", "")];
    let error = handle_command(&command("GreetCommand", "World"), &definition, &history).err().unwrap();
    assert_eq!(error.kind, ErrorKind::HandlerFailure);
    assert_eq!(error.detail, "cannot apply");
}

#[test]
fn replay_failure_comes_before_a_missing_command_handler() {
    let definition = greeter();
    let history = vec![stored(0, "UnknownEvent", "")];
    let error = handle_command(&command("NoSuchCommand", ""), &definition, &history).err().unwrap();
    assert_eq!(error.detail, "UnknownEvent");
}

#[test]
fn missing_command_handler_is_an_error() {
    let definition = greeter();
    let error = handle_command(&command("NoSuchCommand", ""), &definition, &Vec::new()).err().unwrap();
    assert_eq!(error.kind, ErrorKind::HandlerMissing);
    assert_eq!(error.detail, "NoSuchCommand");
}

#[test]
fn command_without_payload_is_an_error() {
    let definition = greeter();
    let mut bare = command("GreetCommand", "World");
    bare.payload = None;
    let error = handle_command(&bare, &definition, &Vec::new()).err().unwrap();
    assert_eq!(error.kind, ErrorKind::MissingPayload);
    assert_eq!(error.detail, "GreetCommand");
    assert_eq!(error.message(), "No payload data for: GreetCommand");
}

#[test]
fn command_payload_that_does_not_decode_is_a_decode_error() {
    let definition = greeter();
    let mut broken = command("GreetCommand", "World");
    broken.payload.as_mut().unwrap().data = vec![0x0a, 0x10, 1];
    let error = handle_command(&broken, &definition, &Vec::new()).err().unwrap();
    assert_eq!(error.kind, ErrorKind::Decode);
}

#[test]
fn sequence_numbers_continue_after_the_highest() {
    let payloads = vec![
        serialized_object("A", vec![1]),
        serialized_object("B", vec![2]),
        serialized_object("C", vec![]),
    ];
    let events = sequence_events("batch", "agg-1", "Greeter", 41, 99, &payloads);
    assert_eq!(events.len(), 3);
    for (i, event) in events.iter().enumerate() {
        assert_eq!(event.aggregate_sequence_number, 42 + i as i64);
        assert_eq!(event.message_identifier, "batch");
        assert_eq!(event.aggregate_identifier, "agg-1");
        assert_eq!(event.aggregate_type, "Greeter");
        assert_eq!(event.timestamp, 99);
        assert!(!event.snapshot);
        assert!(event.meta_data.is_empty());
        let payload = event.payload.as_ref().unwrap();
        assert_eq!(payload.object_type, payloads[i].object_type);
        assert_eq!(payload.data, payloads[i].data);
        assert_eq!(payload.revision, "");
    }
}

#[test]
fn first_append_starts_at_sequence_number_zero() {
    let events = sequence_events("batch", "agg-1", "Greeter", -1, 0, &vec![serialized_object("A", vec![])]);
    assert_eq!(events[0].aggregate_sequence_number, 0);
    assert!(sequence_events("batch", "agg-1", "Greeter", -1, 0, &Vec::new()).is_empty());
}

#[test]
fn successive_appends_leave_no_gap_and_no_repetition() {
    let first = sequence_events("a", "agg", "T", -1, 0, &vec![serialized_object("A", vec![]); 2]);
    let highest = first.last().unwrap().aggregate_sequence_number;
    let second = sequence_events("b", "agg", "T", highest, 0, &vec![serialized_object("B", vec![]); 3]);
    let numbers: Vec<i64> = first.iter().chain(second.iter()).map(|e| e.aggregate_sequence_number).collect();
    assert_eq!(numbers, vec![0, 1, 2, 3, 4]);
}

#[test]
fn sequence_numbers_reach_the_largest_one() {
    let events = sequence_events("a", "agg", "T", i64::MAX - 1, 0, &vec![serialized_object("A", vec![])]);
    assert_eq!(events[0].aggregate_sequence_number, i64::MAX);
}

#[test]
fn store_events_refuses_sequence_numbers_out_of_range() {
    let mut holder: Emitted = emit_applicable_events_and_response("xxx", "A", &Text::default()).unwrap();
    emit_applicable(&mut holder, "GreetedEvent", GreetedEvent { message: "a".to_string() }).unwrap();
    let error = store_events(&greeter(), &holder, i64::MAX, 7).unwrap_err();
    assert_eq!(error.kind, ErrorKind::AppendRejection);
    let batch = store_events(&greeter(), &holder, i64::MAX - 1, 7).unwrap();
    assert_eq!(batch[0].aggregate_sequence_number, i64::MAX);
}

#[test]
fn store_events_shares_one_fresh_identifier_in_a_batch() {
    let mut holder: Emitted = emit_applicable_events_and_response("agg-7", "A", &Text::default()).unwrap();
    emit_applicable(&mut holder, "GreetedEvent", GreetedEvent { message: "a".to_string() }).unwrap();
    emit_applicable(&mut holder, "GreetedEvent", GreetedEvent { message: "b".to_string() }).unwrap();
    let first = store_events(&greeter(), &holder, 4, 7).unwrap();
    let second = store_events(&greeter(), &holder, 4, 7).unwrap();
    assert_eq!(first.len(), 2);
    assert_eq!(first[0].message_identifier, first[1].message_identifier);
    assert!(has_identifier_shape(&first[0].message_identifier));
    assert_ne!(first[0].message_identifier, second[0].message_identifier);
    assert_eq!(first[0].aggregate_sequence_number, 5);
    assert_eq!(first[1].aggregate_sequence_number, 6);
    assert_eq!(first[1].aggregate_identifier, "agg-7");
    assert_eq!(decoded(first[1].payload.as_ref().unwrap()), "b");
}

#[test]
fn response_without_events_needs_no_append() {
    let definition = greeter();
    let handled = handle_command(&command("CountCommand", ""), &definition, &Vec::new());
    assert!(matches!(handled, Ok(Some(_))));
    assert!(!has_events_to_append(&handled));
    let refused: Result<(), DispatchError> = Err(DispatchError::new(ErrorKind::AppendRejection, "not asked"));
    let result = conclude_command("c".to_string(), handled, refused);
    assert!(matches!(result.result, Ok(Some(_))));
}

#[test]
fn append_rejection_becomes_the_commands_error() {
    let definition = greeter();
    let handled = handle_command(&command("GreetCommand", "World"), &definition, &Vec::new());
    let refused: Result<(), DispatchError> = Err(DispatchError::new(ErrorKind::AppendRejection, "sequence 0 is taken"));
    let result = conclude_command("command-9".to_string(), handled, refused);
    assert_eq!(result.message_identifier, "command-9");
    let response = command_response("r".to_string(), result);
    assert_eq!(response.error_code, "ERROR");
    assert_eq!(response.error_message.unwrap().message, "sequence 0 is taken");
    assert!(response.payload.is_none());
}

#[test]
fn concluded_command_carries_the_response_and_no_events() {
    let definition = greeter();
    let handled = handle_command(&command("GreetCommand", "World"), &definition, &Vec::new());
    let result = conclude_command("command-9".to_string(), handled, Ok(()));
    let concluded = result.result.unwrap().unwrap();
    assert_eq!(concluded.target_aggregate_identifier, "xxx");
    assert!(concluded.events.is_empty());
    assert_eq!(decoded(concluded.response.as_ref().unwrap()), "ACK! World");
}

#[test]
fn instructions_are_built_from_their_parts() {
    let subscribe = command_subscribe_instruction("i".to_string(), "m".to_string(), "client", "GreetCommand");
    assert_eq!(subscribe.instruction_id, "i");
    match subscribe.request {
        CommandInstruction::Subscribe(subscription) => {
            assert_eq!(subscription.message_id, "m");
            assert_eq!(subscription.command, "GreetCommand");
            assert_eq!(subscription.client_id, "client");
            assert_eq!(subscription.component_name, "client");
            assert_eq!(subscription.load_factor, 100);
        }
        other => panic!("unexpected {:?}", other),
    }
    let grant = command_flow_control_instruction("j".to_string(), "client", 3);
    assert_eq!(grant.instruction_id, "j");
    match grant.request {
        CommandInstruction::FlowControl(flow_control) => {
            assert_eq!(flow_control.client_id, "client");
            assert_eq!(flow_control.permits, 3);
        }
        other => panic!("unexpected {:?}", other),
    }
    let result = AxonCommandResult { message_identifier: "c".to_string(), result: Ok(None) };
    let reply = command_response_instruction("k".to_string(), command_response("r".to_string(), result));
    assert_eq!(reply.instruction_id, "k");
    assert_eq!(only_reply(&reply).request_identifier, "c");
}

#[test]
fn stream_opens_with_subscriptions_and_the_initial_grant() {
    let names = vec!["GreetCommand".to_string(), "RecordCommand".to_string(), "StopCommand".to_string()];
    let (stream, instructions) = create_output_stream("client-1".to_string(), &names);
    assert_eq!(stream.balance(), 6);
    assert_eq!(instructions.len(), 4);
    let mut identifiers = Vec::new();
    for (i, name) in names.iter().enumerate() {
        assert!(has_identifier_shape(&instructions[i].instruction_id));
        identifiers.push(instructions[i].instruction_id.clone());
        match &instructions[i].request {
            CommandInstruction::Subscribe(subscription) => {
                assert_eq!(&subscription.command, name);
                assert_eq!(subscription.client_id, "client-1");
                assert_eq!(subscription.component_name, "client-1");
                assert_eq!(subscription.load_factor, 100);
                assert!(has_identifier_shape(&subscription.message_id));
                identifiers.push(subscription.message_id.clone());
            }
            other => panic!("unexpected {:?}", other),
        }
    }
    assert!(has_identifier_shape(&instructions[3].instruction_id));
    identifiers.push(instructions[3].instruction_id.clone());
    match &instructions[3].request {
        CommandInstruction::FlowControl(flow_control) => {
            assert_eq!(flow_control.client_id, "client-1");
            assert_eq!(flow_control.permits, 6);
        }
        other => panic!("unexpected {:?}", other),
    }
    let mut unique = identifiers.clone();
    unique.sort();
    unique.dedup();
    assert_eq!(unique.len(), identifiers.len());
}

#[test]
fn stream_without_commands_opens_with_the_grant_alone() {
    let (_stream, instructions) = create_output_stream("client-1".to_string(), &Vec::new());
    assert_eq!(instructions.len(), 1);
    assert!(matches!(instructions[0].request, CommandInstruction::FlowControl(_)));
}

#[test]
fn flow_control() {
    let (mut stream, _opening) = create_output_stream("client-1".to_string(), &vec!["GreetCommand".to_string()]);
    let mut grants_after = Vec::new();
    for number in 1..=10 {
        let result = AxonCommandResult { message_identifier: format!("command-{}", number), result: Ok(None) };
        let instructions = stream.respond(result);
        let response = only_reply(&instructions[0]);
        assert_eq!(response.request_identifier, format!("command-{}", number));
        assert!(has_identifier_shape(&response.message_identifier));
        assert!(has_identifier_shape(&instructions[0].instruction_id));
        if instructions.len() == 2 {
            match &instructions[1].request {
                CommandInstruction::FlowControl(flow_control) => {
                    assert_eq!(flow_control.permits, 3);
                    assert_eq!(flow_control.client_id, "client-1");
                }
                other => panic!("unexpected {:?}", other),
            }
            grants_after.push(number);
        } else {
            assert_eq!(instructions.len(), 1);
        }
        assert!(stream.balance() > 0);
        assert!(stream.balance() <= 6);
    }
    assert_eq!(grants_after, vec![3, 6, 9]);
}

#[test]
fn stream_responds_with_the_error_of_a_failed_command() {
    let (mut stream, _opening) = create_output_stream("client-1".to_string(), &Vec::new());
    let result = AxonCommandResult {
        message_identifier: "command-1".to_string(),
        result: Err(DispatchError::new(ErrorKind::HandlerMissing, "GreetCommand")),
    };
    let instructions = stream.respond(result);
    let response = only_reply(&instructions[0]);
    assert_eq!(response.error_code, "ERROR");
    assert_eq!(response.error_message.as_ref().unwrap().message, "No handler for: GreetCommand");
    assert!(response.payload.is_none());
}

#[test]
fn stream_responds_with_the_payload_of_a_concluded_command() {
    let (mut stream, _opening) = create_output_stream("client-1".to_string(), &Vec::new());
    let holder: EmitEventsAndResponse =
        emit_events_and_response("xxx", "Acknowledgement", &Text { value: "done".to_string() }).unwrap();
    let result = AxonCommandResult { message_identifier: "command-1".to_string(), result: Ok(Some(holder)) };
    let instructions = stream.respond(result);
    let response = only_reply(&instructions[0]);
    assert_eq!(response.error_code, "");
    assert_eq!(decoded(response.payload.as_ref().unwrap()), "done");
}

#[test]
fn handler_sees_the_message_that_was_serialized() {
    fn echo(message: Text, _projection: &GreeterProjection) -> Result<Option<String>, String> {
        Ok(Some(message.value))
    }
    let mut registry: TheHandlerRegistry<GreeterProjection, String> = empty_handler_registry();
    registry.insert_with_output("Text", decode_text, echo).unwrap();
    for value in ["", "World", "Gr\u{fc}\u{df}e", "line\nbreak", "\u{1f600}"] {
        let object = axon_serialize("Text", &Text { value: value.to_string() }).unwrap();
        let handler = registry.get(&object.object_type).unwrap();
        let seen = handler.handle(object.data, &empty_projection()).unwrap();
        assert_eq!(seen, Some(value.to_string()));
    }
}
