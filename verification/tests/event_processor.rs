use bytes::Bytes;
use dendrite::errors::{DispatchError, ErrorKind};
use dendrite::event_processor::{
    create_output_stream, events_request, has_taken_event, initial_token, next_token_of, process_event,
    MemoryTokenStore, Processed, TokenStore, NO_TOKEN,
};
use dendrite::messages::{Event, EventWithToken, SerializedObject};
use dendrite::registry::{empty_handler_registry, TheHandlerRegistry};
use prost::DecodeError;
use std::collections::HashMap;

fn raw(bytes: Bytes) -> Result<Vec<u8>, DecodeError> {
    Ok(bytes.to_vec())
}

fn handle_greeted(data: Vec<u8>, _model: &MemoryTokenStore) -> Result<(), String> {
    if data == b"fail" {
        Err("projection is unavailable".to_string())
    } else {
        Ok(())
    }
}

fn registry() -> TheHandlerRegistry<MemoryTokenStore, Option<MemoryTokenStore>> {
    let mut registry = empty_handler_registry();
    registry.insert("GreetedEvent", raw, handle_greeted).unwrap();
    registry
}

fn message(token: i64, object_type: &str, data: &[u8]) -> EventWithToken {
    EventWithToken {
        token,
        event: Some(Event {
            message_identifier: format!("event-{}", token),
            aggregate_identifier: "xxx".to_string(),
            aggregate_sequence_number: token,
            aggregate_type: "GreeterProjection".to_string(),
            timestamp: 0,
            payload: Some(SerializedObject {
                object_type: object_type.to_string(),
                revision: String::new(),
                data: data.to_vec(),
            }),
            meta_data: HashMap::new(),
            snapshot: false,
        }),
    }
}

#[test]
fn token_of_a_processor_without_history_is_minus_one() {
    assert_eq!(NO_TOKEN, -1);
}

#[test]
fn first_token_follows_the_stored_one() {
    assert_eq!(initial_token(Ok(5)), 6);
    assert_eq!(initial_token(Ok(-1)), 0);
    assert_eq!(initial_token(Ok(i64::MAX - 1)), i64::MAX);
    assert_eq!(initial_token(Err("no token".to_string())), 0);
}

#[test]
fn first_token_is_read_from_the_store() {
    assert_eq!(next_token_of(&MemoryTokenStore { token: Some(5) }), Some(6));
    assert_eq!(next_token_of(&MemoryTokenStore { token: None }), Some(0));
    assert_eq!(next_token_of(&MemoryTokenStore { token: Some(i64::MAX) }), None);
}

#[test]
fn memory_store_holds_the_last_token() {
    let mut store = MemoryTokenStore { token: None };
    assert!(store.retrieve_token().is_err());
    store.store_token(3);
    assert_eq!(store.retrieve_token(), Ok(3));
    store.store_token(9);
    assert_eq!(store.retrieve_token(), Ok(9));
}

#[test]
fn request_names_the_processor() {
    let request = events_request("client-1", 6, 3);
    assert_eq!(request.tracking_token, 6);
    assert_eq!(request.number_of_permits, 3);
    assert_eq!(request.client_id, "client-1");
    assert_eq!(request.component_name, "Dendrite");
    assert_eq!(request.processor, "Event Processor");
    assert!(request.blacklist.is_empty());
    assert!(!request.force_read_from_leader);
}

#[test]
fn event_processor_resumes() {
    let mut model = MemoryTokenStore { token: Some(5) };
    let first = next_token_of(&model).unwrap();
    let (_stream, request) = create_output_stream("client-1".to_string(), first);
    assert_eq!(request.tracking_token, 6);
    assert_eq!(request.number_of_permits, 6);

    let registry = registry();
    for token in [6, 7, 8] {
        let result = process_event(&mut model, &registry, &message(token, "GreetedEvent", b"hello"));
        assert_eq!(result.unwrap(), Processed::Stored);
        assert_eq!(model.token, Some(token));
    }
    let halted = process_event(&mut model, &registry, &message(9, "GreetedEvent", b"fail"));
    let error = halted.unwrap_err();
    assert_eq!(error.kind, ErrorKind::HandlerFailure);
    assert_eq!(error.detail, "projection is unavailable");
    assert_eq!(model.token, Some(8));
}

#[test]
fn event_without_handler_is_passed_over_and_the_token_stays() {
    let mut model = MemoryTokenStore { token: None };
    let result = process_event(&mut model, &registry(), &message(0, "OtherEvent", b"fail"));
    assert!(has_taken_event(&result));
    assert_eq!(result.unwrap(), Processed::Skipped);
    assert_eq!(model.token, None);

    let mut resumed = MemoryTokenStore { token: Some(4) };
    let result = process_event(&mut resumed, &registry(), &message(5, "OtherEvent", b"ok"));
    assert_eq!(result.unwrap(), Processed::Skipped);
    assert_eq!(resumed.token, Some(4));
}

#[test]
fn event_without_payload_is_passed_over_and_the_token_stays() {
    let mut model = MemoryTokenStore { token: Some(1) };
    let mut bare = message(2, "GreetedEvent", b"fail");
    bare.event.as_mut().unwrap().payload = None;
    let result = process_event(&mut model, &registry(), &bare);
    assert!(has_taken_event(&result));
    assert_eq!(result.unwrap(), Processed::Skipped);
    assert_eq!(model.token, Some(1));
}

#[test]
fn token_advances_only_when_a_handler_succeeded() {
    let mut model = MemoryTokenStore { token: Some(2) };
    let registry = registry();
    let steps: Vec<(EventWithToken, Option<i64>)> = vec![
        (message(3, "OtherEvent", b"ok"), Some(2)),
        (message(4, "GreetedEvent", b"ok"), Some(4)),
        (message(5, "OtherEvent", b"ok"), Some(4)),
        (EventWithToken { token: 6, event: None }, Some(4)),
        (message(7, "GreetedEvent", b"ok"), Some(7)),
        (message(8, "GreetedEvent", b"fail"), Some(7)),
    ];
    for (step, expected) in steps {
        let before = model.token;
        let result = process_event(&mut model, &registry, &step);
        assert_eq!(model.token, expected);
        assert_eq!(model.token != before, matches!(result, Ok(Processed::Stored)));
    }
}

#[test]
fn only_an_event_that_was_taken_up_uses_a_permit() {
    assert!(has_taken_event(&Ok(Processed::Stored)));
    assert!(has_taken_event(&Ok(Processed::Skipped)));
    assert!(!has_taken_event(&Ok(Processed::Nothing)));
    assert!(!has_taken_event(&Err(DispatchError::new(ErrorKind::HandlerFailure, "failed"))));
}

#[test]
fn message_without_event_changes_nothing() {
    let mut model = MemoryTokenStore { token: Some(1) };
    let empty = EventWithToken { token: 2, event: None };
    let result = process_event(&mut model, &registry(), &empty);
    assert!(!has_taken_event(&result));
    assert_eq!(result.unwrap(), Processed::Nothing);
    assert_eq!(model.token, Some(1));
}

#[test]
fn token_never_moves_back_while_events_arrive_in_order() {
    let mut model = MemoryTokenStore { token: None };
    let registry = registry();
    let mut last = -1;
    for token in 0..20 {
        let data: &[u8] = if token == 13 { b"fail" } else { b"ok" };
        let result = process_event(&mut model, &registry, &message(token, "GreetedEvent", data));
        let now = model.token.unwrap_or(-1);
        assert!(now >= last);
        assert_eq!(now > last, result.is_ok());
        last = now;
        if result.is_err() {
            break;
        }
    }
    assert_eq!(model.token, Some(12));
}

#[test]
fn stream_opens_at_the_initial_token_with_twice_the_batch_size() {
    let (stream, request) = create_output_stream("client-1".to_string(), 0);
    assert_eq!(stream.balance(), 6);
    assert_eq!(request.tracking_token, 0);
    assert_eq!(request.number_of_permits, 6);
    assert_eq!(request.client_id, "client-1");
}

#[test]
fn stream_replenishes_after_every_third_event() {
    let (mut stream, _request) = create_output_stream("client-1".to_string(), 6);
    let mut grants_after = Vec::new();
    for number in 1..=9 {
        if let Some(request) = stream.processed() {
            assert_eq!(request.number_of_permits, 3);
            assert_eq!(request.tracking_token, 6);
            assert_eq!(request.client_id, "client-1");
            assert_eq!(request.processor, "Event Processor");
            grants_after.push(number);
        }
        assert!(stream.balance() > 0 && stream.balance() <= 6);
    }
    assert_eq!(grants_after, vec![3, 6, 9]);
}
