//! Submitting a command to the mesh.

use crate::command_worker::{always_encodes, is_encode_failure, VecU8Message};
use crate::errors::{DispatchError, ErrorKind};
use crate::ids::{fresh_identifier, is_identifier};
use crate::messages::{payload_view, Command, SerializedObject, SerializedObjectView};
use std::collections::HashMap;
use vstd::prelude::*;
use vstd::string::StringExecFns;

verus! {

/// Whether `object` carries `data` as a submitted message of type
/// `object_type`.
pub open spec fn is_submitted(object: SerializedObjectView, object_type: Seq<char>, data: Seq<u8>) -> bool {
    &&& object.object_type == object_type
    &&& object.revision == "1"@
    &&& object.data == data
}

/// Puts the encoded message `data` of type `object_type` into an envelope
/// for submission.
pub fn submitted_object(object_type: &str, data: Vec<u8>) -> (object: SerializedObject)
    ensures
        is_submitted(object@, object_type@, data@),
{
    SerializedObject { object_type: String::from_str(object_type), revision: String::from_str("1"), data }
}

/// Encodes `message` and puts the bytes into an envelope for submission.
/// Fails where the message does not encode.
pub fn encode_for_submission<M: VecU8Message>(object_type: &str, message: &M) -> (result: Result<SerializedObject, DispatchError>)
    ensures
        match result {
            Ok(object) => message.encodes(object.data@) && is_submitted(object@, object_type@, object.data@),
            Err(error) => is_encode_failure(message, error),
        },
        always_encodes(message) ==> result.is_ok(),
{
    let mut buf: Vec<u8> = Vec::new();
    match message.encode_u8(&mut buf) {
        Ok(_) => {
            assert(buf@.subrange(0, buf@.len() as int) =~= buf@);
            Ok(submitted_object(object_type, buf))
        },
        Err(text) => Err(DispatchError { kind: ErrorKind::Encode, detail: text }),
    }
}

/// Whether `command` submits `message` in the name of `client_id`, under
/// the identifier `message_identifier`: it is named after the type of the
/// message and carries the message as its payload.
pub open spec fn submits_command(
    command: Command,
    message_identifier: Seq<char>,
    client_id: Seq<char>,
    message: SerializedObjectView,
) -> bool {
    &&& command.message_identifier@ == message_identifier
    &&& command.name@ == message.object_type
    &&& payload_view(command.payload) == Some(message)
    &&& command.client_id@ == client_id
    &&& command.component_name@ == "RustCommandClient"@
    &&& command.meta_data@ == Map::<String, String>::empty()
    &&& command.timestamp == 0
}

/// The command that submits `message` in the name of `client_id`, under the
/// identifier `message_identifier`.
pub fn submit_command(message_identifier: String, client_id: &str, message: &SerializedObject) -> (command: Command)
    ensures
        submits_command(command, message_identifier@, client_id@, message@),
{
    Command {
        message_identifier,
        name: message.object_type.clone(),
        timestamp: 0,
        payload: Some(message.clone()),
        meta_data: HashMap::new(),
        client_id: String::from_str(client_id),
        component_name: String::from_str("RustCommandClient"),
    }
}

/// Makes the command that submits `command`, a message of type
/// `command_type`, in the name of `client_id`, under a fresh identifier.
/// Fails where the message does not encode.
pub fn send_command<M: VecU8Message>(client_id: &str, command_type: &str, command: &M) -> (result: Result<Command, DispatchError>)
    ensures
        match result {
            Ok(submitted) => {
                &&& is_identifier(submitted.message_identifier@)
                &&& submitted.payload matches Some(payload)
                &&& command.encodes(payload.data@)
                &&& is_submitted(payload@, command_type@, payload.data@)
                &&& submits_command(submitted, submitted.message_identifier@, client_id@, payload@)
            },
            Err(error) => is_encode_failure(command, error),
        },
        always_encodes(command) ==> result.is_ok(),
{
    match encode_for_submission(command_type, command) {
        Ok(message) => Ok(submit_command(fresh_identifier(), client_id, &message)),
        Err(error) => Err(error),
    }
}

} // verus!
