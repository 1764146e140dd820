use dendrite::command_submit::{encode_for_submission, send_command, submit_command, submitted_object};
use dendrite::command_worker::VecU8Message;
use dendrite::errors::ErrorKind;
use dendrite::ids::has_identifier_shape;
use dendrite::messages::{QueryResponse, SerializedObject};
use dendrite::query_submit::{collect_payloads, send_query, submit_query};

struct Raw(Vec<u8>);

impl VecU8Message for Raw {
    fn encode_u8(&self, buf: &mut Vec<u8>) -> Result<(), String> {
        if self.0 == b"broken" {
            return Err("message is broken".to_string());
        }
        buf.extend_from_slice(&self.0);
        Ok(())
    }
}

fn response(payload: Option<&[u8]>) -> QueryResponse {
    QueryResponse {
        message_identifier: "r".to_string(),
        error_code: String::new(),
        error_message: None,
        payload: payload.map(|data| SerializedObject {
            object_type: "Hit".to_string(),
            revision: String::new(),
            data: data.to_vec(),
        }),
        request_identifier: "q".to_string(),
    }
}

#[test]
fn submitted_object_has_revision_one() {
    let object = submitted_object("GreetCommand", vec![1, 2]);
    assert_eq!(object.object_type, "GreetCommand");
    assert_eq!(object.revision, "1");
    assert_eq!(object.data, vec![1, 2]);
}

#[test]
fn message_is_encoded_for_submission() {
    let object = encode_for_submission("GreetCommand", &Raw(vec![5, 6, 7])).unwrap();
    assert_eq!(object.object_type, "GreetCommand");
    assert_eq!(object.revision, "1");
    assert_eq!(object.data, vec![5, 6, 7]);
    let error = encode_for_submission("GreetCommand", &Raw(b"broken".to_vec())).unwrap_err();
    assert_eq!(error.kind, ErrorKind::Encode);
    assert_eq!(error.detail, "message is broken");
}

#[test]
fn submitted_command_is_named_after_its_message() {
    let message = submitted_object("GreetCommand", vec![1, 2]);
    let command = submit_command("m-1".to_string(), "client-1", &message);
    assert_eq!(command.message_identifier, "m-1");
    assert_eq!(command.name, "GreetCommand");
    assert_eq!(command.client_id, "client-1");
    assert_eq!(command.component_name, "RustCommandClient");
    assert_eq!(command.timestamp, 0);
    assert!(command.meta_data.is_empty());
    let payload = command.payload.unwrap();
    assert_eq!(payload.object_type, "GreetCommand");
    assert_eq!(payload.revision, "1");
    assert_eq!(payload.data, vec![1, 2]);
}

#[test]
fn sent_command_gets_a_fresh_identifier() {
    let first = send_command("client-1", "GreetCommand", &Raw(vec![9])).unwrap();
    let second = send_command("client-1", "GreetCommand", &Raw(vec![9])).unwrap();
    assert!(has_identifier_shape(&first.message_identifier));
    assert!(has_identifier_shape(&second.message_identifier));
    assert_ne!(first.message_identifier, second.message_identifier);
    assert_eq!(first.name, "GreetCommand");
    assert_eq!(first.payload.unwrap().data, vec![9]);
    assert_eq!(send_command("c", "GreetCommand", &Raw(b"broken".to_vec())).unwrap_err().kind, ErrorKind::Encode);
}

#[test]
fn submitted_query_may_have_no_payload() {
    let bare = submit_query("m-1".to_string(), "client-1", "SearchQuery", None);
    assert_eq!(bare.message_identifier, "m-1");
    assert_eq!(bare.query, "SearchQuery");
    assert!(bare.payload.is_none());
    assert!(bare.response_type.is_none());
    assert_eq!(bare.client_id, "client-1");
    assert_eq!(bare.component_name, "RustCommandClient");
    assert_eq!(bare.timestamp, 0);
    let with = submit_query("m-2".to_string(), "client-1", "SearchQuery", Some(submitted_object("SearchQuery", vec![3])));
    assert_eq!(with.payload.unwrap().data, vec![3]);
}

#[test]
fn sent_query_gets_a_fresh_identifier() {
    let first = send_query("client-1", "SearchQuery", &Raw(vec![4, 4])).unwrap();
    let second = send_query("client-1", "SearchQuery", &Raw(vec![4, 4])).unwrap();
    assert!(has_identifier_shape(&first.message_identifier));
    assert_ne!(first.message_identifier, second.message_identifier);
    assert_eq!(first.query, "SearchQuery");
    let payload = first.payload.unwrap();
    assert_eq!(payload.object_type, "SearchQuery");
    assert_eq!(payload.revision, "1");
    assert_eq!(payload.data, vec![4, 4]);
    assert_eq!(send_query("c", "SearchQuery", &Raw(b"broken".to_vec())).unwrap_err().kind, ErrorKind::Encode);
}

#[test]
fn payloads_are_collected_in_order() {
    let responses = vec![response(Some(b"a")), response(Some(b"b")), response(Some(b"c"))];
    let payloads: Vec<Vec<u8>> = collect_payloads(&responses).into_iter().map(|p| p.data).collect();
    assert_eq!(payloads, vec![b"a".to_vec(), b"b".to_vec(), b"c".to_vec()]);
}

#[test]
fn empty_result_list_is_legal() {
    assert!(collect_payloads(&Vec::new()).is_empty());
    assert!(collect_payloads(&vec![response(None)]).is_empty());
}

#[test]
fn response_without_payload_adds_nothing() {
    let responses = vec![response(Some(b"a")), response(None), response(Some(b"c")), response(None)];
    let payloads: Vec<Vec<u8>> = collect_payloads(&responses).into_iter().map(|p| p.data).collect();
    assert_eq!(payloads, vec![b"a".to_vec(), b"c".to_vec()]);
}
