//! Reaching the server: its address, the identification of the client, and
//! what to do after each attempt to connect.

use crate::ids::{fresh_identifier, is_identifier};
use crate::messages::ClientIdentification;
use vstd::prelude::*;
use vstd::string::StringExecFns;

verus! {

/// The seconds to wait between two attempts to connect.
pub const CONNECT_RETRY_INTERVAL_SECS: u64 = 1;

/// The character of the decimal digit `digit`.
pub open spec fn digit_char(digit: nat) -> char
    recommends
        digit < 10,
{
    if digit == 0 {
        '0'
    } else if digit == 1 {
        '1'
    } else if digit == 2 {
        '2'
    } else if digit == 3 {
        '3'
    } else if digit == 4 {
        '4'
    } else if digit == 5 {
        '5'
    } else if digit == 6 {
        '6'
    } else if digit == 7 {
        '7'
    } else if digit == 8 {
        '8'
    } else {
        '9'
    }
}

/// The decimal notation of `number`, without leading zeros.
pub open spec fn decimal(number: nat) -> Seq<char>
    decreases number,
{
    if number < 10 {
        seq![digit_char(number)]
    } else {
        decimal(number / 10).push(digit_char(number % 10))
    }
}

/// The decimal digit `digit` as text.
fn digit_text(digit: u32) -> (text: &'static str)
    requires
        digit < 10,
    ensures
        text@ == seq![digit_char(digit as nat)],
{
    proof {
        reveal_strlit("0");
        reveal_strlit("1");
        reveal_strlit("2");
        reveal_strlit("3");
        reveal_strlit("4");
        reveal_strlit("5");
        reveal_strlit("6");
        reveal_strlit("7");
        reveal_strlit("8");
        reveal_strlit("9");
    }
    let text = if digit == 0 {
        "0"
    } else if digit == 1 {
        "1"
    } else if digit == 2 {
        "2"
    } else if digit == 3 {
        "3"
    } else if digit == 4 {
        "4"
    } else if digit == 5 {
        "5"
    } else if digit == 6 {
        "6"
    } else if digit == 7 {
        "7"
    } else if digit == 8 {
        "8"
    } else {
        "9"
    };
    assert(text@ =~= seq![digit_char(digit as nat)]);
    text
}

/// Appends the decimal notation of `number` to `text`.
fn append_decimal(text: &mut String, number: u32)
    ensures
        final(text)@ == old(text)@ + decimal(number as nat),
    decreases number,
{
    if number >= 10 {
        append_decimal(text, number / 10);
    }
    let ghost before = text@;
    text.append(digit_text(number % 10));
    proof {
        if number >= 10 {
            assert(text@ =~= old(text)@ + decimal((number / 10) as nat).push(digit_char((number % 10) as nat)));
        } else {
            assert(text@ =~= old(text)@ + seq![digit_char(number as nat)]);
        }
    }
}

/// The address of the server at `host` and `port`.
pub open spec fn url_of(host: Seq<char>, port: nat) -> Seq<char> {
    "http://"@ + host + ":"@ + decimal(port)
}

/// The address of the server at `host` and `port`.
pub fn server_url(host: &str, port: u32) -> (url: String)
    ensures
        url@ == url_of(host@, port as nat),
{
    let mut url = String::from_str("http://");
    url.append(host);
    url.append(":");
    append_decimal(&mut url, port);
    url
}

/// The name under which the client with the label `label` introduces
/// itself.
pub open spec fn component_name_of(label: Seq<char>) -> Seq<char> {
    "Rust client "@ + label
}

/// The name under which the client with the label `label` introduces
/// itself.
pub fn component_name(label: &str) -> (name: String)
    ensures
        name@ == component_name_of(label@),
{
    let mut name = String::from_str("Rust client ");
    name.append(label);
    name
}

/// The identification of the client `client_id` with the label `label`.
pub fn identification(client_id: String, label: &str) -> (identification: ClientIdentification)
    ensures
        identification.client_id == client_id,
        identification.component_name@ == component_name_of(label@),
{
    ClientIdentification { client_id, component_name: component_name(label) }
}

/// The identification of a client with the label `label`, under a fresh
/// client identifier.
pub fn client_identification(label: &str) -> (identification: ClientIdentification)
    ensures
        is_identifier(identification.client_id@),
        identification.component_name@ == component_name_of(label@),
{
    identification(fresh_identifier(), label)
}

/// How one attempt to connect ended.
#[derive(Clone, Copy, Debug, PartialEq, Eq, Structural)]
pub enum ConnectAttempt {
    /// The server could not be dialled.
    Unreachable,
    /// The server was dialled, but did not answer the identification.
    NotIdentified,
    /// The server was dialled and answered the identification.
    Identified,
}

/// What to do after an attempt to connect.
#[derive(Clone, Copy, Debug, PartialEq, Eq, Structural)]
pub enum ConnectAction {
    /// The connection stands: hand it out.
    Proceed,
    /// Wait this many seconds, then try again.
    RetryAfter(u64),
}

/// What to do after an attempt to connect that ended in `attempt`: the
/// connection is handed out once the server was dialled and has answered the
/// identification; after any failure the client waits and tries again,
/// however often it has failed.
pub open spec fn next_step(attempt: ConnectAttempt) -> ConnectAction {
    match attempt {
        ConnectAttempt::Identified => ConnectAction::Proceed,
        _ => ConnectAction::RetryAfter(CONNECT_RETRY_INTERVAL_SECS),
    }
}

/// What to do after an attempt to connect that ended in `attempt`.
pub fn after_attempt(attempt: ConnectAttempt) -> (action: ConnectAction)
    ensures
        action == next_step(attempt),
{
    match attempt {
        ConnectAttempt::Identified => ConnectAction::Proceed,
        _ => ConnectAction::RetryAfter(CONNECT_RETRY_INTERVAL_SECS),
    }
}

} // verus!
