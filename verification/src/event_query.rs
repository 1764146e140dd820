//! The requests to the event store about one aggregate.

use crate::command_worker::contiguous_from;
use crate::messages::{Event, GetAggregateEventsRequest, ReadHighestSequenceNrRequest};
use vstd::prelude::*;
use vstd::string::StringExecFns;

verus! {

/// Whether `request` asks for all events of `aggregate_identifier`, from the
/// first sequence number on, without snapshots.
pub open spec fn is_aggregate_events_request(request: GetAggregateEventsRequest, aggregate_identifier: Seq<char>) -> bool {
    &&& request.aggregate_id@ == aggregate_identifier
    &&& request.initial_sequence == 0
    &&& !request.allow_snapshots
    &&& request.max_sequence == i64::MAX
    &&& request.min_token == 0
}

/// The request for all events of `aggregate_identifier`.
pub fn query_events(aggregate_identifier: &str) -> (request: GetAggregateEventsRequest)
    ensures
        is_aggregate_events_request(request, aggregate_identifier@),
{
    GetAggregateEventsRequest {
        aggregate_id: String::from_str(aggregate_identifier),
        initial_sequence: 0,
        allow_snapshots: false,
        max_sequence: i64::MAX,
        min_token: 0,
    }
}

/// The request for the highest sequence number of `aggregate_identifier`,
/// looking from the first sequence number on.
pub fn read_highest_sequence_nr(aggregate_identifier: &str) -> (request: ReadHighestSequenceNrRequest)
    ensures
        request.aggregate_id@ == aggregate_identifier@,
        request.from_sequence_nr == 0,
{
    ReadHighestSequenceNrRequest { aggregate_id: String::from_str(aggregate_identifier), from_sequence_nr: 0 }
}

/// Tells whether `events` is a history in sequence order: its sequence
/// numbers are 0, 1, 2 and so on, without gap or repetition.
pub fn is_history(events: &Vec<Event>) -> (ok: bool)
    ensures
        ok == contiguous_from(events@, 0),
{
    let mut i: usize = 0;
    while i < events.len()
        invariant
            i <= events@.len(),
            forall|j: int| 0 <= j < i ==> (#[trigger] events@[j]).aggregate_sequence_number == j,
        decreases events@.len() - i,
    {
        if i as u64 > i64::MAX as u64 || events[i].aggregate_sequence_number != i as i64 {
            assert(events@[i as int].aggregate_sequence_number != 0 + i);
            return false;
        }
        i += 1;
    }
    true
}

} // verus!
