//! What holds of the library as a whole, proved from the contracts of its
//! functions.

use vstd::prelude::*;
use crate::client::DeliveryView;
use crate::envelope::{decoded, envelope_of, member, members_of, DecodeError, Envelope, Field};
use crate::server::{
    accepted, delivered, dispatched, records, turned, LoopAction, RequestError, Turn, TurnError,
};
use crate::service::{ServiceError, UrpcService};
use crate::transport::{TransportError, MAX_DATAGRAM_SIZE};

verus! {

/// The failure that a request's result reports of the handler, if any.
pub open spec fn handler_failure(result: Result<(), RequestError>) -> Option<ServiceError> {
    match result {
        Err(RequestError::Handler(e)) => Some(e),
        _ => None,
    }
}

/// The failure that a turn's outcome reports of the handler, if any.
pub open spec fn turn_failure(outcome: Result<(), TurnError>) -> Option<ServiceError> {
    match outcome {
        Err(TurnError::Request(RequestError::Handler(e))) => Some(e),
        _ => None,
    }
}

/// A request for a registered service reaches that service's handler in one
/// call, with the request's own method and message; the result is the
/// handler's, and no other entry of the registry changes.
pub proof fn lemma_dispatch_calls_handler_once<S: UrpcService>(
    before: Map<Seq<char>, S>,
    envelope: Envelope,
    after: Map<Seq<char>, S>,
    result: Result<(), RequestError>,
)
    requires
        before.contains_key(envelope.service),
        dispatched(before, envelope, after, result),
    ensures
        before[envelope.service].handled(
            envelope.method,
            envelope.message,
            &after[envelope.service],
            handler_failure(result),
        ),
        result is Ok || result matches Err(RequestError::Handler(_)),
        after.dom() == before.dom(),
        forall|other: Seq<char>|
            before.contains_key(other) && other != envelope.service ==> after[other]
                == before[other],
{
    assert(after.dom() =~= before.dom());
}

/// A datagram that holds no envelope is dropped: the registry stays as it
/// is, the result says why, and every later datagram is handled as if this
/// one had never come.
pub proof fn lemma_malformed_packet_is_dropped<S: UrpcService>(
    before: Map<Seq<char>, S>,
    packet: Seq<u8>,
    after: Map<Seq<char>, S>,
    result: Result<(), RequestError>,
)
    requires
        decoded(packet) is Err,
        delivered(before, packet, after, result),
    ensures
        after == before,
        packet.len() <= MAX_DATAGRAM_SIZE ==> result == Err::<(), RequestError>(
            RequestError::Malformed(decoded(packet)->Err_0),
        ),
        packet.len() > MAX_DATAGRAM_SIZE ==> result == Err::<(), RequestError>(
            RequestError::Oversized,
        ),
        forall|later: Seq<u8>, end: Map<Seq<char>, S>, outcome: Result<(), RequestError>|
            delivered(after, later, end, outcome) <==> delivered(before, later, end, outcome),
{
}

/// A datagram for a service that is not registered is dropped: the registry
/// stays as it is, the result says that the service was not found, and every
/// later datagram is handled as if this one had never come.
pub proof fn lemma_unknown_service_is_dropped<S: UrpcService>(
    before: Map<Seq<char>, S>,
    packet: Seq<u8>,
    after: Map<Seq<char>, S>,
    result: Result<(), RequestError>,
)
    requires
        decoded(packet) matches Ok(envelope) && !before.contains_key(envelope.service),
        delivered(before, packet, after, result),
    ensures
        after == before,
        packet.len() <= MAX_DATAGRAM_SIZE ==> result == Err::<(), RequestError>(
            RequestError::ServiceNotFound,
        ),
        packet.len() > MAX_DATAGRAM_SIZE ==> result == Err::<(), RequestError>(
            RequestError::Oversized,
        ),
        forall|later: Seq<u8>, end: Map<Seq<char>, S>, outcome: Result<(), RequestError>|
            delivered(after, later, end, outcome) <==> delivered(before, later, end, outcome),
{
}

/// A datagram that is longer than `MAX_DATAGRAM_SIZE` reaches no handler,
/// whatever it holds: it is refused unread and the registry stays as it is.
pub proof fn lemma_oversized_packet_is_refused<S: UrpcService>(
    before: Map<Seq<char>, S>,
    packet: Seq<u8>,
    after: Map<Seq<char>, S>,
    result: Result<(), RequestError>,
)
    requires
        packet.len() > MAX_DATAGRAM_SIZE,
        delivered(before, packet, after, result),
    ensures
        after == before,
        result == Err::<(), RequestError>(RequestError::Oversized),
{
}

/// The receive loop goes on after every datagram, whatever became of it: a
/// datagram that is too long or malformed, an unknown service and a
/// handler's failure stop nothing. It stops only after a failed receive that
/// does not pass, and a failed receive changes nothing.
pub proof fn lemma_loop_survives_every_datagram<S: UrpcService>(
    before: Map<Seq<char>, S>,
    buffer: Seq<u8>,
    received: Result<usize, TransportError>,
    after: Map<Seq<char>, S>,
    turn: Turn,
)
    requires
        turned(before, buffer, received, after, turn),
    ensures
        received is Ok ==> turn.next == LoopAction::Continue,
        turn.next == LoopAction::Stop <==> (received matches Err(e) && !e.is_transient()),
        received is Err ==> after == before,
{
}

/// A turn of the receive loop on a datagram that fits and holds a request
/// for a registered service: the handler of that service is called once,
/// with the request's own method and message, the turn records the request
/// and reports what the handler reported, no other entry changes, and the
/// loop goes on.
pub proof fn lemma_loop_serves_a_request<S: UrpcService>(
    before: Map<Seq<char>, S>,
    buffer: Seq<u8>,
    size: usize,
    after: Map<Seq<char>, S>,
    turn: Turn,
    envelope: Envelope,
)
    requires
        turned(before, buffer, Ok(size), after, turn),
        accepted(buffer.take(size as int)) == Some(envelope),
        before.contains_key(envelope.service),
    ensures
        before[envelope.service].handled(
            envelope.method,
            envelope.message,
            &after[envelope.service],
            turn_failure(turn.outcome),
        ),
        turn.outcome is Ok || turn.outcome matches Err(
            TurnError::Request(RequestError::Handler(_)),
        ),
        records(turn.request, Some(envelope)),
        turn.next == LoopAction::Continue,
        after.dom() == before.dom(),
        forall|other: Seq<char>|
            before.contains_key(other) && other != envelope.service ==> after[other]
                == before[other],
{
    assert(after.dom() =~= before.dom());
}

/// A turn of the receive loop on a datagram that is longer than
/// `MAX_DATAGRAM_SIZE`: no handler is called, whatever the datagram holds,
/// the turn reports the datagram as oversized and records no request, and
/// the loop goes on.
pub proof fn lemma_loop_refuses_an_oversized_datagram<S: UrpcService>(
    before: Map<Seq<char>, S>,
    buffer: Seq<u8>,
    size: usize,
    after: Map<Seq<char>, S>,
    turn: Turn,
)
    requires
        turned(before, buffer, Ok(size), after, turn),
        size > MAX_DATAGRAM_SIZE,
        size <= buffer.len(),
    ensures
        after == before,
        turn.outcome == Err::<(), TurnError>(TurnError::Request(RequestError::Oversized)),
        turn.request is None,
        turn.next == LoopAction::Continue,
{
}

/// The receive loop after a datagram that holds no envelope: that turn
/// calls no handler and the loop goes on; the next datagram, a request for
/// a registered service, is served as if the malformed one had never come.
pub proof fn lemma_loop_serves_after_a_malformed_datagram<S: UrpcService>(
    start: Map<Seq<char>, S>,
    bad_buffer: Seq<u8>,
    bad_size: usize,
    between: Map<Seq<char>, S>,
    bad_turn: Turn,
    good_buffer: Seq<u8>,
    good_size: usize,
    end: Map<Seq<char>, S>,
    good_turn: Turn,
    envelope: Envelope,
)
    requires
        decoded(bad_buffer.take(bad_size as int)) is Err,
        turned(start, bad_buffer, Ok(bad_size), between, bad_turn),
        turned(between, good_buffer, Ok(good_size), end, good_turn),
        accepted(good_buffer.take(good_size as int)) == Some(envelope),
        start.contains_key(envelope.service),
    ensures
        between == start,
        bad_turn.outcome matches Err(TurnError::Request(e)) && (e == RequestError::Oversized
            || e matches RequestError::Malformed(_)),
        bad_turn.request is None,
        bad_turn.next == LoopAction::Continue,
        start[envelope.service].handled(
            envelope.method,
            envelope.message,
            &end[envelope.service],
            turn_failure(good_turn.outcome),
        ),
        records(good_turn.request, Some(envelope)),
        good_turn.next == LoopAction::Continue,
        forall|other: Seq<char>|
            start.contains_key(other) && other != envelope.service ==> end[other] == start[other],
{
    lemma_loop_serves_a_request(between, good_buffer, good_size, end, good_turn, envelope);
}

/// The receive loop after a datagram for a service that is not registered:
/// that turn calls no handler and the loop goes on; the next datagram, a
/// request for a registered service, is served as if the other had never
/// come.
pub proof fn lemma_loop_serves_after_an_unknown_service<S: UrpcService>(
    start: Map<Seq<char>, S>,
    stray_buffer: Seq<u8>,
    stray_size: usize,
    between: Map<Seq<char>, S>,
    stray_turn: Turn,
    stray: Envelope,
    good_buffer: Seq<u8>,
    good_size: usize,
    end: Map<Seq<char>, S>,
    good_turn: Turn,
    envelope: Envelope,
)
    requires
        accepted(stray_buffer.take(stray_size as int)) == Some(stray),
        !start.contains_key(stray.service),
        turned(start, stray_buffer, Ok(stray_size), between, stray_turn),
        turned(between, good_buffer, Ok(good_size), end, good_turn),
        accepted(good_buffer.take(good_size as int)) == Some(envelope),
        start.contains_key(envelope.service),
    ensures
        between == start,
        stray_turn.outcome == Err::<(), TurnError>(
            TurnError::Request(RequestError::ServiceNotFound),
        ),
        stray_turn.next == LoopAction::Continue,
        start[envelope.service].handled(
            envelope.method,
            envelope.message,
            &end[envelope.service],
            turn_failure(good_turn.outcome),
        ),
        records(good_turn.request, Some(envelope)),
        good_turn.next == LoopAction::Continue,
        forall|other: Seq<char>|
            start.contains_key(other) && other != envelope.service ==> end[other] == start[other],
{
    lemma_loop_serves_a_request(between, good_buffer, good_size, end, good_turn, envelope);
}

/// Two datagrams for one service, one turn of the receive loop after the
/// other: the handler is called once for each, in the order of arrival, and
/// the second call starts from the handler that the first call left.
pub proof fn lemma_loop_serves_one_service_in_order<S: UrpcService>(
    start: Map<Seq<char>, S>,
    first_buffer: Seq<u8>,
    first_size: usize,
    between: Map<Seq<char>, S>,
    first_turn: Turn,
    first: Envelope,
    second_buffer: Seq<u8>,
    second_size: usize,
    end: Map<Seq<char>, S>,
    second_turn: Turn,
    second: Envelope,
)
    requires
        turned(start, first_buffer, Ok(first_size), between, first_turn),
        accepted(first_buffer.take(first_size as int)) == Some(first),
        turned(between, second_buffer, Ok(second_size), end, second_turn),
        accepted(second_buffer.take(second_size as int)) == Some(second),
        start.contains_key(first.service),
        second.service == first.service,
    ensures
        start[first.service].handled(
            first.method,
            first.message,
            &between[first.service],
            turn_failure(first_turn.outcome),
        ),
        between[first.service].handled(
            second.method,
            second.message,
            &end[first.service],
            turn_failure(second_turn.outcome),
        ),
        first_turn.next == LoopAction::Continue,
        second_turn.next == LoopAction::Continue,
{
    lemma_loop_serves_a_request(start, first_buffer, first_size, between, first_turn, first);
    assert(between.contains_key(first.service));
    lemma_loop_serves_a_request(between, second_buffer, second_size, end, second_turn, second);
}

/// Two requests for one service reach its handler one after the other: the
/// second call starts from the handler that the first call left.
pub proof fn lemma_calls_on_one_service_follow_each_other<S: UrpcService>(
    start: Map<Seq<char>, S>,
    first: Envelope,
    between: Map<Seq<char>, S>,
    first_result: Result<(), RequestError>,
    second: Envelope,
    end: Map<Seq<char>, S>,
    second_result: Result<(), RequestError>,
)
    requires
        start.contains_key(first.service),
        second.service == first.service,
        dispatched(start, first, between, first_result),
        dispatched(between, second, end, second_result),
    ensures
        start[first.service].handled(
            first.method,
            first.message,
            &between[first.service],
            handler_failure(first_result),
        ),
        between[first.service].handled(
            second.method,
            second.message,
            &end[first.service],
            handler_failure(second_result),
        ),
{
    assert(between.contains_key(first.service));
}

/// A request for one service leaves the handler of every other service as
/// it was.
pub proof fn lemma_services_are_independent<S: UrpcService>(
    before: Map<Seq<char>, S>,
    envelope: Envelope,
    after: Map<Seq<char>, S>,
    result: Result<(), RequestError>,
    other: Seq<char>,
)
    requires
        dispatched(before, envelope, after, result),
        other != envelope.service,
    ensures
        before.contains_key(other) <==> after.contains_key(other),
        before.contains_key(other) ==> after[other] == before[other],
{
    if before.contains_key(envelope.service) {
        assert(after.dom() =~= before.dom());
    }
}

/// The keys of the three fields differ from each other.
pub proof fn lemma_field_keys_differ()
    ensures
        Field::Service.key() != Field::Method.key(),
        Field::Service.key() != Field::Message.key(),
        Field::Method.key() != Field::Message.key(),
{
    reveal_strlit("service");
    reveal_strlit("method");
    reveal_strlit("message");
    assert("service"@.len() == 7 && "method"@.len() == 6 && "message"@.len() == 7);
    assert("service"@[0] == 's' && "message"@[0] == 'm');
}

/// Among members whose keys all differ, a key has the value of the member
/// that bears it.
pub proof fn lemma_member_among_distinct_keys(
    members: Seq<(Seq<char>, Option<Seq<char>>)>,
    i: int,
)
    requires
        0 <= i < members.len(),
        forall|a: int, b: int| 0 <= a < b < members.len() ==> members[a].0 != members[b].0,
    ensures
        member(members, members[i].0) == Some(members[i].1),
    decreases members.len(),
{
    if i > 0 {
        let rest = members.drop_first();
        assert(members[0].0 != members[i].0);
        assert(rest[i - 1] == members[i]);
        assert forall|a: int, b: int| 0 <= a < b < rest.len() implies rest[a].0 != rest[b].0 by {
            assert(rest[a] == members[a + 1] && rest[b] == members[b + 1]);
        }
        lemma_member_among_distinct_keys(rest, i - 1);
    }
}

/// What `encode` writes, `decode` reads: the three members that are written
/// for an envelope, read back as strings in whatever order and among
/// whatever other members, as long as no key stands twice, make that
/// envelope again.
pub proof fn lemma_written_members_read_back(
    envelope: Envelope,
    read: Seq<(Seq<char>, Option<Seq<char>>)>,
)
    requires
        forall|a: int, b: int| 0 <= a < b < read.len() ==> read[a].0 != read[b].0,
        forall|k: int|
            0 <= k < 3 ==> exists|i: int|
                0 <= i < read.len() && read[i] == (
                    (#[trigger] members_of(envelope)[k]).0,
                    Some(members_of(envelope)[k].1),
                ),
    ensures
        envelope_of(read) == Ok::<Envelope, DecodeError>(envelope),
{
    let written = members_of(envelope);
    assert(written[0] == (Field::Service.key(), envelope.service));
    assert(written[1] == (Field::Method.key(), envelope.method));
    assert(written[2] == (Field::Message.key(), envelope.message));
    let s = choose|i: int| 0 <= i < read.len() && read[i] == (written[0].0, Some(written[0].1));
    let m = choose|i: int| 0 <= i < read.len() && read[i] == (written[1].0, Some(written[1].1));
    let a = choose|i: int| 0 <= i < read.len() && read[i] == (written[2].0, Some(written[2].1));
    lemma_member_among_distinct_keys(read, s);
    lemma_member_among_distinct_keys(read, m);
    lemma_member_among_distinct_keys(read, a);
}

/// The members that are written for an envelope, each read as a string.
pub open spec fn read_as_written(envelope: Envelope) -> Seq<(Seq<char>, Option<Seq<char>>)> {
    members_of(envelope).map_values(|m: (Seq<char>, Seq<char>)| (m.0, Some(m.1)))
}

/// The members that are written for an envelope, read back in the order in
/// which they were written, make that envelope again.
pub proof fn lemma_envelope_members_read_back(envelope: Envelope)
    ensures
        envelope_of(read_as_written(envelope)) == Ok::<Envelope, DecodeError>(
            envelope,
        ),
{
    let read = read_as_written(envelope);
    lemma_field_keys_differ();
    assert(read.len() == 3);
    assert(read[0] == (members_of(envelope)[0].0, Some(members_of(envelope)[0].1)));
    assert(read[1] == (members_of(envelope)[1].0, Some(members_of(envelope)[1].1)));
    assert(read[2] == (members_of(envelope)[2].0, Some(members_of(envelope)[2].1)));
    lemma_written_members_read_back(envelope, read);
}

/// Recording attempts one after the other appends them to the account and
/// leaves the datagram and the number of recipients as they were.
pub proof fn lemma_record_all(start: DeliveryView, outcomes: Seq<Option<TransportError>>)
    ensures
        start.record_all(outcomes).outcomes == start.outcomes + outcomes,
        start.record_all(outcomes).total == start.total,
        start.record_all(outcomes).datagram == start.datagram,
    decreases outcomes.len(),
{
    if outcomes.len() == 0 {
        assert(start.outcomes + outcomes =~= start.outcomes);
    } else {
        lemma_record_all(start.record(outcomes[0]), outcomes.drop_first());
        assert(start.outcomes.push(outcomes[0]) + outcomes.drop_first() =~= start.outcomes
            + outcomes);
    }
}

/// A fan-out to `total` recipients makes exactly `total` attempts, one for
/// each recipient in turn: whatever the earlier attempts came to, failures
/// included, the next recipient is asked for, and after the last one none
/// is.
pub proof fn lemma_fan_out_attempts_every_recipient(
    datagram: Seq<u8>,
    total: nat,
    outcomes: Seq<Option<TransportError>>,
)
    requires
        outcomes.len() == total,
    ensures
        forall|k: int|
            0 <= k < total ==> (#[trigger] DeliveryView::fresh(datagram, total).record_all(
                outcomes.take(k),
            )).pending() == Some(k as nat),
        DeliveryView::fresh(datagram, total).record_all(outcomes).pending() is None,
        DeliveryView::fresh(datagram, total).record_all(outcomes).outcomes == outcomes,
{
    let first = DeliveryView::fresh(datagram, total);
    assert forall|k: int| 0 <= k < total implies (#[trigger] first.record_all(
        outcomes.take(k),
    )).pending() == Some(k as nat) by {
        lemma_record_all(first, outcomes.take(k));
    }
    lemma_record_all(first, outcomes);
    assert(first.outcomes + outcomes =~= outcomes);
}

} // verus!
