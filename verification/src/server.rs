//! The service registry and what the listener does with each datagram.

use vstd::prelude::*;
use crate::envelope::{decoded, DecodeError, Envelope, UrpcRequest};
use crate::service::{ServiceError, UrpcService};
use crate::transport::{TransportError, MAX_DATAGRAM_SIZE};

verus! {

/// Why a registration or a lookup failed.
#[derive(Debug, Clone, Copy, PartialEq, Eq, Structural)]
pub enum RegistryError {
    /// A handler is already registered under the name.
    AlreadyRegistered,
    /// No handler is registered under the name.
    ServiceNotFound,
}

/// Why a datagram did not end in a successful call.
#[derive(Debug, PartialEq, Eq)]
pub enum RequestError {
    /// The datagram is longer than `MAX_DATAGRAM_SIZE`; it was dropped
    /// unread.
    Oversized,
    /// The datagram holds no envelope; it was dropped.
    Malformed(DecodeError),
    /// The envelope names a service that is not registered; it was dropped.
    ServiceNotFound,
    /// The handler was called and reported a failure.
    Handler(ServiceError),
}

/// Why one turn of the receive loop did not end in a successful call.
#[derive(Debug, PartialEq, Eq)]
pub enum TurnError {
    /// A datagram arrived and did not end in a successful call.
    Request(RequestError),
    /// No datagram arrived: the receive failed.
    Receive(TransportError),
}

/// What the receive loop does next.
#[derive(Debug, Clone, Copy, PartialEq, Eq, Structural)]
pub enum LoopAction {
    /// Wait for the next datagram.
    Continue,
    /// Leave the loop.
    Stop,
}

/// One turn of the receive loop: the request that arrived, if one did, how
/// the turn ended and what the loop does next.
#[derive(Debug, PartialEq, Eq)]
pub struct Turn {
    /// The request that the datagram held, for the record. `None` where no
    /// datagram came or the datagram held no request.
    pub request: Option<UrpcRequest>,
    pub outcome: Result<(), TurnError>,
    pub next: LoopAction,
}

/// The envelope that the listener reads from a datagram: none from one that
/// is longer than `MAX_DATAGRAM_SIZE`, none from one that holds none.
pub open spec fn accepted(packet: Seq<u8>) -> Option<Envelope> {
    if packet.len() > MAX_DATAGRAM_SIZE {
        None
    } else {
        match decoded(packet) {
            Ok(envelope) => Some(envelope),
            Err(_) => None,
        }
    }
}

/// Whether `request` is the record of `envelope`.
pub open spec fn records(request: Option<UrpcRequest>, envelope: Option<Envelope>) -> bool {
    match envelope {
        Some(e) => request matches Some(r) && r@ == e,
        None => request is None,
    }
}

/// Whether dispatching `envelope` may take the registry from `before` to
/// `after` and end with `result`.
///
/// Where the service is registered, its handler makes exactly one step, on
/// the envelope's own method and message, and `result` is what the handler
/// reported; every other entry stays as it is. Where it is not, nothing
/// changes and the result is `RequestError::ServiceNotFound`.
pub open spec fn dispatched<S: UrpcService>(
    before: Map<Seq<char>, S>,
    envelope: Envelope,
    after: Map<Seq<char>, S>,
    result: Result<(), RequestError>,
) -> bool {
    if before.contains_key(envelope.service) {
        &&& after == before.insert(envelope.service, after[envelope.service])
        &&& match result {
            Ok(_) => before[envelope.service].handled(
                envelope.method,
                envelope.message,
                &after[envelope.service],
                None,
            ),
            Err(RequestError::Handler(e)) => before[envelope.service].handled(
                envelope.method,
                envelope.message,
                &after[envelope.service],
                Some(e),
            ),
            _ => false,
        }
    } else {
        after == before && result == Err::<(), RequestError>(RequestError::ServiceNotFound)
    }
}

/// Whether the arrival of `packet` may take the registry from `before` to
/// `after` and end with `result`: a packet that is longer than
/// `MAX_DATAGRAM_SIZE` is refused unread, one that holds no envelope is
/// refused as malformed, and neither changes anything; any other is
/// dispatched.
pub open spec fn delivered<S: UrpcService>(
    before: Map<Seq<char>, S>,
    packet: Seq<u8>,
    after: Map<Seq<char>, S>,
    result: Result<(), RequestError>,
) -> bool {
    if packet.len() > MAX_DATAGRAM_SIZE {
        after == before && result == Err::<(), RequestError>(RequestError::Oversized)
    } else {
        match decoded(packet) {
            Err(e) => after == before && result == Err::<(), RequestError>(
                RequestError::Malformed(e),
            ),
            Ok(envelope) => dispatched(before, envelope, after, result),
        }
    }
}

/// What the loop does after a turn: it leaves only when a receive failed for
/// good.
pub open spec fn next_action(outcome: Result<(), TurnError>) -> LoopAction {
    match outcome {
        Err(TurnError::Receive(e)) if !e.is_transient() => LoopAction::Stop,
        _ => LoopAction::Continue,
    }
}

/// Whether one turn of the receive loop, on what the transport handed to
/// `buffer`, may take the registry from `before` to `after` and come to
/// `turn`.
pub open spec fn turned<S: UrpcService>(
    before: Map<Seq<char>, S>,
    buffer: Seq<u8>,
    received: Result<usize, TransportError>,
    after: Map<Seq<char>, S>,
    turn: Turn,
) -> bool {
    &&& turn.next == next_action(turn.outcome)
    &&& match received {
        Err(e) => after == before && turn.request is None && turn.outcome == Err::<
            (),
            TurnError,
        >(TurnError::Receive(e)),
        Ok(size) => records(turn.request, accepted(buffer.take(size as int))) && match turn.outcome {
            Ok(_) => delivered(before, buffer.take(size as int), after, Ok(())),
            Err(TurnError::Request(e)) => delivered(
                before,
                buffer.take(size as int),
                after,
                Err(e),
            ),
            Err(TurnError::Receive(_)) => false,
        },
    }
}

/// The server's registry: each registered name with its handler.
pub struct UrpcServer<S: UrpcService> {
    names: Vec<String>,
    handlers: Vec<S>,
}

impl<S: UrpcService> UrpcServer<S> {
    /// Every name has its handler, and no name stands twice.
    pub closed spec fn wf(&self) -> bool {
        &&& self.names.len() == self.handlers.len()
        &&& forall|i: int, j: int|
            0 <= i < j < self.names.len() ==> self.names[i]@ != self.names[j]@
    }

    /// Whether the name stands at the position.
    spec fn at(&self, name: Seq<char>, i: int) -> bool {
        0 <= i < self.names.len() && self.names[i]@ == name
    }

    /// The position of a registered name.
    spec fn position(&self, name: Seq<char>) -> int {
        choose|i: int| self.at(name, i)
    }

    /// A name that stands at a position stands nowhere else, and the handler
    /// there is the one that the registry maps it to.
    proof fn lemma_entry(&self, name: Seq<char>, i: int)
        requires
            self.wf(),
            self.at(name, i),
        ensures
            self.position(name) == i,
            self@.contains_key(name),
            self@[name] == self.handlers[i],
    {
        let p = self.position(name);
        assert(self.at(name, p));
        if p < i {
            assert(self.names[p]@ != self.names[i]@);
        } else if i < p {
            assert(self.names[i]@ != self.names[p]@);
        }
    }

    /// A registered name stands at its position.
    proof fn lemma_registered(&self, name: Seq<char>)
        requires
            self.wf(),
            self@.contains_key(name),
        ensures
            self.at(name, self.position(name)),
            self@[name] == self.handlers[self.position(name)],
    {
        let i = choose|i: int| self.at(name, i);
        assert(self.at(name, i));
    }
}

impl<S: UrpcService> View for UrpcServer<S> {
    type V = Map<Seq<char>, S>;

    /// The registry as a map from each registered name to its handler.
    closed spec fn view(&self) -> Map<Seq<char>, S> {
        Map::new(
            |name: Seq<char>| exists|i: int| self.at(name, i),
            |name: Seq<char>| self.handlers[self.position(name)],
        )
    }
}

impl<S: UrpcService> UrpcServer<S> {
    /// A server with no service registered.
    pub fn new() -> (server: UrpcServer<S>)
        ensures
            server.wf(),
            server@ == Map::<Seq<char>, S>::empty(),
    {
        let server = UrpcServer { names: Vec::new(), handlers: Vec::new() };
        assert(server@ =~= Map::<Seq<char>, S>::empty());
        server
    }

    /// The position of a name, if it is registered.
    fn find(&self, name: &String) -> (r: Option<usize>)
        requires
            self.wf(),
        ensures
            match r {
                Some(i) => self.at(name@, i as int) && self@.contains_key(name@) && self@[name@]
                    == self.handlers[i as int],
                None => !self@.contains_key(name@),
            },
    {
        let mut i: usize = 0;
        while i < self.names.len()
            invariant
                self.wf(),
                i <= self.names.len(),
                forall|j: int| 0 <= j < i ==> self.names[j]@ != name@,
            decreases self.names.len() - i,
        {
            if self.names[i] == *name {
                proof {
                    self.lemma_entry(name@, i as int);
                }
                return Some(i);
            }
            i += 1;
        }
        assert forall|j: int| !self.at(name@, j) by {}
        None
    }

    /// Whether a handler is registered under the name.
    pub fn is_registered(&self, name: &str) -> (b: bool)
        requires
            self.wf(),
        ensures
            b == self@.contains_key(name@),
    {
        let name = name.to_owned();
        self.find(&name).is_some()
    }

    /// The number of registered services.
    pub fn len(&self) -> (n: usize)
        requires
            self.wf(),
        ensures
            n == self@.dom().len(),
            self@.dom().finite(),
    {
        proof {
            self.lemma_domain_size(self.names.len() as int);
        }
        self.names.len()
    }

    /// The names at the first `n` positions are `n` names.
    proof fn lemma_domain_size(&self, n: int)
        requires
            self.wf(),
            0 <= n <= self.names.len(),
        ensures
            self.names_upto(n).finite(),
            self.names_upto(n).len() == n,
            n == self.names.len() ==> self.names_upto(n) == self@.dom(),
        decreases n,
    {
        if n == 0 {
            assert(self.names_upto(0) =~= Set::<Seq<char>>::empty());
        } else {
            self.lemma_domain_size(n - 1);
            let last = self.names[n - 1]@;
            assert(self.at(last, n - 1));
            assert(!self.names_upto(n - 1).contains(last)) by {
                if self.names_upto(n - 1).contains(last) {
                    let i = choose|i: int| 0 <= i < n - 1 && self.at(last, i);
                    assert(self.names[i]@ != self.names[n - 1]@);
                }
            }
            assert forall|name: Seq<char>| self.names_upto(n).contains(name) implies name == last
                || self.names_upto(n - 1).contains(name) by {
                let i = choose|i: int| 0 <= i < n && self.at(name, i);
                if i < n - 1 {
                    assert(0 <= i < n - 1 && self.at(name, i));
                }
            }
            assert forall|name: Seq<char>| self.names_upto(n - 1).contains(name) implies self.names_upto(
                n,
            ).contains(name) by {
                let i = choose|i: int| 0 <= i < n - 1 && self.at(name, i);
                assert(0 <= i < n && self.at(name, i));
            }
            assert(self.names_upto(n) =~= self.names_upto(n - 1).insert(last));
        }
        if n == self.names.len() {
            assert(self.names_upto(n) =~= self@.dom()) by {
                assert forall|name: Seq<char>| self@.dom().contains(name) implies self.names_upto(
                    n,
                ).contains(name) by {
                    let i = choose|i: int| self.at(name, i);
                    assert(self.at(name, i));
                }
            }
        }
    }

    /// The names at the first `n` positions.
    spec fn names_upto(&self, n: int) -> Set<Seq<char>> {
        Set::new(|name: Seq<char>| exists|i: int| 0 <= i < n && self.at(name, i))
    }

    /// Registers a handler under a name.
    ///
    /// A name that is already registered is refused and the registry stays as
    /// it is; any other name is added with its handler.
    pub fn register(&mut self, service_name: String, service: S) -> (r: Result<(), RegistryError>)
        requires
            old(self).wf(),
        ensures
            final(self).wf(),
            old(self)@.contains_key(service_name@) ==> r == Err::<(), RegistryError>(
                RegistryError::AlreadyRegistered,
            ) && final(self)@ == old(self)@,
            !old(self)@.contains_key(service_name@) ==> r == Ok::<(), RegistryError>(())
                && final(self)@ == old(self)@.insert(service_name@, service),
    {
        if self.find(&service_name).is_some() {
            return Err(RegistryError::AlreadyRegistered);
        }
        let ghost before = *self;
        let ghost n = self.names.len() as int;
        self.names.push(service_name);
        self.handlers.push(service);
        proof {
            assert forall|i: int, j: int| 0 <= i < j < self.names.len() implies self.names[i]@
                != self.names[j]@ by {
                if j == n {
                    assert(before.at(self.names[i]@, i));
                }
            }
            self.lemma_entry(service_name@, n);
            assert forall|name: Seq<char>| #[trigger] before@.dom().contains(name) implies self@.dom().contains(
                name,
            ) && self@[name] == before@[name] by {
                before.lemma_registered(name);
                let i = before.position(name);
                assert(self.at(name, i));
                self.lemma_entry(name, i);
            }
            assert forall|name: Seq<char>| #[trigger] self@.dom().contains(name) implies name
                == service_name@ || before@.dom().contains(name) by {
                self.lemma_registered(name);
                let k = self.position(name);
                if k < n {
                    assert(before.at(name, k));
                }
            }
            assert(self@ =~= before@.insert(service_name@, service));
        }
        Ok(())
    }

    /// The handler registered under a name.
    pub fn resolve(&self, name: &str) -> (r: Result<&S, RegistryError>)
        requires
            self.wf(),
        ensures
            match r {
                Ok(handler) => self@.contains_key(name@) && *handler == self@[name@],
                Err(e) => !self@.contains_key(name@) && e == RegistryError::ServiceNotFound,
            },
    {
        let name = name.to_owned();
        match self.find(&name) {
            Some(i) => Ok(&self.handlers[i]),
            None => Err(RegistryError::ServiceNotFound),
        }
    }

    /// Resolves the request's service and calls its handler, once, with the
    /// request's method and message.
    ///
    /// The handler is reached through the exclusive borrow of the registry,
    /// so no second call on it can run before this one has returned.
    pub fn dispatch(&mut self, request: UrpcRequest) -> (r: Result<(), RequestError>)
        requires
            old(self).wf(),
        ensures
            final(self).wf(),
            dispatched(old(self)@, request@, final(self)@, r),
    {
        let UrpcRequest { service, method, message } = request;
        let i = match self.find(&service) {
            Some(i) => i,
            None => {
                return Err(RequestError::ServiceNotFound);
            },
        };
        let ghost before = *self;
        let outcome = self.handlers[i].dispatch(method, message);
        proof {
            self.lemma_entry(service@, i as int);
            assert forall|name: Seq<char>| #[trigger]
                before@.dom().contains(name) && name != service@ implies self@[name]
                == before@[name] by {
                before.lemma_registered(name);
                self.lemma_entry(name, before.position(name));
            }
            assert forall|name: Seq<char>| #[trigger]
                self@.dom().contains(name) implies before@.dom().contains(name) by {
                self.lemma_registered(name);
                assert(before.at(name, self.position(name)));
            }
            assert forall|name: Seq<char>| #[trigger]
                before@.dom().contains(name) implies self@.dom().contains(name) by {
                before.lemma_registered(name);
                assert(self.at(name, before.position(name)));
            }
            assert(self@ =~= before@.insert(service@, self@[service@]));
        }
        match outcome {
            Ok(()) => Ok(()),
            Err(e) => Err(RequestError::Handler(e)),
        }
    }

    /// Handles one datagram and keeps a record of the request that it held.
    fn serve(&mut self, packet: &[u8]) -> (r: (Option<UrpcRequest>, Result<(), RequestError>))
        requires
            old(self).wf(),
        ensures
            final(self).wf(),
            records(r.0, accepted(packet@)),
            delivered(old(self)@, packet@, final(self)@, r.1),
    {
        if packet.len() > MAX_DATAGRAM_SIZE {
            return (None, Err(RequestError::Oversized));
        }
        match UrpcRequest::decode(packet) {
            Ok(request) => {
                let record = request.copy();
                let result = self.dispatch(request);
                (Some(record), result)
            },
            Err(e) => (None, Err(RequestError::Malformed(e))),
        }
    }

    /// Takes the first `size` bytes of a receive buffer as one datagram:
    /// decodes the envelope and dispatches it. A datagram that is longer
    /// than `MAX_DATAGRAM_SIZE`, holds no envelope or names a service that is
    /// not registered is dropped, and the registry stays as it is.
    pub fn handle_connection(&mut self, buf: &[u8], size: usize) -> (r: Result<(), RequestError>)
        requires
            old(self).wf(),
            size <= buf@.len(),
        ensures
            final(self).wf(),
            delivered(old(self)@, buf@.take(size as int), final(self)@, r),
    {
        let packet = vstd::slice::slice_subrange(buf, 0, size);
        assert(packet@ == buf@.take(size as int));
        self.serve(packet).1
    }

    /// One turn of the receive loop, on what the transport reported: a
    /// datagram of `size` bytes at the front of `buf`, or a failure.
    ///
    /// A datagram is handled and the loop goes on, whatever became of the
    /// datagram. A failed receive changes nothing; the loop goes on after a
    /// failure that passes and stops after any other.
    ///
    /// A buffer that is longer than `MAX_DATAGRAM_SIZE` lets the transport
    /// show that a datagram was longer still; such a datagram is refused.
    pub fn on_receive(&mut self, buf: &[u8], received: Result<usize, TransportError>) -> (turn:
        Turn)
        requires
            old(self).wf(),
            received matches Ok(size) ==> size <= buf@.len(),
        ensures
            final(self).wf(),
            turned(old(self)@, buf@, received, final(self)@, turn),
    {
        match received {
            Ok(size) => {
                let packet = vstd::slice::slice_subrange(buf, 0, size);
                assert(packet@ == buf@.take(size as int));
                let (request, result) = self.serve(packet);
                let outcome = match result {
                    Ok(()) => Ok(()),
                    Err(e) => Err(TurnError::Request(e)),
                };
                Turn { request, outcome, next: LoopAction::Continue }
            },
            Err(e) => {
                let next = if e.is_transient() {
                    LoopAction::Continue
                } else {
                    LoopAction::Stop
                };
                Turn { request: None, outcome: Err(TurnError::Receive(e)), next }
            },
        }
    }
}

} // verus!
