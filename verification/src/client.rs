//! The client: it makes the datagram for a call and keeps the account of its
//! fan-out to the recipients.

use vstd::prelude::*;
use crate::envelope::{encoded, Envelope, UrpcRequest};
use crate::transport::{TransportError, MAX_DATAGRAM_SIZE};

verus! {

/// Why a call was not sent to anybody.
#[derive(Debug, Clone, Copy, PartialEq, Eq, Structural)]
pub enum SendError {
    /// The datagram would be longer than `MAX_DATAGRAM_SIZE`: no listener
    /// could read it whole.
    Oversized,
}

/// Why a client could not be made.
#[derive(Debug, Clone, Copy, PartialEq, Eq, Structural)]
pub enum ClientError {
    /// The recipient at this position of the list has no valid address.
    InvalidAddress(usize),
}

/// What a transmission reports, as an optional failure.
pub open spec fn failed(outcome: Result<(), TransportError>) -> Option<TransportError> {
    match outcome {
        Ok(_) => None,
        Err(e) => Some(e),
    }
}

/// A fan-out as mathematics: the datagram, the number of recipients and what
/// each attempt so far came to, in the recipients' order (`None` for a
/// datagram that was handed to the transport).
pub struct DeliveryView {
    pub datagram: Seq<u8>,
    pub total: nat,
    pub outcomes: Seq<Option<TransportError>>,
}

impl DeliveryView {
    /// The fan-out of a datagram to `total` recipients before any attempt.
    pub open spec fn fresh(datagram: Seq<u8>, total: nat) -> DeliveryView {
        DeliveryView { datagram, total, outcomes: Seq::empty() }
    }

    /// The recipient whose turn it is, while there is one.
    pub open spec fn pending(self) -> Option<nat> {
        if self.outcomes.len() < self.total {
            Some(self.outcomes.len())
        } else {
            None
        }
    }

    /// The fan-out after one more attempt came to `outcome`.
    pub open spec fn record(self, outcome: Option<TransportError>) -> DeliveryView {
        DeliveryView { outcomes: self.outcomes.push(outcome), ..self }
    }

    /// The fan-out after the attempts in `outcomes` were made, one after the
    /// other.
    pub open spec fn record_all(self, outcomes: Seq<Option<TransportError>>) -> DeliveryView
        decreases outcomes.len(),
    {
        if outcomes.len() == 0 {
            self
        } else {
            self.record(outcomes[0]).record_all(outcomes.drop_first())
        }
    }
}

/// Whether `failures` is the report of `outcomes`: it names, in rising
/// order, exactly the recipients whose attempt failed, each with its failure.
pub open spec fn reports(
    failures: Seq<(usize, TransportError)>,
    outcomes: Seq<Option<TransportError>>,
) -> bool {
    &&& forall|k: int|
        0 <= k < failures.len() ==> (#[trigger] failures[k]).0 < outcomes.len()
            && outcomes[failures[k].0 as int] == Some(failures[k].1)
    &&& forall|j: int, k: int|
        0 <= j < k < failures.len() ==> (#[trigger] failures[j]).0 < (#[trigger] failures[k]).0
    &&& forall|i: int|
        0 <= i < outcomes.len() && (#[trigger] outcomes[i]) is Some ==> exists|k: int|
            0 <= k < failures.len() && (#[trigger] failures[k]).0 == i
}

/// One call's fan-out in progress.
///
/// The program around the library asks for the next recipient, hands the
/// datagram to the transport and records what the transport said, until no
/// recipient is left. A failure is recorded like a success: it ends nothing.
#[derive(Debug)]
pub struct Delivery {
    datagram: Vec<u8>,
    total: usize,
    outcomes: Vec<Option<TransportError>>,
}

impl View for Delivery {
    type V = DeliveryView;

    closed spec fn view(&self) -> DeliveryView {
        DeliveryView {
            datagram: self.datagram@,
            total: self.total as nat,
            outcomes: self.outcomes@,
        }
    }
}

impl Delivery {
    /// No more attempts are recorded than there are recipients.
    pub open spec fn wf(&self) -> bool {
        self@.outcomes.len() <= self@.total
    }

    /// The fan-out of a datagram to `recipients` recipients, before any
    /// attempt.
    pub fn new(datagram: Vec<u8>, recipients: usize) -> (delivery: Delivery)
        ensures
            delivery.wf(),
            delivery@ == DeliveryView::fresh(datagram@, recipients as nat),
    {
        Delivery { datagram, total: recipients, outcomes: Vec::new() }
    }

    /// The bytes to transmit to each recipient.
    pub fn datagram(&self) -> (bytes: &[u8])
        ensures
            bytes@ == self@.datagram,
    {
        self.datagram.as_slice()
    }

    /// The number of recipients.
    pub fn total(&self) -> (n: usize)
        ensures
            n == self@.total,
    {
        self.total
    }

    /// The number of attempts made so far.
    pub fn attempted(&self) -> (n: usize)
        ensures
            n == self@.outcomes.len(),
    {
        self.outcomes.len()
    }

    /// The position, in the client's list, of the recipient to transmit to
    /// next; `None` once every recipient has had its attempt.
    pub fn next_recipient(&self) -> (next: Option<usize>)
        ensures
            match next {
                Some(i) => self@.pending() == Some(i as nat),
                None => self@.pending() is None,
            },
    {
        if self.outcomes.len() < self.total {
            Some(self.outcomes.len())
        } else {
            None
        }
    }

    /// Whether every recipient has had its attempt.
    pub fn is_complete(&self) -> (done: bool)
        ensures
            done == self@.pending() is None,
    {
        self.outcomes.len() >= self.total
    }

    /// Records what the transport said of the attempt to the recipient whose
    /// turn it was.
    pub fn record(&mut self, outcome: Result<(), TransportError>)
        requires
            old(self)@.pending() is Some,
        ensures
            final(self).wf(),
            final(self)@ == old(self)@.record(failed(outcome)),
    {
        let failure = match outcome {
            Ok(()) => None,
            Err(e) => Some(e),
        };
        self.outcomes.push(failure);
    }

    /// The failed attempts so far: each recipient's position with its
    /// failure, in rising order.
    pub fn failures(&self) -> (failures: Vec<(usize, TransportError)>)
        ensures
            reports(failures@, self@.outcomes),
    {
        let mut failures: Vec<(usize, TransportError)> = Vec::new();
        let mut i: usize = 0;
        while i < self.outcomes.len()
            invariant
                i <= self.outcomes.len(),
                reports(failures@, self.outcomes@.take(i as int)),
            decreases self.outcomes.len() - i,
        {
            let ghost seen = self.outcomes@.take(i as int);
            let ghost found = failures@;
            let ghost now = self.outcomes@.take(i + 1);
            assert(forall|j: int| 0 <= j < i ==> now[j] == seen[j]);
            if let Some(e) = self.outcomes[i] {
                failures.push((i, e));
                proof {
                    assert(forall|k: int| 0 <= k < found.len() ==> failures@[k] == found[k]);
                    assert forall|t: int|
                        0 <= t < now.len() && (#[trigger] now[t]) is Some implies exists|k: int|
                        0 <= k < failures@.len() && (#[trigger] failures@[k]).0 == t by {
                        if t < i {
                            assert(seen[t] is Some);
                            let k = choose|k: int|
                                0 <= k < found.len() && (#[trigger] found[k]).0 == t;
                            assert(failures@[k].0 == t);
                        } else {
                            assert(failures@[found.len() as int].0 == t);
                        }
                    }
                }
            } else {
                proof {
                    assert forall|t: int|
                        0 <= t < now.len() && (#[trigger] now[t]) is Some implies exists|k: int|
                        0 <= k < failures@.len() && (#[trigger] failures@[k]).0 == t by {
                        assert(seen[t] is Some);
                    }
                }
            }
            i += 1;
        }
        assert(self.outcomes@.take(i as int) == self.outcomes@);
        failures
    }
}

/// A client as mathematics: the service it calls and its recipients.
pub struct ClientView<A> {
    pub service: Seq<char>,
    pub recipients: Seq<A>,
}

/// A client of one service, with the recipients that each call goes to.
///
/// `A` is whatever the transport takes for an address.
pub struct UrpcClient<A> {
    service: String,
    recipients: Vec<A>,
}

impl<A> View for UrpcClient<A> {
    type V = ClientView<A>;

    closed spec fn view(&self) -> ClientView<A> {
        ClientView { service: self.service@, recipients: self.recipients@ }
    }
}

impl<A> UrpcClient<A> {
    /// A client of `service` whose calls go to `recipients`.
    pub fn new(service: String, recipients: Vec<A>) -> (client: UrpcClient<A>)
        ensures
            client@ == (ClientView { service: service@, recipients: recipients@ }),
    {
        UrpcClient { service, recipients }
    }

    /// A client of `service` whose recipients are the addresses that a parser
    /// made of the caller's list, `None` standing for an address that it
    /// refused.
    ///
    /// One refused address is enough to refuse the client: the first one is
    /// reported, by its position.
    pub fn from_parsed(service: String, parsed: Vec<Option<A>>) -> (r: Result<
        UrpcClient<A>,
        ClientError,
    >)
        ensures
            match r {
                Ok(client) => {
                    &&& client@.service == service@
                    &&& client@.recipients.len() == parsed@.len()
                    &&& forall|i: int|
                        0 <= i < parsed@.len() ==> parsed@[i] == Some(client@.recipients[i])
                },
                Err(ClientError::InvalidAddress(bad)) => {
                    &&& bad < parsed@.len()
                    &&& parsed@[bad as int] is None
                    &&& forall|i: int| 0 <= i < bad ==> parsed@[i] is Some
                },
            },
    {
        let ghost all = parsed@;
        let mut rest = parsed;
        let mut recipients: Vec<A> = Vec::new();
        assert(all.skip(0) == all);
        while rest.len() > 0
            invariant
                all == parsed@,
                recipients@.len() + rest@.len() == all.len(),
                rest@ == all.skip(recipients@.len() as int),
                forall|i: int| 0 <= i < recipients@.len() ==> all[i] == Some(recipients@[i]),
            decreases rest@.len(),
        {
            let ghost done = recipients@.len() as int;
            assert(rest@[0] == all[done]);
            assert(rest@.remove(0) == all.skip(done + 1));
            match rest.remove(0) {
                Some(address) => recipients.push(address),
                None => {
                    return Err(ClientError::InvalidAddress(recipients.len()));
                },
            }
        }
        Ok(UrpcClient { service, recipients })
    }

    /// The service that this client calls.
    pub fn service(&self) -> (name: &str)
        ensures
            name@ == self@.service,
    {
        self.service.as_str()
    }

    /// The recipients, in the order in which a call goes out to them.
    pub fn recipients(&self) -> (recipients: &Vec<A>)
        ensures
            recipients@ == self@.recipients,
    {
        &self.recipients
    }

    /// The envelope for a call of `method` with an encoded argument.
    pub fn request(&self, method: &str, message: String) -> (request: UrpcRequest)
        ensures
            request@ == (Envelope { service: self@.service, method: method@, message: message@ }),
    {
        UrpcRequest { service: self.service.clone(), method: method.to_owned(), message }
    }

    /// Starts the fan-out of a datagram, unless it is longer than
    /// `MAX_DATAGRAM_SIZE`: that one is refused and goes to nobody.
    pub fn begin(&self, datagram: Vec<u8>) -> (r: Result<Delivery, SendError>)
        ensures
            match r {
                Ok(delivery) => {
                    &&& datagram@.len() <= MAX_DATAGRAM_SIZE
                    &&& delivery.wf()
                    &&& delivery@ == DeliveryView::fresh(datagram@, self@.recipients.len())
                },
                Err(e) => datagram@.len() > MAX_DATAGRAM_SIZE && e == SendError::Oversized,
            },
    {
        if datagram.len() > MAX_DATAGRAM_SIZE {
            Err(SendError::Oversized)
        } else {
            Ok(Delivery::new(datagram, self.recipients.len()))
        }
    }

    /// Makes the datagram for a call of `method` with the encoded argument
    /// `message`, and starts its fan-out: every recipient is still to be
    /// attempted, in the order of the list. A call whose datagram would be
    /// longer than `MAX_DATAGRAM_SIZE` is refused and goes to nobody.
    pub fn send(&self, method: &str, message: String) -> (r: Result<Delivery, SendError>)
        ensures
            match r {
                Ok(delivery) => {
                    &&& self.datagram_for(method@, message@).len() <= MAX_DATAGRAM_SIZE
                    &&& delivery.wf()
                    &&& delivery@ == DeliveryView::fresh(
                        self.datagram_for(method@, message@),
                        self@.recipients.len(),
                    )
                },
                Err(e) => self.datagram_for(method@, message@).len() > MAX_DATAGRAM_SIZE && e
                    == SendError::Oversized,
            },
    {
        let request = self.request(method, message);
        self.begin(request.encode())
    }

    /// The datagram for a call of `method` with the encoded argument
    /// `message`.
    pub open spec fn datagram_for(&self, method: Seq<char>, message: Seq<char>) -> Seq<u8> {
        encoded(Envelope { service: self@.service, method, message })
    }
}

} // verus!
