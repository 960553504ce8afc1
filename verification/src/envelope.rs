//! The request envelope and its wire form: one JSON object with the string
//! members `service`, `method` and `message`.

use vstd::prelude::*;
use crate::json::{
    json_object_members, json_object_text, members_view, pairs_view, read_object, write_object,
};

verus! {

/// One call on the wire: the service it is for, the method to run there and
/// the encoded argument.
#[derive(Debug, PartialEq, Eq)]
pub struct UrpcRequest {
    pub service: String,
    pub method: String,
    pub message: String,
}

/// What a request is, as mathematics: three sequences of characters.
pub struct Envelope {
    pub service: Seq<char>,
    pub method: Seq<char>,
    pub message: Seq<char>,
}

impl View for UrpcRequest {
    type V = Envelope;

    open spec fn view(&self) -> Envelope {
        Envelope { service: self.service@, method: self.method@, message: self.message@ }
    }
}

/// One of the three members of an envelope.
#[derive(Debug, Clone, Copy, PartialEq, Eq, Structural)]
pub enum Field {
    Service,
    Method,
    Message,
}

/// Why bytes are no envelope.
#[derive(Debug, Clone, Copy, PartialEq, Eq, Structural)]
pub enum DecodeError {
    /// The codec read no JSON object from the bytes.
    Unreadable,
    /// The object has no member of this name.
    Missing(Field),
    /// The member of this name is not a JSON string.
    NotAString(Field),
}

impl Field {
    /// The member's key on the wire.
    pub open spec fn key(self) -> Seq<char> {
        match self {
            Field::Service => "service"@,
            Field::Method => "method"@,
            Field::Message => "message"@,
        }
    }

    /// The member's key on the wire.
    pub fn name(self) -> (key: &'static str)
        ensures
            key@ == self.key(),
    {
        match self {
            Field::Service => "service",
            Field::Method => "method",
            Field::Message => "message",
        }
    }
}

/// The value of the first member with this key: `None` where no member has
/// the key, `Some(None)` where that member's value is no string.
pub open spec fn member(members: Seq<(Seq<char>, Option<Seq<char>>)>, key: Seq<char>) -> Option<
    Option<Seq<char>>,
>
    decreases members.len(),
{
    if members.len() == 0 {
        None
    } else if members[0].0 == key {
        Some(members[0].1)
    } else {
        member(members.drop_first(), key)
    }
}

/// The string that the members hold for a field, or why they hold none.
pub open spec fn text_member(
    members: Seq<(Seq<char>, Option<Seq<char>>)>,
    field: Field,
) -> Result<Seq<char>, DecodeError> {
    match member(members, field.key()) {
        None => Err(DecodeError::Missing(field)),
        Some(None) => Err(DecodeError::NotAString(field)),
        Some(Some(text)) => Ok(text),
    }
}

/// The envelope that the members of a JSON object make: its three fields,
/// asked for in the order service, method, message; the first one that fails
/// decides the error. Other members are ignored.
pub open spec fn envelope_of(members: Seq<(Seq<char>, Option<Seq<char>>)>) -> Result<
    Envelope,
    DecodeError,
> {
    match text_member(members, Field::Service) {
        Err(e) => Err(e),
        Ok(service) => match text_member(members, Field::Method) {
            Err(e) => Err(e),
            Ok(method) => match text_member(members, Field::Message) {
                Err(e) => Err(e),
                Ok(message) => Ok(Envelope { service, method, message }),
            },
        },
    }
}

/// The envelope that a datagram holds, or why it holds none.
///
/// The datagram is read as one JSON object. Of two members with one key the
/// codec keeps the last, so a repeated field is not refused: its last value
/// counts. Members of other names are ignored. Any other JSON value, an
/// array of three strings too, is no envelope.
pub open spec fn decoded(bytes: Seq<u8>) -> Result<Envelope, DecodeError> {
    match json_object_members(bytes) {
        None => Err(DecodeError::Unreadable),
        Some(members) => envelope_of(members),
    }
}

/// The members of an envelope's JSON object, in the order they are written.
pub open spec fn members_of(envelope: Envelope) -> Seq<(Seq<char>, Seq<char>)> {
    seq![
        (Field::Service.key(), envelope.service),
        (Field::Method.key(), envelope.method),
        (Field::Message.key(), envelope.message),
    ]
}

/// The datagram that carries an envelope.
pub open spec fn encoded(envelope: Envelope) -> Seq<u8> {
    json_object_text(members_of(envelope))
}

/// Finds a field among the members of a JSON object.
fn find_text(members: &Vec<(String, Option<String>)>, field: Field) -> (r: Result<
    String,
    DecodeError,
>)
    ensures
        match text_member(members_view(members@), field) {
            Ok(text) => r matches Ok(found) && found@ == text,
            Err(e) => r == Err::<String, DecodeError>(e),
        },
{
    let key = field.name().to_owned();
    let ghost all = members_view(members@);
    let mut i: usize = 0;
    assert(all.skip(0) == all);
    while i < members.len()
        invariant
            i <= members.len(),
            all == members_view(members@),
            key@ == field.key(),
            member(all, field.key()) == member(all.skip(i as int), field.key()),
        decreases members.len() - i,
    {
        let ghost rest = all.skip(i as int);
        assert(rest[0] == all[i as int]);
        assert(rest.drop_first() == all.skip(i + 1));
        if members[i].0 == key {
            return match &members[i].1 {
                Some(text) => Ok(text.clone()),
                None => Err(DecodeError::NotAString(field)),
            };
        }
        i += 1;
    }
    assert(all.skip(i as int).len() == 0);
    Err(DecodeError::Missing(field))
}

impl UrpcRequest {
    /// Makes a request of its three parts.
    pub fn new(service: String, method: String, message: String) -> (request: UrpcRequest)
        ensures
            request.service == service,
            request.method == method,
            request.message == message,
    {
        UrpcRequest { service, method, message }
    }

    /// Reads a request from the members of a JSON object.
    pub fn from_members(members: &Vec<(String, Option<String>)>) -> (r: Result<
        UrpcRequest,
        DecodeError,
    >)
        ensures
            match envelope_of(members_view(members@)) {
                Ok(envelope) => r matches Ok(request) && request@ == envelope,
                Err(e) => r == Err::<UrpcRequest, DecodeError>(e),
            },
    {
        let service = match find_text(members, Field::Service) {
            Ok(text) => text,
            Err(e) => return Err(e),
        };
        let method = match find_text(members, Field::Method) {
            Ok(text) => text,
            Err(e) => return Err(e),
        };
        let message = match find_text(members, Field::Message) {
            Ok(text) => text,
            Err(e) => return Err(e),
        };
        Ok(UrpcRequest { service, method, message })
    }

    /// Reads a request from a datagram.
    pub fn decode(bytes: &[u8]) -> (r: Result<UrpcRequest, DecodeError>)
        ensures
            match decoded(bytes@) {
                Ok(envelope) => r matches Ok(request) && request@ == envelope,
                Err(e) => r == Err::<UrpcRequest, DecodeError>(e),
            },
    {
        match read_object(bytes) {
            Ok(members) => UrpcRequest::from_members(&members),
            Err(_) => Err(DecodeError::Unreadable),
        }
    }

    /// The members of this request's JSON object, in the order they are
    /// written.
    pub fn members(&self) -> (members: Vec<(String, String)>)
        ensures
            pairs_view(members@) == members_of(self@),
    {
        let mut members: Vec<(String, String)> = Vec::new();
        members.push((Field::Service.name().to_owned(), self.service.clone()));
        members.push((Field::Method.name().to_owned(), self.method.clone()));
        members.push((Field::Message.name().to_owned(), self.message.clone()));
        assert(pairs_view(members@) =~= members_of(self@));
        members
    }

    /// Writes this request as a datagram: the codec's bytes for the object
    /// with this request's members.
    pub fn encode(&self) -> (bytes: Vec<u8>)
        ensures
            bytes@ == encoded(self@),
    {
        let members = self.members();
        match write_object(&members) {
            Ok(bytes) => bytes,
            // The codec does not fail on string members.
            Err(_) => vstd::pervasive::unreached(),
        }
    }

    /// A second request with the same three parts.
    pub fn copy(&self) -> (request: UrpcRequest)
        ensures
            request@ == self@,
    {
        UrpcRequest {
            service: self.service.clone(),
            method: self.method.clone(),
            message: self.message.clone(),
        }
    }
}

} // verus!
