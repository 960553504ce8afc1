use std::collections::BTreeMap;
use urpc::{
    decode, ClientError, Delivery, SendError, ServiceError, TransportError, UrpcClient, UrpcRequest,
    UrpcServer, UrpcService, MAX_DATAGRAM_SIZE,
};

fn client(recipients: &[&str]) -> UrpcClient<String> {
    UrpcClient::new("calc".to_string(), recipients.iter().map(|r| r.to_string()).collect())
}

/// An application value as the text that goes into an envelope's message.
fn encode<T: serde::Serialize>(value: T) -> String {
    serde_json::to_string(&value).unwrap()
}

/// Runs a fan-out to its end, with the given outcome for each recipient, and
/// says which recipients were attempted.
fn run(delivery: &mut Delivery, outcomes: &[Result<(), TransportError>]) -> Vec<usize> {
    let mut attempted = Vec::new();
    while let Some(i) = delivery.next_recipient() {
        attempted.push(i);
        delivery.record(outcomes[i]);
    }
    attempted
}

#[test]
fn new_keeps_service_and_recipients() {
    let c = client(&["127.0.0.1:4000", "127.0.0.1:4001"]);
    assert_eq!(c.service(), "calc");
    assert_eq!(c.recipients(), &vec!["127.0.0.1:4000".to_string(), "127.0.0.1:4001".to_string()]);
}

#[test]
fn from_parsed_takes_a_list_in_which_every_address_is_valid() {
    let c = UrpcClient::from_parsed("calc".to_string(), vec![Some(4000u16), Some(4001)]).unwrap();
    assert_eq!(c.service(), "calc");
    assert_eq!(c.recipients(), &vec![4000, 4001]);
    let nobody = UrpcClient::<u16>::from_parsed("calc".to_string(), Vec::new()).unwrap();
    assert_eq!(nobody.recipients(), &Vec::<u16>::new());
}

#[test]
fn from_parsed_reports_the_first_invalid_address() {
    let r = UrpcClient::from_parsed("calc".to_string(), vec![Some(1u16), None, Some(3), None]);
    assert_eq!(r.err(), Some(ClientError::InvalidAddress(1)));
    let r = UrpcClient::<u16>::from_parsed("calc".to_string(), vec![None]);
    assert_eq!(r.err(), Some(ClientError::InvalidAddress(0)));
}

#[test]
fn request_names_the_clients_service() {
    let c = client(&["a"]);
    assert_eq!(
        c.request("add", "[1,2]".to_string()),
        UrpcRequest::new("calc".to_string(), "add".to_string(), "[1,2]".to_string())
    );
}

#[test]
fn send_makes_the_datagram() {
    let c = client(&["a", "b"]);
    let d = c.send("add", "[1,2]".to_string()).unwrap();
    assert_eq!(
        std::str::from_utf8(d.datagram()).unwrap(),
        r#"{"service":"calc","method":"add","message":"[1,2]"}"#
    );
    assert_eq!(d.total(), 2);
    assert_eq!(d.attempted(), 0);
    assert!(!d.is_complete());
}

#[test]
fn send_wraps_an_encoded_argument_as_a_string() {
    let c = client(&["a"]);
    let d = c.send("greet", encode("hi")).unwrap();
    assert_eq!(
        std::str::from_utf8(d.datagram()).unwrap(),
        r#"{"service":"calc","method":"greet","message":"\"hi\""}"#
    );
}

#[test]
fn begin_starts_a_fan_out_of_a_datagram_that_fits() {
    let c = client(&["a", "b", "c"]);
    let d = c.begin(vec![1, 2, 3]).unwrap();
    assert_eq!(d.datagram(), &[1, 2, 3]);
    assert_eq!(d.total(), 3);
    assert_eq!(d.next_recipient(), Some(0));
    let full = c.begin(vec![0; MAX_DATAGRAM_SIZE]).unwrap();
    assert_eq!(full.datagram().len(), MAX_DATAGRAM_SIZE);
}

#[test]
fn begin_refuses_a_datagram_that_is_too_long() {
    let c = client(&["a", "b", "c"]);
    assert_eq!(c.begin(vec![0; MAX_DATAGRAM_SIZE + 1]).err(), Some(SendError::Oversized));
    assert_eq!(c.begin(vec![0; 5000]).err(), Some(SendError::Oversized));
}

#[test]
fn send_refuses_a_call_whose_datagram_would_be_too_long() {
    let c = client(&["a", "b"]);
    // The envelope around the message takes 46 bytes for this service and method.
    let frame = c.send("put", String::new()).unwrap().datagram().len();
    assert_eq!(frame, 46);
    let fits = "x".repeat(MAX_DATAGRAM_SIZE - frame);
    assert_eq!(c.send("put", fits).unwrap().datagram().len(), MAX_DATAGRAM_SIZE);
    let too_long = "x".repeat(MAX_DATAGRAM_SIZE - frame + 1);
    assert_eq!(c.send("put", too_long).err(), Some(SendError::Oversized));
    assert_eq!(c.send("put", encode("x".repeat(2000))).err(), Some(SendError::Oversized));
}

#[test]
fn a_fan_out_attempts_every_recipient_once() {
    let c = client(&["a", "b", "c", "d"]);
    let mut d = c.send("add", encode(1)).unwrap();
    let attempted = run(&mut d, &[Ok(()), Ok(()), Ok(()), Ok(())]);
    assert_eq!(attempted, vec![0, 1, 2, 3]);
    assert!(d.is_complete());
    assert_eq!(d.attempted(), 4);
    assert_eq!(d.next_recipient(), None);
    assert_eq!(d.failures(), Vec::new());
}

#[test]
fn a_failed_attempt_does_not_end_the_fan_out() {
    let c = client(&["a", "b", "c", "d"]);
    let mut d = c.send("add", encode(1)).unwrap();
    let attempted = run(
        &mut d,
        &[
            Err(TransportError::Other),
            Ok(()),
            Err(TransportError::ConnectionRefused),
            Ok(()),
        ],
    );
    assert_eq!(attempted, vec![0, 1, 2, 3]);
    assert!(d.is_complete());
    assert_eq!(
        d.failures(),
        vec![(0, TransportError::Other), (2, TransportError::ConnectionRefused)]
    );
}

#[test]
fn a_fan_out_in_which_every_attempt_fails_still_reaches_all() {
    let c = client(&["a", "b", "c"]);
    let mut d = c.send("add", encode(1)).unwrap();
    let attempted = run(&mut d, &[Err(TransportError::Other); 3]);
    assert_eq!(attempted, vec![0, 1, 2]);
    assert_eq!(
        d.failures(),
        vec![
            (0, TransportError::Other),
            (1, TransportError::Other),
            (2, TransportError::Other)
        ]
    );
}

#[test]
fn failures_report_the_attempts_so_far() {
    let mut d = Delivery::new(vec![0], 3);
    assert_eq!(d.failures(), Vec::new());
    d.record(Ok(()));
    assert_eq!(d.failures(), Vec::new());
    d.record(Err(TransportError::TimedOut));
    assert_eq!(d.failures(), vec![(1, TransportError::TimedOut)]);
    assert_eq!(d.attempted(), 2);
    assert_eq!(d.next_recipient(), Some(2));
    assert!(!d.is_complete());
}

#[test]
fn a_fan_out_to_nobody_is_complete_at_once() {
    let c = client(&[]);
    let mut d = c.send("add", encode(1)).unwrap();
    assert!(d.is_complete());
    assert_eq!(d.total(), 0);
    assert_eq!(run(&mut d, &[]), Vec::<usize>::new());
    assert_eq!(d.failures(), Vec::new());
}

/// A handler that decodes its argument as `T` and keeps it.
struct Keeper<T> {
    seen: Vec<(String, T)>,
}

impl<T: serde::de::DeserializeOwned> UrpcService for Keeper<T> {
    fn dispatch(&mut self, method_name: String, args: String) -> Result<(), ServiceError> {
        match decode::<T>(args) {
            Ok(value) => {
                self.seen.push((method_name, value));
                Ok(())
            }
            Err(_) => Err(ServiceError::Failed),
        }
    }
}

/// Sends `value` from a client, hands the datagram to a server and gives
/// back what the server's handler decoded.
fn through_the_wire<T>(value: T) -> T
where
    T: serde::Serialize + serde::de::DeserializeOwned + Clone,
{
    let value = &value;
    let c = client(&["a"]);
    let d = c.send("put", encode(value)).unwrap();
    let mut server = UrpcServer::new();
    server.register("calc".to_string(), Keeper { seen: Vec::new() }).unwrap();
    let mut buf = [0u8; 1024];
    buf[..d.datagram().len()].copy_from_slice(d.datagram());
    assert_eq!(server.handle_connection(&buf, d.datagram().len()), Ok(()));
    let kept: &Keeper<T> = server.resolve("calc").unwrap();
    assert_eq!(kept.seen.len(), 1);
    assert_eq!(kept.seen[0].0, "put");
    kept.seen[0].1.clone()
}

#[test]
fn an_integer_comes_out_as_it_went_in() {
    assert_eq!(through_the_wire(42i32), 42);
    assert_eq!(through_the_wire(-7i64), -7);
    assert_eq!(through_the_wire(u64::MAX), u64::MAX);
}

#[test]
fn a_string_comes_out_as_it_went_in() {
    assert_eq!(through_the_wire("hello".to_string()), "hello");
    assert_eq!(through_the_wire("\"quoted\" \\ \n \u{e9}".to_string()), "\"quoted\" \\ \n \u{e9}");
    assert_eq!(through_the_wire(String::new()), "");
}

#[test]
fn a_nested_structure_comes_out_as_it_went_in() {
    let mut by_name = BTreeMap::new();
    by_name.insert("a".to_string(), vec![(1i32, Some("x".to_string())), (2, None)]);
    by_name.insert("b".to_string(), Vec::new());
    assert_eq!(through_the_wire(by_name.clone()), by_name);
    let rows = vec![vec![1u8, 2], vec![], vec![3]];
    assert_eq!(through_the_wire(rows.clone()), rows);
}

#[test]
fn the_handler_gets_the_value_that_the_client_sent() {
    let c = client(&["a"]);
    let d = c.send("put", encode(vec![(1i32, "one".to_string()), (2, "two".to_string())])).unwrap();
    let mut server = UrpcServer::new();
    server.register("calc".to_string(), Keeper::<Vec<(i32, String)>> { seen: Vec::new() }).unwrap();
    assert_eq!(server.handle_connection(d.datagram(), d.datagram().len()), Ok(()));
    assert_eq!(
        server.resolve("calc").unwrap().seen,
        vec![("put".to_string(), vec![(1, "one".to_string()), (2, "two".to_string())])]
    );
}

#[test]
fn decode_reads_json_text() {
    assert_eq!(decode::<i32>("42".to_string()).unwrap(), 42);
    assert_eq!(decode::<String>("\"hi\"".to_string()).unwrap(), "hi");
    assert_eq!(decode::<Vec<bool>>("[true,false]".to_string()).unwrap(), vec![true, false]);
    assert!(decode::<i32>("\"hi\"".to_string()).is_err());
    assert!(decode::<i32>("".to_string()).is_err());
}

#[test]
fn a_handler_that_cannot_decode_its_argument_fails_alone() {
    let c = client(&["a"]);
    let d = c.send("put", encode("no number")).unwrap();
    let mut server = UrpcServer::new();
    server.register("calc".to_string(), Keeper::<i32> { seen: Vec::new() }).unwrap();
    assert_eq!(
        server.handle_connection(d.datagram(), d.datagram().len()),
        Err(urpc::RequestError::Handler(ServiceError::Failed))
    );
    let good = c.send("put", encode(5)).unwrap();
    assert_eq!(server.handle_connection(good.datagram(), good.datagram().len()), Ok(()));
    assert_eq!(server.resolve("calc").unwrap().seen, vec![("put".to_string(), 5)]);
}

#[test]
fn the_full_size_of_a_datagram() {
    assert_eq!(MAX_DATAGRAM_SIZE, 1024);
}

#[test]
fn a_request_that_was_cut_short_on_the_way_reaches_no_handler() {
    let whole = UrpcRequest::new("calc".to_string(), "put".to_string(), encode("x".repeat(2000)))
        .encode();
    assert!(whole.len() > MAX_DATAGRAM_SIZE + 1);
    let mut server = UrpcServer::new();
    server.register("calc".to_string(), Keeper::<String> { seen: Vec::new() }).unwrap();
    let mut buf = [0u8; MAX_DATAGRAM_SIZE + 1];
    buf.copy_from_slice(&whole[..MAX_DATAGRAM_SIZE + 1]);
    assert_eq!(
        server.handle_connection(&buf, MAX_DATAGRAM_SIZE + 1),
        Err(urpc::RequestError::Oversized)
    );
    assert_eq!(
        server.handle_connection(&buf, MAX_DATAGRAM_SIZE),
        Err(urpc::RequestError::Malformed(urpc::DecodeError::Unreadable))
    );
    assert_eq!(server.resolve("calc").unwrap().seen, Vec::<(String, String)>::new());
}
