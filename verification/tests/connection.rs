use jsonrpc_fdpass::codec::{scan, Scanned};
use jsonrpc_fdpass::transport::{Action, Event, Write, MAX_FDS_PER_WRITE};
use jsonrpc_fdpass::{
    Client, Error, Json, JsonNumber, JsonRpcMessage, JsonRpcNotification, MessageWithFds, Receiver,
    Sender, Transmission,
};

fn notification(method: &str) -> JsonRpcMessage {
    JsonRpcMessage::Notification(JsonRpcNotification::new(method.to_string(), None))
}

fn method(message: &JsonRpcMessage) -> &str {
    match message {
        JsonRpcMessage::Request(req) => &req.method,
        JsonRpcMessage::Notification(notif) => &notif.method,
        JsonRpcMessage::Response(_) => panic!("not a call"),
    }
}

// Carries a transmission out with writes that take at most so many bytes.
fn carry_out(mut transmission: Transmission<u32>, most: usize) -> Vec<(Vec<u8>, Vec<u32>)> {
    let mut chunks = Vec::new();
    loop {
        let n = match transmission.next() {
            Write::Done => break,
            Write::Send { bytes, fds } => {
                let n = bytes.len().min(most);
                chunks.push((bytes[..n].to_vec(), fds.to_vec()));
                n
            }
        };
        transmission.wrote(n).unwrap();
    }
    chunks
}

// Takes out all messages that are there after a read.
fn read(receiver: &mut Receiver<u32>, data: Vec<u8>, fds: Vec<u32>) -> Vec<MessageWithFds<u32>> {
    let mut messages = Vec::new();
    let mut event = Event::Read(data, fds);
    while let Action::Deliver(message) = receiver.receive(event).unwrap() {
        messages.push(message);
        event = Event::Wanted;
    }
    messages
}

fn send(message: JsonRpcMessage, fds: Vec<u32>) -> Transmission<u32> {
    Sender::new().send(MessageWithFds::new(message, fds)).unwrap()
}

fn written(transmission: Transmission<u32>) -> String {
    let bytes = carry_out(transmission, usize::MAX).into_iter().flat_map(|(bytes, _)| bytes).collect();
    String::from_utf8(bytes).unwrap()
}

#[test]
fn message_without_fds_is_one_write() {
    let chunks = carry_out(send(notification("m"), vec![]), usize::MAX);
    assert_eq!(chunks, vec![(b"{\"jsonrpc\":\"2.0\",\"method\":\"m\"}".to_vec(), vec![])]);
}

#[test]
fn full_batch_goes_with_the_message() {
    assert_eq!(MAX_FDS_PER_WRITE, 8);
    let fds: Vec<u32> = (0..8).collect();
    let chunks = carry_out(send(notification("m"), fds.clone()), usize::MAX);
    assert_eq!(chunks, vec![(b"{\"fds\":8,\"jsonrpc\":\"2.0\",\"method\":\"m\"}".to_vec(), fds)]);
}

#[test]
fn more_batches_go_ahead_with_a_space_each() {
    let fds: Vec<u32> = (0..20).collect();
    let chunks = carry_out(send(notification("m"), fds), usize::MAX);
    assert_eq!(
        chunks,
        vec![
            (b" ".to_vec(), (0..8).collect()),
            (b" ".to_vec(), (8..16).collect()),
            (b"{\"fds\":20,\"jsonrpc\":\"2.0\",\"method\":\"m\"}".to_vec(), (16..20).collect()),
        ]
    );
}

#[test]
fn partial_writes_go_on_without_fds() {
    let fds: Vec<u32> = (0..9).collect();
    let chunks = carry_out(send(notification("m"), fds.clone()), 10);
    assert_eq!(chunks[0], (b" ".to_vec(), (0..8).collect()));
    assert_eq!(chunks[1], (b"{\"fds\":9,\"".to_vec(), vec![8]));
    assert!(chunks[2..].iter().all(|(_, fds)| fds.is_empty()));
    let all: Vec<u8> = chunks.iter().flat_map(|(bytes, _)| bytes.clone()).collect();
    assert_eq!(all, b" {\"fds\":9,\"jsonrpc\":\"2.0\",\"method\":\"m\"}".to_vec());
}

#[test]
fn write_that_takes_nothing_is_an_error() {
    let mut transmission = send(notification("m"), vec![]);
    match transmission.wrote(0) {
        Err(Error::SystemCall(_)) => {}
        _ => panic!("no progress"),
    }
    // The message can still be sent.
    assert_eq!(written(transmission), "{\"jsonrpc\":\"2.0\",\"method\":\"m\"}");
}

#[test]
fn message_that_is_no_json_is_not_sent() {
    let error = jsonrpc_fdpass::JsonRpcError {
        code: 1,
        message: "x".to_string(),
        data: Some("no json".to_string()),
    };
    let response = jsonrpc_fdpass::JsonRpcResponse::error(error, Json::Null);
    let sent = Sender::new().send(MessageWithFds::new(JsonRpcMessage::Response(response), vec![1u32]));
    assert!(matches!(sent, Err(Error::Json(_))));
}

#[test]
fn messages_arrive_whatever_the_cuts() {
    let mut stream: Vec<u8> = Vec::new();
    let mut fds: Vec<u32> = Vec::new();
    for (name, count) in [("a", 1u32), ("b", 0), ("c", 3)] {
        let first = fds.len() as u32;
        let more: Vec<u32> = (first..first + count).collect();
        stream.extend_from_slice(written(send(notification(name), more.clone())).as_bytes());
        stream.extend_from_slice(b" \n");
        fds.extend(more);
    }
    for size in 1..stream.len() {
        let mut receiver = Receiver::new();
        let mut messages = Vec::new();
        let mut first = fds.clone();
        for chunk in stream.chunks(size) {
            // All file descriptors come with the first bytes.
            messages.extend(read(&mut receiver, chunk.to_vec(), std::mem::take(&mut first)));
        }
        let received: Vec<(&str, Vec<u32>)> = messages
            .iter()
            .map(|m| (method(&m.message), m.file_descriptors.clone()))
            .collect();
        assert_eq!(received, vec![("a", vec![0]), ("b", vec![]), ("c", vec![1, 2, 3])], "{}", size);
    }
}

#[test]
fn conversation_arrives_write_by_write() {
    let fds: Vec<u32> = (0..19).collect();
    for most in 1..40 {
        let mut receiver = Receiver::new();
        let mut messages = Vec::new();
        for name in ["a", "b"] {
            for (data, fds) in carry_out(send(notification(name), fds.clone()), most) {
                messages.extend(read(&mut receiver, data, fds));
            }
        }
        assert_eq!(messages.len(), 2);
        for (message, name) in messages.iter().zip(["a", "b"]) {
            assert_eq!(method(&message.message), name);
            assert_eq!(message.file_descriptors, fds);
            assert_eq!(message.message.get_fds(), 19);
        }
    }
}

#[test]
fn fds_that_are_not_asked_for_wait_for_the_next_message() {
    let mut receiver = Receiver::new();
    let first = read(&mut receiver, b"{\"jsonrpc\":\"2.0\",\"method\":\"a\",\"fds\":1}".to_vec(), vec![1, 2]);
    assert_eq!(first[0].file_descriptors, vec![1]);
    let second = read(&mut receiver, b"{\"jsonrpc\":\"2.0\",\"method\":\"b\",\"fds\":1}".to_vec(), vec![3]);
    assert_eq!(second[0].file_descriptors, vec![2]);
}

// Whatever a receiver is told after a fatal error, it is closed.
fn is_closed(receiver: &mut Receiver<std::rc::Rc<u32>>) {
    let message = || b"{\"jsonrpc\":\"2.0\",\"method\":\"b\"}".to_vec();
    assert!(receiver.has_failed());
    assert!(matches!(receiver.receive(Event::Wanted), Err(Error::ConnectionClosed)));
    assert!(matches!(receiver.receive(Event::Read(message(), vec![])), Err(Error::ConnectionClosed)));
    assert!(matches!(receiver.receive(Event::Truncated), Err(Error::ConnectionClosed)));
    assert!(matches!(receiver.try_parse_message(), Err(Error::ConnectionClosed)));
    assert!(matches!(receiver.take_scanned(Scanned::Blank), Err(Error::ConnectionClosed)));
    assert_eq!(receiver.read_more_data(message(), vec![]), Err(Error::ConnectionClosed));
    let (messages, end) = receiver.receive_all(vec![(message(), vec![])]);
    assert!(messages.is_empty());
    assert_eq!(end, Err(Error::ConnectionClosed));
}

#[test]
fn missing_fds_are_a_fatal_error() {
    let fd = std::rc::Rc::new(1u32);
    let mut receiver = Receiver::new();
    let data = b"{\"jsonrpc\":\"2.0\",\"method\":\"a\",\"fds\":2}\
        {\"jsonrpc\":\"2.0\",\"method\":\"b\",\"fds\":1}"
        .to_vec();
    match receiver.receive(Event::Read(data, vec![fd.clone()])) {
        Err(e) => assert_eq!(e, Error::MismatchedCount { expected: 2, found: 1 }),
        Ok(_) => panic!("a file descriptor is missing"),
    }
    // The file descriptor that was there is dropped, and the other message never comes.
    assert_eq!(std::rc::Rc::strong_count(&fd), 1);
    is_closed(&mut receiver);
}

#[test]
fn framing_error_is_fatal() {
    let fd = std::rc::Rc::new(1u32);
    let mut receiver = Receiver::new();
    let data = b"?{\"jsonrpc\":\"2.0\",\"method\":\"b\",\"fds\":1}".to_vec();
    assert!(matches!(
        receiver.receive(Event::Read(data, vec![fd.clone()])),
        Err(Error::FramingError)
    ));
    assert_eq!(std::rc::Rc::strong_count(&fd), 1);
    is_closed(&mut receiver);
}

#[test]
fn lost_fds_are_fatal() {
    let fd = std::rc::Rc::new(1u32);
    let mut receiver = Receiver::new();
    assert!(!receiver.has_failed());
    assert!(matches!(receiver.receive(Event::Read(b" ".to_vec(), vec![fd.clone()])), Ok(Action::Read)));
    assert_eq!(std::rc::Rc::strong_count(&fd), 2);
    match receiver.receive(Event::Truncated) {
        Err(e) => assert_eq!(e, Error::SystemCall("file descriptors were lost".to_string())),
        Ok(_) => panic!("file descriptors were lost"),
    }
    assert_eq!(std::rc::Rc::strong_count(&fd), 1);
    is_closed(&mut receiver);
}

#[test]
fn reads_are_received_one_after_the_other() {
    let data = b"{\"jsonrpc\":\"2.0\",\"method\":\"a\",\"fds\":1}\n\
        {\"jsonrpc\":\"2.0\",\"method\":\"b\"}\n"
        .to_vec();
    for cut in 1..data.len() {
        let mut receiver = Receiver::new();
        let (messages, end) = receiver.receive_all(vec![
            (data[..cut].to_vec(), vec![7u32]),
            (data[cut..].to_vec(), vec![]),
        ]);
        assert_eq!(end, Ok(()));
        assert_eq!(messages.len(), 2);
        assert_eq!(method(&messages[0].message), "a");
        assert_eq!(messages[0].file_descriptors, vec![7]);
        assert_eq!(method(&messages[1].message), "b");
        assert!(messages[1].file_descriptors.is_empty());
    }
    let mut receiver: Receiver<u32> = Receiver::new();
    let (messages, end) = receiver.receive_all(vec![
        (b"{\"jsonrpc\":\"2.0\",\"method\":\"a\"} }".to_vec(), vec![]),
        (b"{\"jsonrpc\":\"2.0\",\"method\":\"b\"}".to_vec(), vec![]),
    ]);
    assert_eq!(messages.len(), 1);
    assert_eq!(end, Err(Error::FramingError));
}

#[test]
fn messages_before_an_error_are_delivered() {
    let mut receiver = Receiver::new();
    let mut data = Vec::new();
    for name in ["a", "b"] {
        data.extend_from_slice(written(send(notification(name), vec![])).as_bytes());
    }
    data.push(b'}');
    match receiver.receive(Event::Read(data, vec![1u32])) {
        Ok(Action::Deliver(message)) => assert_eq!(method(&message.message), "a"),
        _ => panic!("the first message is whole"),
    }
    match receiver.receive(Event::Wanted) {
        Ok(Action::Deliver(message)) => assert_eq!(method(&message.message), "b"),
        _ => panic!("the second message is whole"),
    }
    assert!(matches!(receiver.receive(Event::Wanted), Err(Error::FramingError)));
    assert!(matches!(receiver.receive(Event::Wanted), Err(Error::ConnectionClosed)));
}

#[test]
fn transmission_of_a_text() {
    let chunks = carry_out(Transmission::new("{}", (0..9).collect()), usize::MAX);
    assert_eq!(chunks, vec![(b" ".to_vec(), (0..8).collect()), (b"{}".to_vec(), vec![8])]);
}

#[test]
fn value_that_is_no_message_is_refused() {
    let mut receiver: Receiver<u32> = Receiver::new();
    match receiver.receive(Event::Read(b"[1] {\"x\":1}{\"method\":\"m\"}".to_vec(), vec![])) {
        Err(e) => assert_eq!(e, Error::InvalidMessage("Expected JSON object".to_string())),
        Ok(_) => panic!("an array"),
    }
    match receiver.try_parse_message() {
        Err(e) => assert_eq!(e, Error::InvalidMessage("Invalid JSON-RPC message".to_string())),
        Ok(_) => panic!("no message"),
    }
    match receiver.try_parse_message() {
        Err(e) => assert_eq!(e, Error::Json("missing field `jsonrpc`".to_string())),
        Ok(_) => panic!("no version"),
    }
    assert!(matches!(receiver.try_parse_message(), Ok(None)));
}

#[test]
fn fds_of_a_value_that_is_no_message_are_gone() {
    let mut receiver = Receiver::new();
    assert!(receiver.receive(Event::Read(b"{\"fds\":1}".to_vec(), vec![1u32, 2])).is_err());
    let next = read(&mut receiver, b"{\"jsonrpc\":\"2.0\",\"method\":\"b\",\"fds\":1}".to_vec(), vec![]);
    assert_eq!(next[0].file_descriptors, vec![2]);
}

#[test]
fn end_of_the_connection() {
    let mut receiver: Receiver<u32> = Receiver::new();
    assert_eq!(receiver.read_more_data(vec![], vec![]), Err(Error::ConnectionClosed));
    assert_eq!(receiver.read_more_data(vec![b' '], vec![7]), Ok(()));
    assert!(matches!(receiver.receive(Event::Wanted), Ok(Action::Read)));
}

#[test]
fn scanned_value_is_taken() {
    let data = b"{\"jsonrpc\":\"2.0\",\"method\":\"a\",\"fds\":1} ".to_vec();
    let scanned = scan(&data);
    let mut receiver = Receiver::new();
    receiver.read_more_data(data, vec![4u32]).unwrap();
    let message = receiver.take_scanned(scanned).unwrap().unwrap();
    assert_eq!(method(&message.message), "a");
    assert_eq!(message.file_descriptors, vec![4]);
    assert!(matches!(receiver.take_scanned(Scanned::Blank), Ok(None)));
    assert!(matches!(receiver.take_scanned(Scanned::Invalid), Err(Error::FramingError)));
}

#[test]
fn text_is_parsed_as_a_message() {
    let receiver: Receiver<u32> = Receiver::new();
    let message = receiver.parse_json_message("{\"jsonrpc\":\"2.0\",\"method\":\"a\"}").unwrap();
    assert_eq!(message, notification("a"));
    assert!(matches!(receiver.parse_json_message("{"), Err(Error::Json(_))));
    assert!(matches!(receiver.parse_json_message("{}"), Err(Error::InvalidMessage(_))));
}

#[test]
fn placeholders_are_counted() {
    let count = |json_str: &str| {
        let mut n: usize = 10;
        assert_eq!(Receiver::<u32>::count_placeholders_in_str(json_str, &mut n), Ok(true));
        n - 10
    };
    let one = "{\"__jsonrpc_fd__\":true,\"index\":0}";
    assert_eq!(count("1"), 0);
    assert_eq!(count("{}"), 0);
    assert_eq!(count(one), 1);
    assert_eq!(count(&format!("[{},[{}],{{\"a\":{},\"b\":{{\"c\":{}}}}}]", one, one, one, one)), 4);
    // Both members are needed, and the mark has to be `true`.
    assert_eq!(count("{\"__jsonrpc_fd__\":true}"), 0);
    assert_eq!(count("{\"__jsonrpc_fd__\":false,\"index\":0}"), 0);
    assert_eq!(count("{\"__jsonrpc_fd__\":1,\"index\":0}"), 0);
    assert_eq!(count("{\"__jsonrpc_fd__\":true,\"index\":null}"), 1);
    // Nothing inside a placeholder counts.
    assert_eq!(count(&format!("{{\"__jsonrpc_fd__\":true,\"index\":{}}}", one)), 1);
    assert_eq!(count(&format!("{{\"__jsonrpc_fd__\":false,\"index\":{}}}", one)), 1);
}

#[test]
fn placeholders_beyond_what_can_be_counted() {
    let one = "{\"__jsonrpc_fd__\":true,\"index\":0}";
    let mut n: usize = usize::MAX;
    assert_eq!(Receiver::<u32>::count_placeholders_in_str(one, &mut n), Ok(false));
    assert_eq!(n, usize::MAX);
    assert!(matches!(Receiver::<u32>::count_placeholders_in_str("[", &mut n), Err(Error::Json(_))));
    assert_eq!(n, usize::MAX);
}

#[test]
fn overridden_member_is_no_placeholder() {
    let entry = |key: &str, value: Json| (key.to_string(), value);
    let value = Json::Object(vec![
        entry("__jsonrpc_fd__", Json::Bool(true)),
        entry("index", Json::Number(JsonNumber::PosInt(0))),
        entry("__jsonrpc_fd__", Json::Bool(false)),
    ]);
    let mut n: usize = 0;
    Receiver::<u32>::count_placeholders(&value, &mut n);
    assert_eq!(n, 0);
}

#[test]
fn client_numbers_its_requests() {
    let mut client = Client::new(Sender::new());
    for id in 1..=3 {
        let call = client.call_method("m", Some(Json::Bool(true)), vec![5u32]).unwrap();
        assert_eq!(
            written(call),
            format!("{{\"fds\":1,\"id\":{},\"jsonrpc\":\"2.0\",\"method\":\"m\",\"params\":true}}", id)
        );
        let notice = client.send_notification("n", None, Vec::<u32>::new()).unwrap();
        assert_eq!(written(notice), "{\"jsonrpc\":\"2.0\",\"method\":\"n\"}");
    }
}

#[test]
fn client_uses_the_style_of_its_sender() {
    let mut sender = Sender::new();
    sender.set_pretty(true);
    let mut client = Client::new(sender);
    let call = client.call_method("m", None, Vec::<u32>::new()).unwrap();
    assert_eq!(written(call), "{\n  \"id\": 1,\n  \"jsonrpc\": \"2.0\",\n  \"method\": \"m\"\n}");
}
