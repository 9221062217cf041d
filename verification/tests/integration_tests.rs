use jsonrpc_fdpass::transport::{Action, Event, Write};
use jsonrpc_fdpass::{
    Error, Json, JsonNumber, JsonRpcMessage, JsonRpcNotification, JsonRpcRequest, MessageWithFds,
    Receiver, Result, Sender, Transmission,
};

// In these tests a file descriptor is what the file behind it holds.

fn text(s: &str) -> Json {
    Json::String(s.to_string())
}

fn number(n: u64) -> Json {
    Json::Number(JsonNumber::PosInt(n))
}

fn object(members: Vec<(&str, Json)>) -> Json {
    Json::Object(members.into_iter().map(|(key, value)| (key.to_string(), value)).collect())
}

fn placeholder(index: u64) -> Json {
    object(vec![("__jsonrpc_fd__", Json::Bool(true)), ("index", number(index))])
}

fn as_str(json: &Json) -> &str {
    match json {
        Json::String(s) => s,
        _ => panic!("not a string"),
    }
}

fn request(method: &str, params: Json, id: u64) -> JsonRpcMessage {
    JsonRpcMessage::Request(JsonRpcRequest::new(method.to_string(), Some(params), number(id)))
}

fn params(message: &JsonRpcMessage) -> &Json {
    match message {
        JsonRpcMessage::Request(req) => req.params.as_ref().unwrap(),
        JsonRpcMessage::Notification(notif) => notif.params.as_ref().unwrap(),
        JsonRpcMessage::Response(_) => panic!("not a call"),
    }
}

// Carries a transmission out with writes that take at most so many bytes.
fn carry_out<F: Clone>(mut transmission: Transmission<F>, most: usize) -> Vec<(Vec<u8>, Vec<F>)> {
    let mut chunks = Vec::new();
    loop {
        let n = match transmission.next() {
            Write::Done => break,
            Write::Send { bytes, fds } => {
                let n = bytes.len().min(most);
                chunks.push((bytes[..n].to_vec(), fds.to_vec()));
                n
            }
        };
        transmission.wrote(n).unwrap();
    }
    chunks
}

// Reads chunk after chunk and takes out all messages.
fn receive_all<F>(receiver: &mut Receiver<F>, chunks: Vec<(Vec<u8>, Vec<F>)>) -> Result<Vec<MessageWithFds<F>>> {
    let mut messages = Vec::new();
    for (data, fds) in chunks {
        let mut event = Event::Read(data, fds);
        while let Action::Deliver(message) = receiver.receive(event)? {
            messages.push(message);
            event = Event::Wanted;
        }
    }
    Ok(messages)
}

// Sends messages one after the other and receives what was written, each write at once.
fn pass<F: Clone>(messages: Vec<MessageWithFds<F>>) -> Result<Vec<MessageWithFds<F>>> {
    let mut sender = Sender::new();
    let mut receiver = Receiver::new();
    let mut received = Vec::new();
    for message in messages {
        let transmission = sender.send(message)?;
        received.extend(receive_all(&mut receiver, carry_out(transmission, usize::MAX))?);
    }
    Ok(received)
}

fn no_fds() -> Vec<String> {
    Vec::new()
}

#[test]
fn test_basic_message_serialization() {
    let request = JsonRpcRequest::new(
        "test_method".to_string(),
        Some(text("test_param")),
        number(1),
    );

    let message = JsonRpcMessage::Request(request);
    let message_with_fds = MessageWithFds::new(message, no_fds());

    let serialized = message_with_fds.serialize_with_placeholders().unwrap();
    assert!(serialized.contains("test_method"));
    assert!(serialized.contains("test_param"));
    assert_eq!(
        serialized,
        "{\"id\":1,\"jsonrpc\":\"2.0\",\"method\":\"test_method\",\"params\":\"test_param\"}"
    );
}

#[test]
fn test_file_descriptor_placeholder() {
    let params = object(vec![("file", placeholder(0))]);
    let message = request("write_file", params, 1);
    let message_with_fds = MessageWithFds::new(message, vec!["Hello, World!".to_string()]);

    let serialized = message_with_fds.serialize_with_placeholders().unwrap();
    assert!(serialized.contains("__jsonrpc_fd__"));
    assert!(serialized.contains("\"index\":0"));
    assert!(serialized.contains("\"fds\":1"));
}

#[test]
fn test_client_server_communication() {
    let message = request("echo", text("Hello from client"), 1);
    let received = pass(vec![MessageWithFds::new(message.clone(), no_fds())]).unwrap();
    assert_eq!(received.len(), 1);
    assert_eq!(received[0].message, message);
    assert!(received[0].file_descriptors.is_empty());
}

#[test]
fn test_file_descriptor_passing() {
    let test_content = "Test file content for FD passing";
    let message = request("read_file", object(vec![("file", placeholder(0))]), 1);
    let received = pass(vec![MessageWithFds::new(message, vec![test_content.to_string()])]).unwrap();
    assert_eq!(received.len(), 1);
    assert_eq!(received[0].message.get_fds(), 1);
    assert_eq!(received[0].file_descriptors, vec![test_content.to_string()]);
}

#[test]
fn test_multiple_messages_with_fds_sequential() {
    let mut messages = Vec::new();
    for i in 0..3u64 {
        let params = object(vec![("file", placeholder(0)), ("expected_idx", number(i))]);
        messages.push(MessageWithFds::new(
            request("read_sequential", params, i + 1),
            vec![format!("Content {}", i + 1)],
        ));
    }
    let received = pass(messages).unwrap();
    assert_eq!(received.len(), 3);
    for message_with_fds in received {
        let expected_idx = params(&message_with_fds.message).get("expected_idx").unwrap().as_u64().unwrap();
        let expected_content = format!("Content {}", expected_idx + 1);
        assert_eq!(message_with_fds.file_descriptors, vec![expected_content]);
    }
}

#[test]
fn test_multiple_fds_single_message() {
    let expected_contents: Vec<String> = vec![
        "File A content".to_string(),
        "File B content".to_string(),
        "File C content".to_string(),
    ];
    let files = Json::Array(vec![placeholder(0), placeholder(1), placeholder(2)]);
    let message = request("read_multiple_files", object(vec![("files", files)]), 1);
    let received = pass(vec![MessageWithFds::new(message, expected_contents.clone())]).unwrap();
    assert_eq!(received[0].file_descriptors.len(), 3, "Expected exactly 3 file descriptors");
    assert_eq!(received[0].file_descriptors, expected_contents);
}

#[test]
fn test_mixed_messages_with_and_without_fds() {
    let received = pass(vec![
        MessageWithFds::new(request("echo", text("Hello"), 1), no_fds()),
        MessageWithFds::new(
            request("read_file", object(vec![("file", placeholder(0))]), 2),
            vec!["Test file content".to_string()],
        ),
        MessageWithFds::new(request("echo", text("World"), 3), no_fds()),
        MessageWithFds::new(
            JsonRpcMessage::Notification(JsonRpcNotification::new(
                "status".to_string(),
                Some(text("completed")),
            )),
            no_fds(),
        ),
    ])
    .unwrap();
    assert_eq!(received.len(), 4);
    assert!(
        received[0].file_descriptors.is_empty(),
        "Echo method should not receive file descriptors"
    );
    assert_eq!(received[1].file_descriptors.len(), 1, "Expected exactly 1 file descriptor");
    assert_eq!(received[1].file_descriptors[0], "Test file content");
    assert_eq!(as_str(params(&received[2].message)), "World");
    assert!(received[2].file_descriptors.is_empty());
    assert!(matches!(received[3].message, JsonRpcMessage::Notification(_)));
    assert_eq!(as_str(params(&received[3].message)), "completed");
}

#[test]
fn test_large_number_of_fds() {
    let num_fds: usize = 10;
    let files: Vec<Json> = (0..num_fds).map(|i| placeholder(i as u64)).collect();
    let fds: Vec<String> = (0..num_fds).map(|i| format!("File {} content", i)).collect();
    let message = request("process_many_files", object(vec![("files", Json::Array(files))]), 1);
    let received = pass(vec![MessageWithFds::new(message, fds)]).unwrap();
    assert_eq!(
        received[0].file_descriptors.len(),
        num_fds,
        "Expected exactly {} file descriptors",
        num_fds
    );
    for (i, contents) in received[0].file_descriptors.iter().enumerate() {
        let expected_content = format!("File {} content", i);
        assert_eq!(contents, &expected_content);
    }
}

#[test]
fn test_zero_byte_files_with_fds() {
    let files = Json::Array(vec![placeholder(0), placeholder(1), placeholder(2)]);
    let message = request("read_empty_files", object(vec![("files", files)]), 1);
    let fds = vec![String::new(), String::new(), String::new()];
    let received = pass(vec![MessageWithFds::new(message, fds)]).unwrap();
    assert_eq!(received[0].file_descriptors.len(), 3, "Expected exactly 3 file descriptors");
    for contents in &received[0].file_descriptors {
        assert_eq!(contents.len(), 0, "Expected empty file");
    }
}

#[test]
fn test_fd_placeholder_index_ordering() {
    let expected_contents = vec!["FIRST".to_string(), "SECOND".to_string(), "THIRD".to_string()];
    let params = object(vec![
        ("file_2", placeholder(2)),
        ("file_0", placeholder(0)),
        ("file_1", placeholder(1)),
    ]);
    let message = request("verify_fd_ordering", params, 1);
    let received = pass(vec![MessageWithFds::new(message, expected_contents.clone())]).unwrap();
    assert_eq!(received[0].file_descriptors.len(), 3, "Expected exactly 3 file descriptors");
    for (i, contents) in received[0].file_descriptors.iter().enumerate() {
        assert_eq!(contents, &expected_contents[i], "FD at index {} has wrong content", i);
    }
}

#[test]
fn test_rapid_message_bursts() {
    let mut messages = Vec::new();
    for i in 0..20u64 {
        let has_fd = i % 3 == 0;
        let (params, fds) = if has_fd {
            (
                object(vec![("burst_id", number(i)), ("file", placeholder(0))]),
                vec![format!("Burst message {}", i)],
            )
        } else {
            (object(vec![("burst_id", number(i))]), vec![])
        };
        messages.push(MessageWithFds::new(request("burst_handler", params, i + 100), fds));
    }
    let received = pass(messages).unwrap();
    assert_eq!(received.len(), 20);
    for (i, message_with_fds) in received.iter().enumerate() {
        let expected_id = params(&message_with_fds.message).get("burst_id").unwrap().as_u64().unwrap();
        assert_eq!(expected_id, i as u64);
        if i % 3 == 0 {
            assert_eq!(
                message_with_fds.file_descriptors.len(),
                1,
                "Expected at most 1 FD per burst message"
            );
            let expected_content = format!("Burst message {}", expected_id);
            assert_eq!(message_with_fds.file_descriptors[0], expected_content);
        } else {
            assert!(message_with_fds.file_descriptors.is_empty());
        }
    }
}

#[test]
fn test_interleaved_requests_responses_notifications() {
    let with_fd = || object(vec![("type", text("with_fd")), ("file", placeholder(0))]);
    let without_fd = || object(vec![("type", text("without_fd"))]);
    let notification = |status: &str| {
        JsonRpcMessage::Notification(JsonRpcNotification::new(
            "notification_handler".to_string(),
            Some(object(vec![("status", text(status))])),
        ))
    };
    let content = |i: usize| format!("Interleaved content {}", i);
    let received = pass(vec![
        MessageWithFds::new(request("interleaved_method", with_fd(), 1), vec![content(0)]),
        MessageWithFds::new(notification("processing"), vec![]),
        MessageWithFds::new(request("interleaved_method", without_fd(), 2), vec![]),
        MessageWithFds::new(request("interleaved_method", with_fd(), 3), vec![content(1)]),
        MessageWithFds::new(notification("continuing"), vec![]),
        MessageWithFds::new(request("interleaved_method", with_fd(), 4), vec![content(2)]),
    ])
    .unwrap();
    assert_eq!(received.len(), 6);
    let mut next: usize = 0;
    for message_with_fds in &received {
        match &message_with_fds.message {
            JsonRpcMessage::Request(req) => match as_str(req.params.as_ref().unwrap().get("type").unwrap()) {
                "with_fd" => {
                    assert_eq!(
                        message_with_fds.file_descriptors.len(),
                        1,
                        "Expected 1 FD for with_fd type"
                    );
                    assert_eq!(message_with_fds.file_descriptors[0], content(next));
                    next += 1;
                }
                "without_fd" => assert!(
                    message_with_fds.file_descriptors.is_empty(),
                    "Expected no FDs for without_fd type"
                ),
                _ => panic!("Unknown type"),
            },
            JsonRpcMessage::Notification(_) => assert!(
                message_with_fds.file_descriptors.is_empty(),
                "Notifications should not have FDs in this test"
            ),
            JsonRpcMessage::Response(_) => panic!("Unexpected response"),
        }
    }
    assert_eq!(next, 3);
}

#[test]
fn test_invalid_json_framing_error() {
    let invalid_json = "{ invalid json content \n";
    let mut receiver: Receiver<String> = Receiver::new();
    match receiver.receive(Event::Read(invalid_json.as_bytes().to_vec(), vec![])) {
        Err(e) => assert_eq!(e, Error::FramingError),
        Ok(_) => panic!("Should have failed with framing error"),
    }
    // The error is fatal: the connection is closed.
    match receiver.receive(Event::Wanted) {
        Err(e) => assert_eq!(e, Error::ConnectionClosed),
        Ok(_) => panic!("Should have been closed"),
    }
}

#[test]
fn test_mismatched_fd_count_error() {
    let placeholders = "{\"jsonrpc\":\"2.0\",\"method\":\"mismatch_test\",\"params\":{\
        \"file1\":{\"__jsonrpc_fd__\":true,\"index\":0},\
        \"file2\":{\"__jsonrpc_fd__\":true,\"index\":1}},\"id\":1";

    // The message claims 2 FDs, but only 1 comes with it.
    let json_with_mismatch = format!("{},\"fds\":2}}", placeholders);
    let mut receiver = Receiver::new();
    match receiver.receive(Event::Read(
        json_with_mismatch.into_bytes(),
        vec!["Test content".to_string()],
    )) {
        Err(e) => assert_eq!(e, Error::MismatchedCount { expected: 2, found: 1 }),
        Ok(_) => panic!("Should have failed with mismatch error"),
    }

    // The top-level `fds` count alone says how many FDs go with a message, and without it
    // there are none. Placeholders are parameters like any others: what they mean is for the
    // application to say, so the message is delivered and not refused.
    let json_without_count = format!("{}}}", placeholders);
    let mut receiver: Receiver<String> = Receiver::new();
    let received = receive_all(&mut receiver, vec![(json_without_count.into_bytes(), vec![])]).unwrap();
    assert_eq!(received.len(), 1);
    assert_eq!(received[0].message.get_fds(), 0);
}

#[test]
fn test_invalid_placeholder_indices() {
    // The FDs go with the message by their count and by position, and the application layer
    // defines what the positions mean. Indices that leave gaps are for it to refuse, so the
    // message is sent and delivered here.
    let files = Json::Array(vec![placeholder(0), placeholder(2), placeholder(4)]);
    let fds: Vec<String> = (0..3).map(|i| format!("File {}", i)).collect();
    let message = request("invalid_indices_test", object(vec![("files", files)]), 1);
    let received = pass(vec![MessageWithFds::new(message, fds.clone())]).unwrap();
    assert_eq!(received[0].file_descriptors, fds);
}

#[test]
fn test_duplicate_placeholder_indices() {
    // As with gaps: an index that occurs twice is for the application layer to refuse, since
    // the FDs go with the message by their count and by position.
    let files = Json::Array(vec![placeholder(0), placeholder(0)]);
    let fds: Vec<String> = (0..2).map(|i| format!("File {}", i)).collect();
    let message = request("duplicate_indices_test", object(vec![("files", files)]), 1);
    let received = pass(vec![MessageWithFds::new(message, fds.clone())]).unwrap();
    assert_eq!(received[0].file_descriptors, fds);
}

#[test]
fn test_no_placeholders_but_fds_provided() {
    let params = object(vec![("message", text("This message has no FD placeholders"))]);
    let message = request("dangling_fds_test", params, 1);
    let received =
        pass(vec![MessageWithFds::new(message, vec!["Dangling FD content".to_string()])]).unwrap();
    assert_eq!(received[0].file_descriptors, vec!["Dangling FD content".to_string()]);
}

#[test]
fn test_connection_drop_with_pending_fds() {
    let params = object(vec![("file", placeholder(0))]);
    let message = request("test_method", params, 1);
    let mut sender = Sender::new();
    let transmission =
        sender.send(MessageWithFds::new(message, vec!["Connection drop test".to_string()])).unwrap();
    // The connection drops when half of the message has come across.
    let mut receiver = Receiver::new();
    let half = match transmission.next() {
        Write::Send { bytes, fds } => (bytes[..bytes.len() / 2].to_vec(), fds.to_vec()),
        Write::Done => panic!("Nothing to send"),
    };
    assert!(matches!(receiver.receive(Event::Read(half.0, half.1)), Ok(Action::Read)));
    match receiver.receive(Event::Read(vec![], vec![])) {
        Err(e) => assert_eq!(e, Error::ConnectionClosed),
        Ok(_) => panic!("Unexpected successful receive"),
    }
}

#[test]
fn test_large_message_with_fds() {
    let large_content = "x".repeat(1024 * 1024);
    let large_data = "Y".repeat(50000);
    let params_sent = object(vec![
        ("file", placeholder(0)),
        ("large_data", text(&large_data)),
        ("description", text("Testing large message with file descriptor")),
    ]);
    let message = request("large_message_test", params_sent, 1);
    let received = pass(vec![MessageWithFds::new(message, vec![large_content.clone()])]).unwrap();
    assert_eq!(received[0].file_descriptors.len(), 1, "Expected exactly 1 file descriptor");
    assert_eq!(received[0].file_descriptors[0].len(), large_content.len(), "File size mismatch");
    let large_param = as_str(params(&received[0].message).get("large_data").unwrap());
    assert!(large_param.len() > 10000, "Large param should be substantial");
    assert_eq!(large_param, large_data);
}

#[test]
fn test_malformed_placeholder_structure() {
    let malformed = object(vec![(
        "file",
        object(vec![("__jsonrpc_fd__", text("not_boolean")), ("index", text("not_number"))]),
    )]);
    let mut count: usize = 0;
    Receiver::<String>::count_placeholders(&malformed, &mut count);
    assert_eq!(count, 0);
    let json_str = "{\"id\":1,\"jsonrpc\":\"2.0\",\"method\":\"test\",\"params\":{\"file\":\
        {\"__jsonrpc_fd__\":\"not_boolean\",\"index\":\"not_number\"}}}";
    let mut receiver: Receiver<String> = Receiver::new();
    let received = receive_all(&mut receiver, vec![(json_str.as_bytes().to_vec(), vec![])]).unwrap();
    assert_eq!(received.len(), 1);
    assert!(received[0].file_descriptors.is_empty());
}

#[test]
fn test_pretty_printed_json() {
    let mut receiver: Receiver<String> = Receiver::new();
    for i in 1..=3u64 {
        let params = object(vec![
            ("message", text(&format!("Pretty message {}", i))),
            ("nested", object(vec![("key", text("value")), ("number", number(i))])),
        ]);
        let message = request("echo", params, i);
        let pretty_json = MessageWithFds::new(message.clone(), no_fds()).serialize_pretty().unwrap();
        assert!(pretty_json.contains('\n'), "Pretty JSON should contain newlines");
        let received = receive_all(&mut receiver, vec![(pretty_json.into_bytes(), vec![])]).unwrap();
        assert_eq!(received.len(), 1);
        assert_eq!(received[0].message, message);
    }
}

#[test]
fn test_concatenated_compact_json() {
    let mut concatenated = String::new();
    for i in 1..=3u64 {
        let message = request("echo", object(vec![("id", number(i))]), i);
        concatenated.push_str(&MessageWithFds::new(message, no_fds()).serialize().unwrap());
    }
    assert!(!concatenated.contains('\n'), "Compact JSON should not contain newlines");

    let mut receiver: Receiver<String> = Receiver::new();
    let received = receive_all(&mut receiver, vec![(concatenated.into_bytes(), vec![])]).unwrap();
    let final_count = received.len();
    assert_eq!(final_count, 3, "Should have processed 3 messages");
    for (i, message_with_fds) in received.iter().enumerate() {
        assert_eq!(params(&message_with_fds.message).get("id").unwrap().as_u64(), Some(i as u64 + 1));
    }
}

#[test]
fn test_mixed_pretty_and_compact_json() {
    let mut stream = String::new();
    for i in 1..=4u64 {
        let message = request("echo", object(vec![("iteration", number(i))]), i);
        let message_with_fds = MessageWithFds::new(message, no_fds());
        let json_str = if i % 2 == 0 {
            message_with_fds.serialize_pretty().unwrap()
        } else {
            message_with_fds.serialize().unwrap()
        };
        stream.push_str(&json_str);
    }
    let mut receiver: Receiver<String> = Receiver::new();
    let received = receive_all(&mut receiver, vec![(stream.into_bytes(), vec![])]).unwrap();
    assert_eq!(received.len(), 4);
    for (i, message_with_fds) in received.iter().enumerate() {
        let iteration = params(&message_with_fds.message).get("iteration").unwrap().as_u64();
        assert_eq!(iteration, Some(i as u64 + 1));
    }
}

#[test]
fn test_sender_pretty_mode() {
    let mut sender = Sender::new();
    sender.set_pretty(true);
    let mut receiver = Receiver::new();
    for i in 1..=3u64 {
        let params = object(vec![
            ("message", text(&format!("Pretty mode message {}", i))),
            ("nested", object(vec![("key", text("value"))])),
        ]);
        let message = request("echo", params, i);
        let transmission = sender.send(MessageWithFds::new(message.clone(), no_fds())).unwrap();
        let chunks = carry_out(transmission, usize::MAX);
        assert!(chunks[0].0.contains(&b'\n'));
        let received = receive_all(&mut receiver, chunks).unwrap();
        assert_eq!(received.len(), 1);
        assert_eq!(received[0].message, message);
    }
}

#[test]
fn test_large_message_exceeds_kernel_buffer() {
    let large_data = "x".repeat(1024 * 1024);
    let message = request("large_data", object(vec![("data", text(&large_data))]), 1);
    let mut sender = Sender::new();
    let transmission = sender.send(MessageWithFds::new(message, no_fds())).unwrap();
    // Each write takes no more than fits into the buffer of the socket.
    let chunks = carry_out(transmission, 200 * 1024);
    assert!(chunks.len() > 5);
    let mut receiver = Receiver::new();
    let received = receive_all(&mut receiver, chunks).unwrap();
    assert_eq!(received.len(), 1);
    match &received[0].message {
        JsonRpcMessage::Request(_) => {}
        _ => panic!("Expected request message"),
    }
    let received_data = as_str(params(&received[0].message).get("data").unwrap());
    assert_eq!(
        received_data.len(),
        large_data.len(),
        "Message was truncated! Expected {} bytes, got {} bytes",
        large_data.len(),
        received_data.len()
    );
    assert_eq!(received_data, large_data);
}

#[test]
fn test_large_message_with_fd() {
    let large_data = "y".repeat(1024 * 1024);
    let params_sent = object(vec![("data", text(&large_data)), ("file", placeholder(0))]);
    let message = request("large_data_with_fd", params_sent, 1);
    let mut sender = Sender::new();
    let transmission =
        sender.send(MessageWithFds::new(message, vec!["FD test content".to_string()])).unwrap();
    let chunks = carry_out(transmission, 200 * 1024);
    // The FD goes with the first chunk, and the others carry none.
    assert_eq!(chunks[0].1.len(), 1);
    assert!(chunks[1..].iter().all(|(_, fds)| fds.is_empty()));
    let mut receiver = Receiver::new();
    let received = receive_all(&mut receiver, chunks).unwrap();
    assert_eq!(received[0].file_descriptors.len(), 1, "Expected 1 file descriptor");
    assert_eq!(received[0].file_descriptors[0], "FD test content");
    match &received[0].message {
        JsonRpcMessage::Request(_) => {}
        _ => panic!("Expected request message"),
    }
    let received_data = as_str(params(&received[0].message).get("data").unwrap());
    assert_eq!(
        received_data.len(),
        large_data.len(),
        "Message was truncated! Expected {} bytes, got {} bytes",
        large_data.len(),
        received_data.len()
    );
}
