use jsonrpc_fdpass::message::{get_fd_count, skip_if_zero_or_none};
use jsonrpc_fdpass::{
    file_descriptor_error, Error, Json, JsonNumber, JsonRpcError, JsonRpcMessage,
    JsonRpcNotification, JsonRpcRequest, JsonRpcResponse, MessageWithFds,
    FILE_DESCRIPTOR_ERROR_CODE,
};

fn text(s: &str) -> Json {
    Json::String(s.to_string())
}

fn number(n: u64) -> Json {
    Json::Number(JsonNumber::PosInt(n))
}

fn object(members: Vec<(&str, Json)>) -> Json {
    Json::Object(members.into_iter().map(|(key, value)| (key.to_string(), value)).collect())
}

fn parse(json_str: &str) -> Json {
    jsonrpc_fdpass::codec::parse(json_str).unwrap()
}

fn read(json_str: &str) -> Result<JsonRpcMessage, Error> {
    JsonRpcMessage::from_json_value(parse(json_str))
}

fn serialize(message: JsonRpcMessage) -> String {
    MessageWithFds::new(message, Vec::<u32>::new()).serialize().unwrap()
}

fn refused(json_str: &str, reason: &str) {
    assert_eq!(read(json_str), Err(Error::InvalidMessage(reason.to_string())), "{}", json_str);
}

fn not_json_for_message(json_str: &str) {
    assert!(matches!(read(json_str), Err(Error::Json(_))), "{}", json_str);
}

#[test]
fn fd_count_is_read_from_the_top_level() {
    assert_eq!(get_fd_count(&parse("{\"fds\":3}")), 3);
    assert_eq!(get_fd_count(&parse("{\"fds\":0}")), 0);
    assert_eq!(get_fd_count(&parse("{}")), 0);
    assert_eq!(get_fd_count(&parse("{\"params\":{\"fds\":3}}")), 0);
    assert_eq!(get_fd_count(&parse("{\"fds\":null}")), 0);
    assert_eq!(get_fd_count(&parse("{\"fds\":-1}")), 0);
    assert_eq!(get_fd_count(&parse("{\"fds\":1.0}")), 0);
    assert_eq!(get_fd_count(&parse("{\"fds\":\"2\"}")), 0);
    assert_eq!(get_fd_count(&parse("[1,2]")), 0);
    assert_eq!(get_fd_count(&Json::Object(vec![
        ("fds".to_string(), number(1)),
        ("fds".to_string(), number(2)),
    ])), 2);
}

#[test]
fn fds_field_is_skipped_without_fds() {
    assert!(skip_if_zero_or_none(&None));
    assert!(skip_if_zero_or_none(&Some(0)));
    assert!(!skip_if_zero_or_none(&Some(1)));
}

#[test]
fn request_is_built_and_written() {
    let request = JsonRpcRequest::new("sum".to_string(), Some(Json::Array(vec![number(1), number(2)])), number(7));
    assert_eq!(request.jsonrpc, "2.0");
    assert_eq!(request.method, "sum");
    assert_eq!(request.id, number(7));
    assert_eq!(request.fds, None);
    assert_eq!(
        serialize(JsonRpcMessage::Request(request)),
        "{\"id\":7,\"jsonrpc\":\"2.0\",\"method\":\"sum\",\"params\":[1,2]}"
    );
    assert_eq!(
        serialize(JsonRpcMessage::Request(JsonRpcRequest::new("go".to_string(), None, Json::Null))),
        "{\"id\":null,\"jsonrpc\":\"2.0\",\"method\":\"go\"}"
    );
}

#[test]
fn response_is_built_and_written() {
    let response = JsonRpcResponse::success(text("done"), number(1));
    assert_eq!(response.jsonrpc, "2.0");
    assert_eq!(response.error, None);
    assert_eq!(
        serialize(JsonRpcMessage::Response(response)),
        "{\"id\":1,\"jsonrpc\":\"2.0\",\"result\":\"done\"}"
    );
    let response = JsonRpcResponse::error(file_descriptor_error(), number(2));
    assert_eq!(response.result, None);
    assert_eq!(
        serialize(JsonRpcMessage::Response(response)),
        "{\"error\":{\"code\":-32050,\"message\":\"File Descriptor Error\"},\"id\":2,\"jsonrpc\":\"2.0\"}"
    );
}

#[test]
fn notification_is_built_and_written() {
    let notification = JsonRpcNotification::new("tick".to_string(), None);
    assert_eq!(notification.jsonrpc, "2.0");
    assert_eq!(
        serialize(JsonRpcMessage::Notification(notification)),
        "{\"jsonrpc\":\"2.0\",\"method\":\"tick\"}"
    );
}

#[test]
fn error_object_of_a_fatal_error() {
    let error = file_descriptor_error();
    assert_eq!(FILE_DESCRIPTOR_ERROR_CODE, -32050);
    assert_eq!(error.code, -32050);
    assert_eq!(error.message, "File Descriptor Error");
    assert_eq!(error.data, None);
}

#[test]
fn kind_is_told_by_the_members() {
    assert!(matches!(
        read("{\"jsonrpc\":\"2.0\",\"method\":\"m\",\"id\":1}"),
        Ok(JsonRpcMessage::Request(_))
    ));
    assert!(matches!(
        read("{\"jsonrpc\":\"2.0\",\"method\":\"m\",\"id\":1,\"result\":2}"),
        Ok(JsonRpcMessage::Request(_))
    ));
    assert!(matches!(
        read("{\"jsonrpc\":\"2.0\",\"result\":2,\"id\":1}"),
        Ok(JsonRpcMessage::Response(_))
    ));
    assert!(matches!(
        read("{\"jsonrpc\":\"2.0\",\"error\":{\"code\":1,\"message\":\"x\"},\"id\":1}"),
        Ok(JsonRpcMessage::Response(_))
    ));
    assert!(matches!(
        read("{\"jsonrpc\":\"2.0\",\"method\":\"m\"}"),
        Ok(JsonRpcMessage::Notification(_))
    ));
    refused("{\"jsonrpc\":\"2.0\",\"id\":1}", "Invalid JSON-RPC message");
    refused("{}", "Invalid JSON-RPC message");
    refused("[]", "Expected JSON object");
    refused("42", "Expected JSON object");
    refused("null", "Expected JSON object");
}

#[test]
fn members_are_checked() {
    not_json_for_message("{\"method\":\"m\",\"id\":1}");
    not_json_for_message("{\"jsonrpc\":2.0,\"method\":\"m\",\"id\":1}");
    not_json_for_message("{\"jsonrpc\":\"2.0\",\"method\":1,\"id\":1}");
    not_json_for_message("{\"jsonrpc\":\"2.0\",\"method\":\"m\",\"id\":1,\"fds\":-1}");
    not_json_for_message("{\"jsonrpc\":\"2.0\",\"method\":\"m\",\"id\":1,\"fds\":\"1\"}");
    not_json_for_message("{\"jsonrpc\":\"2.0\",\"method\":\"m\",\"fds\":1.5}");
    not_json_for_message("{\"jsonrpc\":\"2.0\",\"result\":1}");
    not_json_for_message("{\"jsonrpc\":\"2.0\",\"method\":\"m\",\"result\":1}");
    not_json_for_message("{\"jsonrpc\":\"2.0\",\"id\":1,\"error\":{\"code\":1}}");
    not_json_for_message("{\"jsonrpc\":\"2.0\",\"id\":1,\"error\":{\"code\":1,\"message\":\"x\",\"more\":1}}");
    not_json_for_message("{\"jsonrpc\":\"2.0\",\"id\":1,\"error\":{\"code\":2147483648,\"message\":\"x\"}}");
    not_json_for_message("{\"jsonrpc\":\"2.0\",\"id\":1,\"error\":[1,\"x\"]}");
    not_json_for_message("{\"jsonrpc\":\"2.0\",\"id\":1,\"error\":\"x\"}");
    match read("{\"method\":\"m\",\"id\":1}") {
        Err(Error::Json(reason)) => assert_eq!(reason, "missing field `jsonrpc`"),
        _ => panic!("a request without a version"),
    }
    // What is wrong with a member is said first, in the order of the keys, and then what is
    // missing, in the order in which a message has its members.
    let fault = |json_str: &str| match read(json_str) {
        Err(Error::Json(reason)) => reason,
        _ => panic!("a fault was expected"),
    };
    assert_eq!(fault("{\"result\":1}"), "missing field `jsonrpc`");
    assert_eq!(
        fault("{\"id\":1,\"method\":5}"),
        "invalid type: integer `5`, expected a string"
    );
    assert_eq!(
        fault("{\"fds\":true,\"id\":1,\"method\":5}"),
        "invalid type: boolean `true`, expected usize"
    );
    assert_eq!(
        fault("{\"error\":1,\"fds\":true}"),
        "invalid type: integer `1`, expected struct ErrorObject"
    );
    assert_eq!(fault("{\"method\":\"m\"}"), "missing field `jsonrpc`");
    match read("{\"jsonrpc\":\"2.0\",\"result\":1}") {
        Err(Error::Json(reason)) => assert_eq!(reason, "missing field `id`"),
        _ => panic!("a response without an id"),
    }
    match read("{\"jsonrpc\":null,\"method\":\"m\"}") {
        Err(Error::Json(reason)) => assert_eq!(reason, "invalid type: null, expected a string"),
        _ => panic!("a version that is no string"),
    }
}

#[test]
fn null_and_absent_say_the_same() {
    let message = read("{\"jsonrpc\":\"2.0\",\"method\":\"m\",\"params\":null,\"id\":null,\"fds\":null}").unwrap();
    assert_eq!(
        message,
        JsonRpcMessage::Request(JsonRpcRequest::new("m".to_string(), None, Json::Null))
    );
    match read("{\"jsonrpc\":\"2.0\",\"result\":null,\"error\":null,\"id\":1}").unwrap() {
        JsonRpcMessage::Response(res) => {
            assert_eq!(res.result, None);
            assert_eq!(res.error, None);
        }
        _ => panic!("not a response"),
    }
}

#[test]
fn unknown_members_are_ignored() {
    assert_eq!(
        read("{\"jsonrpc\":\"2.0\",\"method\":\"m\",\"extra\":[1,2]}").unwrap(),
        JsonRpcMessage::Notification(JsonRpcNotification::new("m".to_string(), None))
    );
}

#[test]
fn error_objects_are_read() {
    let error = |json_str: &str| match read(json_str).unwrap() {
        JsonRpcMessage::Response(res) => res.error.unwrap(),
        _ => panic!("not a response"),
    };
    assert_eq!(
        error("{\"jsonrpc\":\"2.0\",\"id\":1,\"error\":{\"code\":-32601,\"message\":\"no\",\"data\":{\"b\":1,\"a\":[ ]}}}"),
        JsonRpcError {
            code: -32601,
            message: "no".to_string(),
            data: Some("{\"a\":[],\"b\":1}".to_string()),
        }
    );
    assert_eq!(
        error("{\"jsonrpc\":\"2.0\",\"id\":1,\"error\":{\"code\":5,\"message\":\"no\",\"data\":null}}"),
        JsonRpcError { code: 5, message: "no".to_string(), data: None }
    );
    assert_eq!(
        error("{\"jsonrpc\":\"2.0\",\"id\":1,\"error\":[7,\"no\",true]}"),
        JsonRpcError { code: 7, message: "no".to_string(), data: Some("true".to_string()) }
    );
}

#[test]
fn error_data_has_to_be_json() {
    let error = JsonRpcError { code: 1, message: "x".to_string(), data: Some("{\"a\": 1}".to_string()) };
    assert_eq!(
        error.to_json_value().unwrap(),
        object(vec![
            ("code", Json::Number(JsonNumber::NegInt(1))),
            ("message", text("x")),
            ("data", object(vec![("a", number(1))])),
        ])
    );
    assert_eq!(
        serialize(JsonRpcMessage::Response(JsonRpcResponse::error(error, number(1)))),
        "{\"error\":{\"code\":1,\"data\":{\"a\":1},\"message\":\"x\"},\"id\":1,\"jsonrpc\":\"2.0\"}"
    );
    let error = JsonRpcError { code: 1, message: "x".to_string(), data: Some("{".to_string()) };
    assert!(matches!(error.to_json_value(), Err(Error::Json(_))));
    let message = JsonRpcMessage::Response(JsonRpcResponse::error(error, number(1)));
    assert!(matches!(message.to_json_value(), Err(Error::Json(_))));
    assert!(matches!(MessageWithFds::new(message, vec![1u32]).serialize(), Err(Error::Json(_))));
}

#[test]
fn fds_are_set_and_got() {
    let mut messages = vec![
        JsonRpcMessage::Request(JsonRpcRequest::new("m".to_string(), None, number(1))),
        JsonRpcMessage::Response(JsonRpcResponse::success(Json::Null, number(1))),
        JsonRpcMessage::Notification(JsonRpcNotification::new("m".to_string(), None)),
    ];
    for message in &mut messages {
        let before = message.clone();
        assert_eq!(message.get_fds(), 0);
        message.set_fds(4);
        assert_eq!(message.get_fds(), 4);
        assert_ne!(*message, before);
        message.set_fds(0);
        assert_eq!(message.get_fds(), 0);
        assert_eq!(*message, before);
    }
}

#[test]
fn serialized_message_states_its_fds() {
    let message = JsonRpcMessage::Notification(JsonRpcNotification::new("m".to_string(), None));
    let with_fds = MessageWithFds::new(message, vec![10u32, 11, 12]);
    assert_eq!(with_fds.serialize().unwrap(), "{\"fds\":3,\"jsonrpc\":\"2.0\",\"method\":\"m\"}");
    assert_eq!(
        with_fds.serialize_pretty().unwrap(),
        "{\n  \"fds\": 3,\n  \"jsonrpc\": \"2.0\",\n  \"method\": \"m\"\n}"
    );
    assert_eq!(with_fds.serialize_with_placeholders().unwrap(), with_fds.serialize().unwrap());
    // The message itself is left as it is.
    assert_eq!(with_fds.message.get_fds(), 0);
}

#[test]
fn count_that_a_message_carries_is_replaced() {
    let mut message = JsonRpcMessage::Notification(JsonRpcNotification::new("m".to_string(), None));
    message.set_fds(9);
    assert_eq!(
        MessageWithFds::new(message, vec![1u32]).serialize().unwrap(),
        "{\"fds\":1,\"jsonrpc\":\"2.0\",\"method\":\"m\"}"
    );
}

#[test]
fn text_and_fds_make_a_message() {
    let json_str = "{\"jsonrpc\":\"2.0\",\"method\":\"m\",\"id\":1,\"fds\":2}";
    let made = MessageWithFds::from_json_with_fds(json_str, vec![5u32, 6]).unwrap();
    assert_eq!(made.file_descriptors, vec![5, 6]);
    assert_eq!(made.message.get_fds(), 2);
    match MessageWithFds::from_json_with_fds(json_str, vec![5u32]) {
        Err(e) => assert_eq!(e, Error::MismatchedCount { expected: 2, found: 1 }),
        Ok(_) => panic!("one file descriptor is missing"),
    }
    match MessageWithFds::from_json_with_fds("{\"jsonrpc\":\"2.0\",\"method\":\"m\"}", vec![5u32]) {
        Err(e) => assert_eq!(e, Error::MismatchedCount { expected: 0, found: 1 }),
        Ok(_) => panic!("the message has no file descriptors"),
    }
    assert!(matches!(
        MessageWithFds::from_json_with_fds("{", vec![5u32]),
        Err(Error::Json(_))
    ));
    assert!(matches!(
        MessageWithFds::from_json_with_fds("[]", Vec::<u32>::new()),
        Err(Error::InvalidMessage(_))
    ));
}

#[test]
fn message_survives_its_text() {
    let params = object(vec![
        ("big", number(u64::MAX)),
        ("list", Json::Array(vec![Json::Null, Json::Bool(false), text("\u{1f600} \"\\\n")])),
        ("small", Json::Number(JsonNumber::NegInt(i64::MIN))),
    ]);
    let messages = vec![
        JsonRpcMessage::Request(JsonRpcRequest::new("m".to_string(), Some(params.clone()), text("id"))),
        JsonRpcMessage::Response(JsonRpcResponse::success(params.clone(), number(3))),
        JsonRpcMessage::Notification(JsonRpcNotification::new("n".to_string(), Some(params))),
        JsonRpcMessage::Response(JsonRpcResponse::error(
            JsonRpcError { code: -1, message: "x".to_string(), data: Some("[1]".to_string()) },
            Json::Null,
        )),
    ];
    for message in messages {
        let with_fds = MessageWithFds::new(message.clone(), vec![1u32, 2]);
        for json_str in [with_fds.serialize().unwrap(), with_fds.serialize_pretty().unwrap()] {
            let back = MessageWithFds::from_json_with_fds(&json_str, vec![1u32, 2]).unwrap();
            let mut expected = message.clone();
            expected.set_fds(2);
            assert_eq!(back.message, expected);
        }
    }
}

#[test]
fn what_is_null_comes_back_absent() {
    let response = JsonRpcMessage::Response(JsonRpcResponse::success(Json::Null, number(1)));
    let json_str = serialize(response);
    assert_eq!(json_str, "{\"id\":1,\"jsonrpc\":\"2.0\",\"result\":null}");
    match MessageWithFds::from_json_with_fds(&json_str, Vec::<u32>::new()).unwrap().message {
        JsonRpcMessage::Response(res) => assert_eq!(res.result, None),
        _ => panic!("not a response"),
    }
}

#[test]
fn response_with_nothing_in_it_is_no_message() {
    let response = JsonRpcResponse {
        jsonrpc: "2.0".to_string(),
        result: None,
        error: None,
        id: number(1),
        fds: None,
    };
    let json_str = serialize(JsonRpcMessage::Response(response));
    refused(&json_str, "Invalid JSON-RPC message");
}

#[test]
fn raw_text_in_a_value_is_unwrapped() {
    let raw = object(vec![("$serde_json::private::RawValue", text("[1, 2]"))]);
    let value = object(vec![
        ("jsonrpc", text("2.0")),
        ("method", text("m")),
        ("params", raw),
    ]);
    match JsonRpcMessage::from_json_value(value).unwrap() {
        JsonRpcMessage::Notification(notif) => {
            assert_eq!(notif.params, Some(Json::Array(vec![number(1), number(2)])));
        }
        _ => panic!("not a notification"),
    }
    let broken = object(vec![("$serde_json::private::RawValue", text("["))]);
    let value = object(vec![("jsonrpc", text("2.0")), ("method", text("m")), ("params", broken)]);
    assert!(matches!(JsonRpcMessage::from_json_value(value), Err(Error::Json(_))));
}

#[test]
fn made_of_a_value() {
    let value = parse("{\"jsonrpc\":\"2.0\",\"method\":\"m\",\"fds\":1}");
    let made = MessageWithFds::from_json_value(value.clone(), vec![8u32]).unwrap();
    assert_eq!(made.to_json_value().unwrap().get("fds"), Some(&number(1)));
    assert_eq!(
        MessageWithFds::from_json_value(value, Vec::<u32>::new()).err(),
        Some(Error::MismatchedCount { expected: 1, found: 0 })
    );
}

#[test]
fn clones_are_equal() {
    let message = JsonRpcMessage::Response(JsonRpcResponse::error(
        JsonRpcError { code: 1, message: "x".to_string(), data: Some("1".to_string()) },
        object(vec![("deep", Json::Array(vec![object(vec![("a", Json::Bool(true))])]))]),
    ));
    assert_eq!(message.clone(), message);
    let message = JsonRpcMessage::Request(JsonRpcRequest::new("m".to_string(), Some(parse("1.5")), parse("-2")));
    assert_eq!(message.clone(), message);
}
