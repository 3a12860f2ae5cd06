use example_service::binary;
use example_service::call::{Call, Method, Reply};
use example_service::dispatch::{decode_call, decode_reply, encode_reply, Dispatcher, Format};
use example_service::error::ErrorKind;
use example_service::message::{Request, Response};
use example_service::service::HelloServer;

fn binary_request(id: u64, method: &str, call: &Call) -> Request {
    Request { id, method: String::from(method), payload: binary::encode_call(call) }
}

#[test]
fn add_two_and_three_is_five() {
    let dispatcher = Dispatcher::new(HelloServer {}, Format::Binary);
    let response = dispatcher.dispatch(&binary_request(7, "add", &Call::Add { x: 2, y: 3 }));
    assert_eq!(response.id, 7);
    let payload = response.outcome.unwrap();
    assert_eq!(binary::decode_reply(Method::Add, &payload), Ok(Reply::Int(5)));
}

#[test]
fn hello_bob_is_greeted() {
    let dispatcher = Dispatcher::new(HelloServer {}, Format::Binary);
    let call = Call::Hello { name: String::from("Bob") };
    let response = dispatcher.dispatch(&binary_request(11, "hello", &call));
    assert_eq!(response.id, 11);
    let payload = response.outcome.unwrap();
    assert_eq!(
        binary::decode_reply(Method::Hello, &payload),
        Ok(Reply::Text(String::from("Hello, Bob!")))
    );
}

#[test]
fn json_add_two_and_three_is_five() {
    let dispatcher = Dispatcher::new(HelloServer {}, Format::Json);
    let request = Request { id: 7, method: String::from("add"), payload: b"[2,3]".to_vec() };
    assert_eq!(dispatcher.dispatch(&request), Response { id: 7, outcome: Ok(b"5".to_vec()) });
}

#[test]
fn json_hello_bob_is_greeted() {
    let dispatcher = Dispatcher::new(HelloServer {}, Format::Json);
    let request = Request { id: 8, method: String::from("hello"), payload: b"[\"Bob\"]".to_vec() };
    assert_eq!(
        dispatcher.dispatch(&request),
        Response { id: 8, outcome: Ok(b"\"Hello, Bob!\"".to_vec()) }
    );
}

#[test]
fn every_defined_call_is_answered_under_its_id() {
    let dispatcher = Dispatcher::new(HelloServer {}, Format::Binary);
    let calls = vec![
        (Call::Add { x: -4, y: 4 }, Reply::Int(0)),
        (Call::Add { x: i32::MAX, y: -1 }, Reply::Int(i32::MAX - 1)),
        (Call::Hello { name: String::new() }, Reply::Text(String::from("Hello, !"))),
        (Call::Hello { name: String::from("Ann Lee") }, Reply::Text(String::from("Hello, Ann Lee!"))),
    ];
    let mut id = u64::MAX;
    for (call, expected) in calls {
        let name = match call.method() {
            Method::Hello => "hello",
            Method::Add => "add",
        };
        let response = dispatcher.dispatch(&binary_request(id, name, &call));
        assert_eq!(response.id, id);
        let payload = response.outcome.unwrap();
        assert_eq!(binary::decode_reply(call.method(), &payload), Ok(expected));
        id -= 1;
    }
}

#[test]
fn undefined_method_is_refused_under_the_same_id() {
    for format in [Format::Binary, Format::Json] {
        let dispatcher = Dispatcher::new(HelloServer {}, format);
        let request = Request { id: 42, method: String::from("subtract"), payload: b"[2,3]".to_vec() };
        assert_eq!(
            dispatcher.dispatch(&request),
            Response { id: 42, outcome: Err(ErrorKind::UnknownMethod) }
        );
    }
}

#[test]
fn arguments_that_do_not_decode_are_refused_under_the_same_id() {
    let dispatcher = Dispatcher::new(HelloServer {}, Format::Binary);
    let request = Request { id: 5, method: String::from("add"), payload: b"[2,3]".to_vec() };
    assert_eq!(
        dispatcher.dispatch(&request),
        Response { id: 5, outcome: Err(ErrorKind::ArgumentDecode) }
    );
    let dispatcher = Dispatcher::new(HelloServer {}, Format::Json);
    let request = Request { id: 6, method: String::from("add"), payload: vec![1, 0, 0, 0, 2, 1, 0, 0, 0, 3] };
    assert_eq!(
        dispatcher.dispatch(&request),
        Response { id: 6, outcome: Err(ErrorKind::ArgumentDecode) }
    );
    let request = Request { id: 6, method: String::from("hello"), payload: b"[2,3]".to_vec() };
    assert_eq!(
        dispatcher.dispatch(&request),
        Response { id: 6, outcome: Err(ErrorKind::ArgumentDecode) }
    );
}

#[test]
fn handler_failure_is_reported_under_the_same_id() {
    let dispatcher = Dispatcher::new(HelloServer {}, Format::Binary);
    let response =
        dispatcher.dispatch(&binary_request(3, "add", &Call::Add { x: i32::MAX, y: 1 }));
    assert_eq!(response, Response { id: 3, outcome: Err(ErrorKind::Handler) });
    let dispatcher = Dispatcher::new(HelloServer {}, Format::Json);
    let request = Request { id: 4, method: String::from("add"), payload: b"[-2147483648,-1]".to_vec() };
    assert_eq!(dispatcher.dispatch(&request), Response { id: 4, outcome: Err(ErrorKind::Handler) });
}

#[test]
fn the_format_decides_how_arguments_are_read() {
    assert_eq!(decode_call(Format::Json, Method::Add, b"[2,3]"), Some(Call::Add { x: 2, y: 3 }));
    assert_eq!(decode_call(Format::Binary, Method::Add, b"[2,3]"), None);
    let bytes = binary::encode_call(&Call::Add { x: 2, y: 3 });
    assert_eq!(decode_call(Format::Binary, Method::Add, &bytes), Some(Call::Add { x: 2, y: 3 }));
    assert_eq!(decode_call(Format::Json, Method::Add, &bytes), None);
}

#[test]
fn the_format_decides_how_return_values_are_written() {
    assert_eq!(encode_reply(Format::Json, &Reply::Int(5)), b"5".to_vec());
    assert_eq!(encode_reply(Format::Binary, &Reply::Int(5)), vec![1, 0, 0, 0, 5]);
}

#[test]
fn json_answer_decodes_to_what_the_handler_returns() {
    let dispatcher = Dispatcher::new(HelloServer {}, Format::Json);
    let cases = vec![
        ("add", b"[2,3]".to_vec(), Method::Add, Reply::Int(5)),
        ("add", b"[-2147483648,0]".to_vec(), Method::Add, Reply::Int(i32::MIN)),
        ("hello", b"[\"Bob\"]".to_vec(), Method::Hello, Reply::Text(String::from("Hello, Bob!"))),
        (
            "hello",
            b"[\"a\\nb \\\"q\\\"\"]".to_vec(),
            Method::Hello,
            Reply::Text(String::from("Hello, a\nb \"q\"!")),
        ),
    ];
    for (name, payload, method, expected) in cases {
        let request = Request { id: 21, method: String::from(name), payload };
        let response = dispatcher.dispatch(&request);
        assert_eq!(response.id, 21);
        let payload = response.outcome.unwrap();
        assert_eq!(decode_reply(Format::Json, method, &payload), Some(expected));
    }
}

#[test]
fn the_format_decides_how_return_values_are_read() {
    assert_eq!(decode_reply(Format::Json, Method::Add, b"5"), Some(Reply::Int(5)));
    assert_eq!(decode_reply(Format::Binary, Method::Add, b"5"), None);
    assert_eq!(decode_reply(Format::Binary, Method::Add, &[1, 0, 0, 0, 5]), Some(Reply::Int(5)));
    assert_eq!(decode_reply(Format::Json, Method::Add, &[1, 0, 0, 0, 5]), None);
}
