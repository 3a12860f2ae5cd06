use example_service::call::{Call, Method, Reply};
use example_service::error::{DecodeError, ErrorKind};
use example_service::json::{
    decode_call, decode_reply, decode_request, decode_response, encode_reply, encode_request,
    encode_response,
};
use example_service::message::{Request, Response};

#[test]
fn json_add_arguments_are_an_array_of_two_numbers() {
    assert_eq!(decode_call(Method::Add, b"[2,3]"), Ok(Call::Add { x: 2, y: 3 }));
    assert_eq!(decode_call(Method::Add, b" [ -7 , 2147483647 ] "), Ok(Call::Add { x: -7, y: i32::MAX }));
}

#[test]
fn json_hello_argument_is_an_array_of_one_string() {
    assert_eq!(
        decode_call(Method::Hello, b"[\"Bob\"]"),
        Ok(Call::Hello { name: String::from("Bob") })
    );
    assert_eq!(
        decode_call(Method::Hello, b"[\"a\\\"b\\u00e9\"]"),
        Ok(Call::Hello { name: String::from("a\"bé") })
    );
}

#[test]
fn json_arguments_of_the_wrong_shape_do_not_decode() {
    assert_eq!(decode_call(Method::Add, b"[2]"), Err(DecodeError {}));
    assert_eq!(decode_call(Method::Add, b"[2,3,4]"), Err(DecodeError {}));
    assert_eq!(decode_call(Method::Add, b"[2,\"3\"]"), Err(DecodeError {}));
    assert_eq!(decode_call(Method::Add, b"[2,2147483648]"), Err(DecodeError {}));
    assert_eq!(decode_call(Method::Add, b"[\"Bob\"]"), Err(DecodeError {}));
    assert_eq!(decode_call(Method::Hello, b"[2,3]"), Err(DecodeError {}));
    assert_eq!(decode_call(Method::Hello, b"\"Bob\""), Err(DecodeError {}));
    assert_eq!(decode_call(Method::Hello, b"[]"), Err(DecodeError {}));
}

#[test]
fn json_that_is_not_json_does_not_decode() {
    assert_eq!(decode_call(Method::Add, b""), Err(DecodeError {}));
    assert_eq!(decode_call(Method::Add, b"[2,3"), Err(DecodeError {}));
    assert_eq!(decode_call(Method::Add, b"[2,3] x"), Err(DecodeError {}));
    assert_eq!(decode_call(Method::Hello, &[b'[', b'"', 0xff, b'"', b']']), Err(DecodeError {}));
}

#[test]
fn json_return_values_are_a_number_or_a_string() {
    assert_eq!(encode_reply(&Reply::Int(5)), b"5".to_vec());
    assert_eq!(
        encode_reply(&Reply::Text(String::from("Hello, Bob!"))),
        b"\"Hello, Bob!\"".to_vec()
    );
    assert_eq!(encode_reply(&Reply::Text(String::from("a\"b\n"))), b"\"a\\\"b\\n\"".to_vec());
}

#[test]
fn json_integers_are_written_in_decimal() {
    assert_eq!(encode_reply(&Reply::Int(0)), b"0".to_vec());
    assert_eq!(encode_reply(&Reply::Int(7)), b"7".to_vec());
    assert_eq!(encode_reply(&Reply::Int(10)), b"10".to_vec());
    assert_eq!(encode_reply(&Reply::Int(-12)), b"-12".to_vec());
    assert_eq!(encode_reply(&Reply::Int(1900)), b"1900".to_vec());
    assert_eq!(encode_reply(&Reply::Int(i32::MAX)), b"2147483647".to_vec());
    assert_eq!(encode_reply(&Reply::Int(i32::MIN)), b"-2147483648".to_vec());
}

#[test]
fn json_request_is_an_array_of_id_name_and_payload() {
    let request = Request { id: 7, method: String::from("add"), payload: b"[2,3]".to_vec() };
    assert_eq!(encode_request(&request), b"[7,\"add\",[91,50,44,51,93]]".to_vec());
    assert_eq!(decode_request(b"[7,\"add\",[91,50,44,51,93]]"), Ok(request));
}

#[test]
fn json_requests_read_back() {
    let requests = vec![
        Request { id: 0, method: String::new(), payload: vec![] },
        Request { id: u64::MAX, method: String::from("line\nbreak \"q\" é"), payload: vec![0, 10, 255] },
        Request { id: 1, method: String::from("hello"), payload: b"[\"Bob\"]".to_vec() },
    ];
    for request in requests {
        let text = encode_request(&request);
        assert!(!text.contains(&0x0a));
        assert_eq!(decode_request(&text), Ok(request));
    }
}

#[test]
fn json_request_of_the_wrong_shape_does_not_decode() {
    assert_eq!(decode_request(b""), Err(DecodeError {}));
    assert_eq!(decode_request(b"x"), Err(DecodeError {}));
    assert_eq!(decode_request(b"5"), Err(DecodeError {}));
    assert_eq!(decode_request(b"[7,\"add\"]"), Err(DecodeError {}));
    assert_eq!(decode_request(b"[7,\"add\",[2,3],4]"), Err(DecodeError {}));
    assert_eq!(decode_request(b"[-1,\"add\",[]]"), Err(DecodeError {}));
    assert_eq!(decode_request(b"[7,\"add\",[256]]"), Err(DecodeError {}));
    assert_eq!(decode_request(b"[7,\"add\",[2,3]"), Err(DecodeError {}));
}

#[test]
fn json_request_may_carry_white_space() {
    assert_eq!(
        decode_request(b" [ 7 , \"add\" , [ 1 ] ] \r"),
        Ok(Request { id: 7, method: String::from("add"), payload: vec![1] })
    );
}

#[test]
fn json_response_is_an_array_of_id_code_and_payload() {
    assert_eq!(encode_response(&Response { id: 7, outcome: Ok(b"5".to_vec()) }), b"[7,0,[53]]".to_vec());
    assert_eq!(
        encode_response(&Response { id: 7, outcome: Err(ErrorKind::UnknownMethod) }),
        b"[7,1,[]]".to_vec()
    );
    assert_eq!(
        encode_response(&Response { id: 8, outcome: Err(ErrorKind::ArgumentDecode) }),
        b"[8,2,[]]".to_vec()
    );
    assert_eq!(
        encode_response(&Response { id: 9, outcome: Err(ErrorKind::Handler) }),
        b"[9,3,[]]".to_vec()
    );
    assert_eq!(
        encode_response(&Response { id: 10, outcome: Err(ErrorKind::Decode) }),
        b"[10,4,[]]".to_vec()
    );
}

#[test]
fn json_responses_read_back() {
    let responses = vec![
        Response { id: 0, outcome: Ok(vec![]) },
        Response { id: 7, outcome: Ok(b"\"Hello, Bob!\"".to_vec()) },
        Response { id: u64::MAX, outcome: Ok(vec![10, 13, 0, 255]) },
        Response { id: 3, outcome: Err(ErrorKind::UnknownMethod) },
        Response { id: 4, outcome: Err(ErrorKind::ArgumentDecode) },
        Response { id: 5, outcome: Err(ErrorKind::Handler) },
        Response { id: 6, outcome: Err(ErrorKind::Decode) },
    ];
    for response in responses {
        let text = encode_response(&response);
        assert!(!text.contains(&0x0a));
        assert_eq!(decode_response(&text), Ok(response));
    }
}

#[test]
fn json_response_with_an_unknown_code_or_a_payload_behind_a_failure_does_not_decode() {
    assert_eq!(decode_response(b"[7,5,[]]"), Err(DecodeError {}));
    assert_eq!(decode_response(b"[7,255,[]]"), Err(DecodeError {}));
    assert_eq!(decode_response(b"[7,1,[53]]"), Err(DecodeError {}));
    assert_eq!(decode_response(b"[7,256,[]]"), Err(DecodeError {}));
    assert_eq!(decode_response(b"[7,0]"), Err(DecodeError {}));
    assert_eq!(decode_response(b"x"), Err(DecodeError {}));
}

#[test]
fn json_return_values_read_back() {
    for x in [0, 5, -5, 10, 1900, i32::MIN, i32::MAX] {
        assert_eq!(decode_reply(Method::Add, &encode_reply(&Reply::Int(x))), Ok(Reply::Int(x)));
    }
    for s in ["", "Hello, Bob!", "a\"b\\c\n\r\t\u{8}\u{c}\u{1}\u{7f}", "Grüße \u{1F600}"] {
        let reply = Reply::Text(String::from(s));
        assert_eq!(decode_reply(Method::Hello, &encode_reply(&reply)), Ok(reply));
    }
}

#[test]
fn json_return_value_of_another_type_does_not_decode() {
    assert_eq!(decode_reply(Method::Add, b"\"5\""), Err(DecodeError {}));
    assert_eq!(decode_reply(Method::Add, b"5.0"), Err(DecodeError {}));
    assert_eq!(decode_reply(Method::Add, b"2147483648"), Err(DecodeError {}));
    assert_eq!(decode_reply(Method::Add, b""), Err(DecodeError {}));
    assert_eq!(decode_reply(Method::Hello, b"5"), Err(DecodeError {}));
    assert_eq!(decode_reply(Method::Hello, b"\"open"), Err(DecodeError {}));
    assert_eq!(decode_reply(Method::Add, b"5"), Ok(Reply::Int(5)));
    assert_eq!(decode_reply(Method::Hello, b"\"Bob\""), Ok(Reply::Text(String::from("Bob"))));
}
