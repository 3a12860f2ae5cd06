use example_service::binary::{decode_call, decode_reply, encode_call, encode_reply};
use example_service::call::{Call, Method, Reply};
use example_service::error::DecodeError;

#[test]
fn add_arguments_are_two_tagged_integers() {
    assert_eq!(encode_call(&Call::Add { x: 2, y: 3 }), vec![1, 0, 0, 0, 2, 1, 0, 0, 0, 3]);
    assert_eq!(
        encode_call(&Call::Add { x: -1, y: i32::MIN }),
        vec![1, 0xff, 0xff, 0xff, 0xff, 1, 0x80, 0, 0, 0]
    );
}

#[test]
fn hello_argument_is_one_tagged_text() {
    assert_eq!(
        encode_call(&Call::Hello { name: String::from("Bob") }),
        vec![2, 0, 0, 0, 0, 0, 0, 0, 3, b'B', b'o', b'b']
    );
}

#[test]
fn calls_round_trip() {
    let calls = vec![
        Call::Add { x: 2, y: 3 },
        Call::Add { x: i32::MAX, y: i32::MIN },
        Call::Add { x: 0, y: -1 },
        Call::Hello { name: String::new() },
        Call::Hello { name: String::from("Bob") },
        Call::Hello { name: String::from("Zoë\n\u{1F600}") },
    ];
    for call in calls {
        let bytes = encode_call(&call);
        assert_eq!(decode_call(call.method(), &bytes), Ok(call));
    }
}

#[test]
fn arguments_of_another_method_do_not_decode() {
    let add = encode_call(&Call::Add { x: 2, y: 3 });
    let hello = encode_call(&Call::Hello { name: String::from("Bob") });
    assert_eq!(decode_call(Method::Hello, &add), Err(DecodeError {}));
    assert_eq!(decode_call(Method::Add, &hello), Err(DecodeError {}));
}

#[test]
fn arguments_cut_short_or_prolonged_do_not_decode() {
    let add = encode_call(&Call::Add { x: 2, y: 3 });
    for cut in 0..add.len() {
        assert_eq!(decode_call(Method::Add, &add[..cut]), Err(DecodeError {}));
    }
    let mut longer = add.clone();
    longer.push(0);
    assert_eq!(decode_call(Method::Add, &longer), Err(DecodeError {}));

    let hello = encode_call(&Call::Hello { name: String::from("Bob") });
    for cut in 0..hello.len() {
        assert_eq!(decode_call(Method::Hello, &hello[..cut]), Err(DecodeError {}));
    }
    let mut longer = hello.clone();
    longer.push(b'!');
    assert_eq!(decode_call(Method::Hello, &longer), Err(DecodeError {}));
}

#[test]
fn text_that_is_not_utf8_does_not_decode() {
    let bytes = vec![2, 0, 0, 0, 0, 0, 0, 0, 2, 0xc3, 0x28];
    assert_eq!(decode_call(Method::Hello, &bytes), Err(DecodeError {}));
    assert_eq!(decode_reply(Method::Hello, &bytes), Err(DecodeError {}));
}

#[test]
fn return_values_are_tagged() {
    assert_eq!(encode_reply(&Reply::Int(5)), vec![1, 0, 0, 0, 5]);
    assert_eq!(
        encode_reply(&Reply::Text(String::from("Hello, Bob!"))),
        vec![
            2, 0, 0, 0, 0, 0, 0, 0, 11, b'H', b'e', b'l', b'l', b'o', b',', b' ', b'B', b'o',
            b'b', b'!'
        ]
    );
}

#[test]
fn return_values_round_trip() {
    for x in [0, 5, -5, i32::MIN, i32::MAX] {
        assert_eq!(decode_reply(Method::Add, &encode_reply(&Reply::Int(x))), Ok(Reply::Int(x)));
    }
    for s in ["", "Hello, Bob!", "Grüße"] {
        let reply = Reply::Text(String::from(s));
        assert_eq!(decode_reply(Method::Hello, &encode_reply(&reply)), Ok(reply));
    }
}

#[test]
fn return_value_of_another_type_does_not_decode() {
    assert_eq!(decode_reply(Method::Hello, &encode_reply(&Reply::Int(5))), Err(DecodeError {}));
    assert_eq!(
        decode_reply(Method::Add, &encode_reply(&Reply::Text(String::from("5")))),
        Err(DecodeError {})
    );
    assert_eq!(decode_reply(Method::Add, &[]), Err(DecodeError {}));
    assert_eq!(decode_reply(Method::Add, &[1, 0, 0, 0, 5, 0]), Err(DecodeError {}));
    assert_eq!(decode_reply(Method::Add, &[3, 0, 0, 0, 5]), Err(DecodeError {}));
}
