use example_service::call::{lookup, Call, Method, Reply};
use example_service::dispatch::invoke;
use example_service::error::HandlerError;
use example_service::service::{HelloServer, Service};

#[test]
fn hello_greets_by_name() {
    let server = HelloServer {};
    assert_eq!(server.hello("Bob"), Ok(String::from("Hello, Bob!")));
}

#[test]
fn hello_greets_the_empty_name() {
    let server = HelloServer {};
    assert_eq!(server.hello(""), Ok(String::from("Hello, !")));
}

#[test]
fn hello_keeps_the_name_as_it_is() {
    let server = HelloServer {};
    assert_eq!(server.hello("Zoë Å"), Ok(String::from("Hello, Zoë Å!")));
}

#[test]
fn add_sums() {
    let server = HelloServer {};
    assert_eq!(server.add(2, 3), Ok(5));
    assert_eq!(server.add(-7, 3), Ok(-4));
    assert_eq!(server.add(i32::MAX, i32::MIN), Ok(-1));
    assert_eq!(server.add(i32::MAX, 0), Ok(i32::MAX));
}

#[test]
fn add_fails_where_the_sum_does_not_fit() {
    let server = HelloServer {};
    assert_eq!(server.add(i32::MAX, 1), Err(HandlerError {}));
    assert_eq!(server.add(i32::MIN, -1), Err(HandlerError {}));
}

#[test]
fn methods_are_found_by_name() {
    assert_eq!(lookup("hello"), Some(Method::Hello));
    assert_eq!(lookup("add"), Some(Method::Add));
}

#[test]
fn other_names_are_not_methods() {
    assert_eq!(lookup(""), None);
    assert_eq!(lookup("Hello"), None);
    assert_eq!(lookup("add "), None);
    assert_eq!(lookup("subtract"), None);
}

#[test]
fn call_knows_its_method() {
    assert_eq!(Call::Hello { name: String::from("x") }.method(), Method::Hello);
    assert_eq!(Call::Add { x: 1, y: 2 }.method(), Method::Add);
}

#[test]
fn invoke_runs_the_handler_of_the_call() {
    let server = HelloServer {};
    assert_eq!(
        invoke(&server, &Call::Hello { name: String::from("Bob") }),
        Ok(Reply::Text(String::from("Hello, Bob!")))
    );
    assert_eq!(invoke(&server, &Call::Add { x: 2, y: 3 }), Ok(Reply::Int(5)));
    assert_eq!(invoke(&server, &Call::Add { x: i32::MAX, y: 1 }), Err(HandlerError {}));
}
