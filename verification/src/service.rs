//! The service definition and its reference implementation.
//!
//! The service has two methods: `hello`, which greets a name, and `add`,
//! which sums two 32-bit integers.

use vstd::prelude::*;
use vstd::string::*;
use crate::error::HandlerError;

verus! {

/// The methods of the service, and how an implementation answers them.
///
/// Each method has a specification function that says what the handler
/// returns; the dispatcher's contracts speak of those functions.
pub trait Service {
    /// The answer to `hello(name)`.
    spec fn hello_spec(&self, name: Seq<char>) -> Result<Seq<char>, HandlerError>;

    /// The answer to `add(x, y)`.
    spec fn add_spec(&self, x: i32, y: i32) -> Result<i32, HandlerError>;

    /// Greets `name`.
    fn hello(&self, name: &str) -> (r: Result<String, HandlerError>)
        ensures
            match r {
                Ok(s) => self.hello_spec(name@) == Ok::<Seq<char>, HandlerError>(s@),
                Err(e) => self.hello_spec(name@) == Err::<Seq<char>, HandlerError>(e),
            },
    ;

    /// Adds `x` and `y`.
    fn add(&self, x: i32, y: i32) -> (r: Result<i32, HandlerError>)
        ensures
            r == self.add_spec(x, y),
    ;
}

/// The greeting for `name`: `Hello, <name>!`.
pub open spec fn greeting(name: Seq<char>) -> Seq<char> {
    "Hello, "@ + name + "!"@
}

/// The reference implementation of the service.
#[derive(Clone, Copy, Debug, PartialEq, Eq, Structural)]
pub struct HelloServer {}

impl Service for HelloServer {
    open spec fn hello_spec(&self, name: Seq<char>) -> Result<Seq<char>, HandlerError> {
        Ok(greeting(name))
    }

    /// The sum, or a failure where it does not fit in 32 bits.
    open spec fn add_spec(&self, x: i32, y: i32) -> Result<i32, HandlerError> {
        if i32::MIN <= x + y <= i32::MAX {
            Ok((x + y) as i32)
        } else {
            Err(HandlerError {})
        }
    }

    fn hello(&self, name: &str) -> (r: Result<String, HandlerError>) {
        let mut s = String::from_str("Hello, ");
        s.append(name);
        s.append("!");
        Ok(s)
    }

    fn add(&self, x: i32, y: i32) -> (r: Result<i32, HandlerError>) {
        match x.checked_add(y) {
            Some(sum) => Ok(sum),
            None => Err(HandlerError {}),
        }
    }
}

} // verus!
