//! The methods of the service as data: which methods there are, a call of
//! one with its typed arguments, and a typed return value.

use vstd::prelude::*;
use vstd::string::*;
use vstd::utf8::*;

verus! {

/// A method of the service.
#[derive(Clone, Copy, Debug, PartialEq, Eq, Structural)]
pub enum Method {
    /// `hello(name: text) -> text`
    Hello,
    /// `add(x: int, y: int) -> int`
    Add,
}

/// The name under which requests ask for a method.
pub open spec fn method_name(method: Method) -> Seq<char> {
    match method {
        Method::Hello => "hello"@,
        Method::Add => "add"@,
    }
}

/// The method that goes by `name`, if the service defines one.
pub open spec fn method_named(name: Seq<char>) -> Option<Method> {
    if name == "hello"@ {
        Some(Method::Hello)
    } else if name == "add"@ {
        Some(Method::Add)
    } else {
        None
    }
}

/// Every method is found under its own name.
pub proof fn lemma_method_named_of_name(method: Method)
    ensures
        method_named(method_name(method)) == Some(method),
{
    reveal_strlit("hello");
    reveal_strlit("add");
    assert("hello"@.len() != "add"@.len());
}

/// Looks a method up by name.
pub fn lookup(name: &str) -> (r: Option<Method>)
    ensures
        r == method_named(name@),
{
    let given = String::from_str(name);
    if given == String::from_str("hello") {
        Some(Method::Hello)
    } else if given == String::from_str("add") {
        Some(Method::Add)
    } else {
        None
    }
}

/// A call of one method with its arguments, decoded into their types.
#[derive(Debug, PartialEq, Eq)]
pub enum Call {
    Hello { name: String },
    Add { x: i32, y: i32 },
}

/// What a [`Call`] stands for.
pub enum CallModel {
    Hello { name: Seq<char> },
    Add { x: i32, y: i32 },
}

impl CallModel {
    /// The method that is called.
    pub open spec fn method(self) -> Method {
        match self {
            CallModel::Hello { .. } => Method::Hello,
            CallModel::Add { .. } => Method::Add,
        }
    }

    /// Text arguments are short enough for their length to be written in
    /// eight bytes. Every executable call is.
    pub open spec fn wf(self) -> bool {
        match self {
            CallModel::Hello { name } => encode_utf8(name).len() <= u64::MAX,
            CallModel::Add { .. } => true,
        }
    }
}

impl View for Call {
    type V = CallModel;

    open spec fn view(&self) -> CallModel {
        match self {
            Call::Hello { name } => CallModel::Hello { name: name@ },
            Call::Add { x, y } => CallModel::Add { x: *x, y: *y },
        }
    }
}

impl Call {
    /// The method that is called.
    pub fn method(&self) -> (m: Method)
        ensures
            m == self@.method(),
    {
        match self {
            Call::Hello { .. } => Method::Hello,
            Call::Add { .. } => Method::Add,
        }
    }
}

/// A return value in its type.
#[derive(Debug, PartialEq, Eq)]
pub enum Reply {
    Text(String),
    Int(i32),
}

/// What a [`Reply`] stands for.
pub enum ReplyModel {
    Text(Seq<char>),
    Int(i32),
}

impl ReplyModel {
    /// The value has the return type of `method`.
    pub open spec fn answers(self, method: Method) -> bool {
        match method {
            Method::Hello => self is Text,
            Method::Add => self is Int,
        }
    }

    /// A text is short enough for its length to be written in eight bytes.
    /// Every executable return value is.
    pub open spec fn wf(self) -> bool {
        match self {
            ReplyModel::Text(s) => encode_utf8(s).len() <= u64::MAX,
            ReplyModel::Int(_) => true,
        }
    }
}

impl View for Reply {
    type V = ReplyModel;

    open spec fn view(&self) -> ReplyModel {
        match self {
            Reply::Text(s) => ReplyModel::Text(s@),
            Reply::Int(x) => ReplyModel::Int(*x),
        }
    }
}

} // verus!
