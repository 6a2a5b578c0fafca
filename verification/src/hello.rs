//! The greeter demonstration: two small services' message types, the
//! hand-written argument structures for them, and the reply builders the
//! demonstration servers answer with.

use vstd::prelude::*;

verus! {

/// The request of the plain greeting method.
#[derive(Debug, PartialEq, Eq)]
pub struct HelloRequest {
    pub name: String,
}

/// The reply of the plain greeting method.
#[derive(Debug, PartialEq, Eq)]
pub struct HelloReply {
    pub message: String,
}

/// A nested message of the richer greeting request.
#[derive(Debug, PartialEq, Eq)]
pub struct Field1 {
    pub fname: String,
    pub fcount: i32,
}

/// One member of the richer request's mutually-exclusive group.
#[derive(Debug, PartialEq, Eq)]
pub struct OneOf1 {
    pub one_of_str: String,
}

/// The richer request's mutually-exclusive group.
#[derive(Debug, PartialEq, Eq)]
pub enum OneOfField {
    OneOf1(OneOf1),
    OneOfInt(i32),
}

/// The enumeration the richer request carries as a number.
#[derive(Debug, PartialEq, Eq, Clone, Copy, Structural)]
pub enum EnumOk {
    Ok0,
    Ok1,
}

impl EnumOk {
    /// The number this enumerant travels as.
    pub fn value(&self) -> (r: i32)
        ensures
            *self is Ok0 ==> r == 0,
            *self is Ok1 ==> r == 1,
    {
        match self {
            EnumOk::Ok0 => 0,
            EnumOk::Ok1 => 1,
        }
    }
}

/// The richer greeting request.
#[derive(Debug, PartialEq, Eq)]
pub struct HelloRequest2 {
    pub name: String,
    pub field1: Option<Field1>,
    pub field2: Vec<String>,
    pub field3: i32,
    pub opt_string: Option<String>,
    pub one_of_field: Option<OneOfField>,
}

/// The hand-written flag set of the plain greeting method.
#[derive(Debug, PartialEq, Eq)]
pub struct HelloRequestArg {
    pub name: Option<String>,
}

impl HelloRequestArg {
    /// Overlay this flag set onto a request: a supplied name replaces the
    /// request's name, an absent one leaves the request unchanged.
    pub fn apply(&self, r: &mut HelloRequest)
        ensures
            match self.name {
                Option::Some(n) => *final(r) == (HelloRequest { name: n }),
                Option::None => *final(r) == *old(r),
            },
    {
        match &self.name {
            Option::Some(n) => {
                r.name = n.clone();
            }
            Option::None => {}
        }
    }
}

/// The hand-written flag set of the nested message.
#[derive(Debug, PartialEq, Eq)]
pub struct Field1Arg {
    pub fname: String,
    pub fcount: i32,
}

/// The hand-written flag set of the richer greeting method.
#[derive(Debug, PartialEq, Eq)]
pub struct HelloRequest2Arg {
    pub name: String,
    pub field1: Option<Field1Arg>,
    pub field2: Vec<String>,
}

impl From<Field1Arg> for Field1 {
    /// The nested message this flag set stands for.
    fn from(value: Field1Arg) -> (r: Field1) {
        Field1 { fname: value.fname, fcount: value.fcount }
    }
}

impl vstd::std_specs::convert::FromSpecImpl<Field1Arg> for Field1 {
    open spec fn obeys_from_spec() -> bool {
        true
    }

    open spec fn from_spec(v: Field1Arg) -> Field1 {
        Field1 { fname: v.fname, fcount: v.fcount }
    }
}

/// The fixed group member text of the hand-written conversion.
pub open spec fn spec_one_of_default() -> Seq<char> {
    "one_of_str_value"@
}

impl HelloRequest2Arg {
    /// The richer request this flag set stands for: the flag values carry
    /// over, the enumerant and the group member are fixed by the
    /// hand-written demonstration.
    pub fn into_request(self) -> (r: HelloRequest2)
        ensures
            r.name == self.name,
            r.field2 == self.field2,
            match self.field1 {
                Option::Some(f) => r.field1 == Option::Some(
                    Field1 { fname: f.fname, fcount: f.fcount },
                ),
                Option::None => r.field1 is None,
            },
            r.field3 == 1,
            r.opt_string is None,
            (r.one_of_field matches Option::Some(OneOfField::OneOf1(o)) && o.one_of_str@
                == spec_one_of_default()),
    {
        HelloRequest2 {
            name: self.name,
            field1: match self.field1 {
                Option::Some(f) => Option::Some(Field1::from(f)),
                Option::None => Option::None,
            },
            field2: self.field2,
            field3: EnumOk::Ok1.value(),
            opt_string: Option::None,
            one_of_field: Option::Some(
                OneOfField::OneOf1(OneOf1 { one_of_str: "one_of_str_value".to_owned() }),
            ),
        }
    }
}

impl From<HelloRequest2Arg> for HelloRequest2 {
    /// The richer request this flag set stands for.
    fn from(value: HelloRequest2Arg) -> (r: HelloRequest2) {
        value.into_request()
    }
}

impl vstd::std_specs::convert::FromSpecImpl<HelloRequest2Arg> for HelloRequest2 {
    open spec fn obeys_from_spec() -> bool {
        false
    }

    open spec fn from_spec(v: HelloRequest2Arg) -> HelloRequest2 {
        arbitrary()
    }
}

/// The method commands of the first greeter service.
#[derive(Debug, PartialEq, Eq)]
pub enum GreeterCommands {
    SayHello(HelloRequestArg),
    SayHello2(HelloRequest2Arg),
}

/// The method commands of the second greeter service.
#[derive(Debug, PartialEq, Eq)]
pub enum Greeter2Commands {
    SayHello(HelloRequestArg),
    SayHello2(HelloRequest2Arg),
}

/// The service commands of the demonstration: one per service.
#[derive(Debug, PartialEq, Eq)]
pub enum CommandServices {
    Greeter(GreeterCommands),
    Greeter2(Greeter2Commands),
}

/// The demonstration implementation of the first greeter service: the
/// reply texts it answers with.
pub struct GreeterImpl {}

impl GreeterImpl {
    /// The plain greeting.
    pub fn say_hello(request: &HelloRequest) -> (r: HelloReply)
        ensures
            r.message@ == "Hello "@ + request.name@ + "!"@,
    {
        let mut m = "Hello ".to_owned();
        m.append(request.name.as_str());
        m.append("!");
        HelloReply { message: m }
    }

    /// The richer greeting.
    pub fn say_hello2(request: &HelloRequest2) -> (r: HelloReply)
        ensures
            r.message@ == "Hello2 "@ + request.name@ + "!"@,
    {
        let mut m = "Hello2 ".to_owned();
        m.append(request.name.as_str());
        m.append("!");
        HelloReply { message: m }
    }
}

/// The demonstration implementation of the second greeter service.
pub struct Greeter2Impl {}

impl Greeter2Impl {
    /// The plain greeting, marked as the second service's.
    pub fn say_hello(request: &HelloRequest) -> (r: HelloReply)
        ensures
            r.message@ == "2Hello "@ + request.name@ + "!"@,
    {
        let mut m = "2Hello ".to_owned();
        m.append(request.name.as_str());
        m.append("!");
        HelloReply { message: m }
    }

    /// The richer greeting, marked as the second service's.
    pub fn say_hello2(request: &HelloRequest2) -> (r: HelloReply)
        ensures
            r.message@ == "2Hello2 "@ + request.name@ + "!"@,
    {
        let mut m = "2Hello2 ".to_owned();
        m.append(request.name.as_str());
        m.append("!");
        HelloReply { message: m }
    }

    /// The empty-request greeting.
    pub fn say_hello3() -> (r: HelloReply)
        ensures
            r.message@ == "2Hello3 Empty!"@,
    {
        HelloReply { message: "2Hello3 Empty!".to_owned() }
    }
}

/// The structure exercised by the derive-based population test.
#[derive(Debug, PartialEq, Eq)]
pub struct TestWithDerived {
    pub name: String,
    pub count: i32,
}

} // verus!
