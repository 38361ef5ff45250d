//! The request methods and their names.

use vstd::prelude::*;
use crate::text::str_eq;

verus! {

/// The request methods of HTTP/1.1.
#[derive(Debug, PartialEq, Eq, Structural, Clone, Copy)]
pub enum Method {
    Get,
    Post,
    Put,
    Delete,
    Patch,
    Options,
    Head,
    Connect,
    Trace,
}

/// The token was none of the nine method names.
#[derive(Debug, PartialEq, Eq, Structural, Clone, Copy)]
pub struct MethodError;

/// The method that a token names. The match is exact and case-sensitive.
pub open spec fn method_of(token: Seq<char>) -> Option<Method> {
    if token == "GET"@ {
        Some(Method::Get)
    } else if token == "POST"@ {
        Some(Method::Post)
    } else if token == "PUT"@ {
        Some(Method::Put)
    } else if token == "DELETE"@ {
        Some(Method::Delete)
    } else if token == "PATCH"@ {
        Some(Method::Patch)
    } else if token == "OPTIONS"@ {
        Some(Method::Options)
    } else if token == "HEAD"@ {
        Some(Method::Head)
    } else if token == "CONNECT"@ {
        Some(Method::Connect)
    } else if token == "TRACE"@ {
        Some(Method::Trace)
    } else {
        None
    }
}

impl Method {
    /// The canonical upper-case name of the method.
    pub open spec fn name(self) -> Seq<char> {
        match self {
            Method::Get => "GET"@,
            Method::Post => "POST"@,
            Method::Put => "PUT"@,
            Method::Delete => "DELETE"@,
            Method::Patch => "PATCH"@,
            Method::Options => "OPTIONS"@,
            Method::Head => "HEAD"@,
            Method::Connect => "CONNECT"@,
            Method::Trace => "TRACE"@,
        }
    }

    /// Reads a method from its name.
    pub fn from_str(s: &str) -> (r: Result<Method, MethodError>)
        ensures
            r == match method_of(s@) {
                Some(m) => Ok::<Method, MethodError>(m),
                None => Err(MethodError),
            },
    {
        if str_eq(s, "GET") {
            Ok(Method::Get)
        } else if str_eq(s, "POST") {
            Ok(Method::Post)
        } else if str_eq(s, "PUT") {
            Ok(Method::Put)
        } else if str_eq(s, "DELETE") {
            Ok(Method::Delete)
        } else if str_eq(s, "PATCH") {
            Ok(Method::Patch)
        } else if str_eq(s, "OPTIONS") {
            Ok(Method::Options)
        } else if str_eq(s, "HEAD") {
            Ok(Method::Head)
        } else if str_eq(s, "CONNECT") {
            Ok(Method::Connect)
        } else if str_eq(s, "TRACE") {
            Ok(Method::Trace)
        } else {
            Err(MethodError)
        }
    }

    /// The name of the method, as it stands in a request line.
    pub fn as_str(&self) -> (r: &'static str)
        ensures
            r@ == self.name(),
    {
        match self {
            Method::Get => "GET",
            Method::Post => "POST",
            Method::Put => "PUT",
            Method::Delete => "DELETE",
            Method::Patch => "PATCH",
            Method::Options => "OPTIONS",
            Method::Head => "HEAD",
            Method::Connect => "CONNECT",
            Method::Trace => "TRACE",
        }
    }

    /// The name of the method, owned.
    pub fn to_string(&self) -> (r: String)
        ensures
            r@ == self.name(),
    {
        self.as_str().to_owned()
    }
}

/// Reading a method's name gives the method back.
pub proof fn lemma_method_name_round_trip(m: Method)
    ensures
        method_of(m.name()) == Some(m),
{
    reveal_strlit("GET");
    reveal_strlit("POST");
    reveal_strlit("PUT");
    reveal_strlit("DELETE");
    reveal_strlit("PATCH");
    reveal_strlit("OPTIONS");
    reveal_strlit("HEAD");
    reveal_strlit("CONNECT");
    reveal_strlit("TRACE");
    // Two names differ in their first or in their second letter.
    assert("GET"@[0] == 'G');
    assert("POST"@[1] == 'O');
    assert("PUT"@[1] == 'U');
    assert("PATCH"@[1] == 'A');
    assert("DELETE"@[0] == 'D');
    assert("OPTIONS"@[0] == 'O');
    assert("HEAD"@[0] == 'H');
    assert("CONNECT"@[0] == 'C');
    assert("TRACE"@[0] == 'T');
}

/// A token that names a method is that method's canonical name.
pub proof fn lemma_method_of_is_name(token: Seq<char>)
    ensures
        method_of(token) matches Some(m) ==> m.name() == token,
{
}

} // verus!
