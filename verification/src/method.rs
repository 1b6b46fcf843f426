//! The HTTP methods a health check can use.

use crate::text::{join_text, str_equal};
use vstd::prelude::*;

verus! {

/// HTTP method of a health-check request.
#[allow(clippy::upper_case_acronyms)]
#[derive(Clone, Copy, Debug, PartialEq, Eq, Structural)]
pub enum Method {
    GET,
    POST,
    PUT,
    DELETE,
}

/// The upper-case form that `str::to_uppercase` gives to a string.
pub uninterp spec fn uppercase_of(s: Seq<char>) -> Seq<char>;

/// Calls `str::to_uppercase`. The result is the Unicode upper-case mapping of
/// the argument, which is not spelled out here: the contract only names it.
#[verifier::external_body]
fn to_uppercase(s: &str) -> (upper: String)
    ensures
        upper@ == uppercase_of(s@),
{
    s.to_uppercase()
}

/// The method that an upper-case name stands for.
pub open spec fn spec_from_uppercase(upper: Seq<char>) -> Option<Method> {
    if upper == "GET"@ {
        Some(Method::GET)
    } else if upper == "POST"@ {
        Some(Method::POST)
    } else if upper == "PUT"@ {
        Some(Method::PUT)
    } else if upper == "DELETE"@ {
        Some(Method::DELETE)
    } else {
        None
    }
}

/// The message that rejects `s` as a method name.
pub open spec fn spec_invalid_method_message(s: Seq<char>) -> Seq<char> {
    "'"@ + s + "' is not a valid HTTP method"@
}

impl Method {
    /// The name of the method, in upper case.
    pub open spec fn spec_name(self) -> Seq<char> {
        match self {
            Method::GET => "GET"@,
            Method::POST => "POST"@,
            Method::PUT => "PUT"@,
            Method::DELETE => "DELETE"@,
        }
    }

    /// The name of the method, in upper case.
    pub fn as_str(&self) -> (name: &'static str)
        ensures
            name@ == self.spec_name(),
    {
        match self {
            Method::GET => "GET",
            Method::POST => "POST",
            Method::PUT => "PUT",
            Method::DELETE => "DELETE",
        }
    }

    /// The name of the method as an owned string.
    pub fn to_string(&self) -> (name: String)
        ensures
            name@ == self.spec_name(),
    {
        self.as_str().to_owned()
    }

    /// Reads a method from a name that is already in upper case.
    pub fn from_uppercase(upper: &str) -> (method: Option<Method>)
        ensures
            method == spec_from_uppercase(upper@),
    {
        if str_equal(upper, "GET") {
            Some(Method::GET)
        } else if str_equal(upper, "POST") {
            Some(Method::POST)
        } else if str_equal(upper, "PUT") {
            Some(Method::PUT)
        } else if str_equal(upper, "DELETE") {
            Some(Method::DELETE)
        } else {
            None
        }
    }

    /// Reads a method from its name, whatever the case of its letters. A name
    /// that is none of the four is rejected with a message that quotes it.
    pub fn from_str(s: &str) -> (parsed: Result<Method, String>)
        ensures
            match spec_from_uppercase(uppercase_of(s@)) {
                Some(method) => parsed == Ok::<Method, String>(method),
                None => parsed is Err && parsed->Err_0@ == spec_invalid_method_message(s@),
            },
    {
        let upper = to_uppercase(s);
        match Method::from_uppercase(upper.as_str()) {
            Some(method) => Ok(method),
            None => {
                let quoted = join_text("'", s);
                Err(join_text(quoted.as_str(), "' is not a valid HTTP method"))
            },
        }
    }
}

impl std::str::FromStr for Method {
    type Err = String;
    /// Reads a method from its name in any case, as the inherent `from_str` does.
    fn from_str(s: &str) -> (parsed: Result<Method, String>)
        ensures
            match spec_from_uppercase(uppercase_of(s@)) {
                Some(method) => parsed == Ok::<Method, String>(method),
                None => parsed is Err && parsed->Err_0@ == spec_invalid_method_message(s@),
            },
    {
        Method::from_str(s)
    }
}

/// Every method is read back from its own name.
pub proof fn lemma_name_round_trip(method: Method)
    ensures
        spec_from_uppercase(method.spec_name()) == Some(method),
{
    reveal_strlit("GET");
    reveal_strlit("POST");
    reveal_strlit("PUT");
    reveal_strlit("DELETE");
    assert("GET"@.len() == 3 && "POST"@.len() == 4 && "PUT"@.len() == 3 && "DELETE"@.len() == 6);
    assert("GET"@[0] == 'G' && "PUT"@[0] == 'P');
}

} // verus!
