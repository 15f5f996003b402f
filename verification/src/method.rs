//! The request methods that the tool supports.

use vstd::prelude::*;
use crate::error::ConfigError;
use crate::text::same_text;

verus! {

/// A supported request method.
#[derive(Clone, Copy, Debug, PartialEq, Eq, Structural)]
pub enum Method {
    Get,
    Post,
    Put,
    Patch,
    Delete,
}

/// The method that `name` names, letter for letter; `None` for any other
/// text.
pub open spec fn method_named(name: Seq<char>) -> Option<Method> {
    if name == "GET"@ {
        Some(Method::Get)
    } else if name == "POST"@ {
        Some(Method::Post)
    } else if name == "PUT"@ {
        Some(Method::Put)
    } else if name == "PATCH"@ {
        Some(Method::Patch)
    } else if name == "DELETE"@ {
        Some(Method::Delete)
    } else {
        None
    }
}

impl Method {
    /// The verb as it is written in a request.
    pub open spec fn verb(self) -> Seq<char> {
        match self {
            Method::Get => "GET"@,
            Method::Post => "POST"@,
            Method::Put => "PUT"@,
            Method::Patch => "PATCH"@,
            Method::Delete => "DELETE"@,
        }
    }

    /// The verb as it is written in a request.
    pub fn name(&self) -> (verb: &'static str)
        ensures
            verb@ == self.verb(),
    {
        match self {
            Method::Get => "GET",
            Method::Post => "POST",
            Method::Put => "PUT",
            Method::Patch => "PATCH",
            Method::Delete => "DELETE",
        }
    }
}

/// Maps a method name to the method. Any text that is not one of the five
/// verbs is an error, not a crash.
pub fn parse_method(name: &str) -> (r: Result<Method, ConfigError>)
    ensures
        r == match method_named(name@) {
            Some(m) => Ok::<Method, ConfigError>(m),
            None => Err(ConfigError::UnsupportedMethod),
        },
{
    if same_text(name, "GET") {
        Ok(Method::Get)
    } else if same_text(name, "POST") {
        Ok(Method::Post)
    } else if same_text(name, "PUT") {
        Ok(Method::Put)
    } else if same_text(name, "PATCH") {
        Ok(Method::Patch)
    } else if same_text(name, "DELETE") {
        Ok(Method::Delete)
    } else {
        Err(ConfigError::UnsupportedMethod)
    }
}

/// Every supported method is found again under its own verb.
pub proof fn lemma_verb_names_method(m: Method)
    ensures
        method_named(m.verb()) == Some(m),
{
    reveal_strlit("GET");
    reveal_strlit("POST");
    reveal_strlit("PUT");
    reveal_strlit("PATCH");
    reveal_strlit("DELETE");
    match m {
        Method::Get => {},
        Method::Post => {
            assert("POST"@.len() != "GET"@.len());
        },
        Method::Put => {
            assert("PUT"@[0] != "GET"@[0]);
            assert("PUT"@.len() != "POST"@.len());
        },
        Method::Patch => {
            assert("PATCH"@.len() != "GET"@.len());
            assert("PATCH"@.len() != "POST"@.len());
            assert("PATCH"@.len() != "PUT"@.len());
        },
        Method::Delete => {
            assert("DELETE"@.len() != "GET"@.len());
            assert("DELETE"@.len() != "POST"@.len());
            assert("DELETE"@.len() != "PUT"@.len());
            assert("DELETE"@.len() != "PATCH"@.len());
        },
    }
}

/// A name is accepted exactly if it is the verb of a method, and then it
/// names that method.
pub proof fn lemma_method_named_iff_verb(name: Seq<char>, m: Method)
    ensures
        method_named(name) == Some(m) <==> name == m.verb(),
{
    lemma_verb_names_method(m);
}

} // verus!
