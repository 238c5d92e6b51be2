//! The parts of an HTTP request that sessions and routes look at.

use crate::text::str_eq;
use vstd::prelude::*;

verus! {

/// An HTTP request method.
#[derive(Debug, Clone, Copy, PartialEq, Eq, Structural)]
pub enum Method {
    Get,
    Put,
    Post,
    Head,
    Patch,
    Delete,
    Options,
    Connect,
    Trace,
}

impl Method {
    /// The name of the method as it stands in a request line.
    pub open spec fn name(self) -> Seq<char> {
        match self {
            Method::Get => "GET"@,
            Method::Put => "PUT"@,
            Method::Post => "POST"@,
            Method::Head => "HEAD"@,
            Method::Patch => "PATCH"@,
            Method::Delete => "DELETE"@,
            Method::Options => "OPTIONS"@,
            Method::Connect => "CONNECT"@,
            Method::Trace => "TRACE"@,
        }
    }

    /// The name of the method as it stands in a request line.
    pub fn as_str(&self) -> (r: &'static str)
        ensures
            r@ == self.name(),
    {
        match self {
            Method::Get => "GET",
            Method::Put => "PUT",
            Method::Post => "POST",
            Method::Head => "HEAD",
            Method::Patch => "PATCH",
            Method::Delete => "DELETE",
            Method::Options => "OPTIONS",
            Method::Connect => "CONNECT",
            Method::Trace => "TRACE",
        }
    }

    /// Whether requests of this method only read: GET, HEAD and OPTIONS.
    pub open spec fn reads_only(self) -> bool {
        self == Method::Get || self == Method::Head || self == Method::Options
    }
}

/// The head of a request: its method, its target and its headers. Header
/// names are held in lower case.
#[derive(Debug)]
pub struct RequestHead {
    pub method: Method,
    /// The path of the target, without the query.
    pub path: String,
    /// The target as it was requested: the path, and the query where there
    /// is one.
    pub uri: String,
    pub headers: Vec<(String, String)>,
}

/// The value of the first header of `headers` named `name`, from position
/// `from` on.
pub open spec fn first_header(headers: Seq<(String, String)>, name: Seq<char>, from: int) -> Option<
    Seq<char>,
>
    decreases headers.len() - from,
{
    if from < 0 || from >= headers.len() {
        None
    } else if headers[from].0@ == name {
        Some(headers[from].1@)
    } else {
        first_header(headers, name, from + 1)
    }
}

impl RequestHead {
    /// The value of the first header named `name`, if there is one.
    pub open spec fn header_value(&self, name: Seq<char>) -> Option<Seq<char>> {
        first_header(self.headers@, name, 0)
    }

    /// The value of the first header named `name`, if there is one.
    pub fn header(&self, name: &str) -> (r: Option<&String>)
        ensures
            match r {
                Some(v) => self.header_value(name@) == Some(v@),
                None => self.header_value(name@) is None,
            },
    {
        let mut i: usize = 0;
        while i < self.headers.len()
            invariant
                i <= self.headers@.len(),
                first_header(self.headers@, name@, 0) == first_header(
                    self.headers@,
                    name@,
                    i as int,
                ),
            decreases self.headers@.len() - i,
        {
            if str_eq(self.headers[i].0.as_str(), name) {
                return Some(&self.headers[i].1);
            }
            i += 1;
        }
        None
    }
}

} // verus!
