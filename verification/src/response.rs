//! The parts of an HTTP response that the middleware set.

use vstd::prelude::*;

verus! {

/// A response: its status, its headers and its body.
#[derive(Debug)]
pub struct Response {
    pub status: u16,
    pub headers: Vec<(String, String)>,
    pub body: String,
}

impl Response {
    /// A response with the given status, without headers or body.
    pub fn new(status: u16) -> (r: Response)
        ensures
            r.status == status,
            r.headers@ == Seq::<(String, String)>::empty(),
            r.body@ == Seq::<char>::empty(),
    {
        Response { status, headers: Vec::new(), body: String::new() }
    }

    /// Appends a header to the response.
    pub fn append_header(&mut self, name: &str, value: String)
        ensures
            final(self).headers@.len() == old(self).headers@.len() + 1,
            final(self).headers@.drop_last() == old(self).headers@,
            final(self).headers@.last().0@ == name@,
            final(self).headers@.last().1@ == value@,
            final(self).status == old(self).status,
            final(self).body == old(self).body,
    {
        let ghost before = self.headers@;
        self.headers.push((name.to_owned(), value));
        assert(self.headers@.drop_last() =~= before);
    }
}

} // verus!
