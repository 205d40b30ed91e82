//! The validator of chain and project paths against the statistics
//! service.
use vstd::prelude::*;
use vstd::string::*;

verus! {

/// Knows the statistics service that checks whether a chain and project
/// may be served.
pub struct Validator {
    url: String,
}

impl Validator {
    /// A validator asking the service at the given address.
    pub fn new(url: String) -> (v: Self)
        ensures
            v.url() == url@,
    {
        Validator { url }
    }

    /// The service's address.
    pub closed spec fn url(&self) -> Seq<char> {
        self.url@
    }

    /// The address asked to check a chain and project path: the service's
    /// address followed by the path.
    pub fn limit_url(&self, chainpid: &str) -> (u: String)
        ensures
            u@ == self.url() + chainpid@,
    {
        self.url.clone().concat(chainpid)
    }
}

impl Clone for Validator {
    fn clone(&self) -> (v: Self)
        ensures
            v.url() == self.url(),
    {
        Validator { url: self.url.clone() }
    }
}

} // verus!
