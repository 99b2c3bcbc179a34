//! What configurations and results have in common.

use vstd::prelude::*;

verus! {

/// Common request methods.
#[derive(Clone, Copy, Debug, PartialEq, Eq, Structural)]
pub enum RequestMethod {
    Get,
    Post,
    Head,
    Put,
    Delete,
    Patch,
    Options,
}

/// How the regions of a check take turns.
#[derive(Clone, Copy, Debug, PartialEq, Eq, Structural)]
pub enum RegionScheduleMode {
    RoundRobin,
}

impl Default for RequestMethod {
    fn default() -> (r: Self)
        ensures
            r == RequestMethod::Get,
    {
        RequestMethod::Get
    }
}

impl RequestMethod {
    /// The method as it stands in a request.
    pub open spec fn name(self) -> Seq<char> {
        match self {
            RequestMethod::Get => "GET"@,
            RequestMethod::Post => "POST"@,
            RequestMethod::Head => "HEAD"@,
            RequestMethod::Put => "PUT"@,
            RequestMethod::Delete => "DELETE"@,
            RequestMethod::Patch => "PATCH"@,
            RequestMethod::Options => "OPTIONS"@,
        }
    }

    /// The method as it stands in a request.
    pub fn as_str(&self) -> (r: &'static str)
        ensures
            r@ == self.name(),
    {
        match self {
            RequestMethod::Get => "GET",
            RequestMethod::Post => "POST",
            RequestMethod::Head => "HEAD",
            RequestMethod::Put => "PUT",
            RequestMethod::Delete => "DELETE",
            RequestMethod::Patch => "PATCH",
            RequestMethod::Options => "OPTIONS",
        }
    }
}

} // verus!
