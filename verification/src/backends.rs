//! The adapter registry: a pure lookup from a back-end identifier to the
//! matching adapter tag, over a fixed, closed set of known providers.

use vstd::prelude::*;

use crate::Error;
use crate::strutil::str_eq;

verus! {

/// The supported back-ends.
#[derive(Debug, Clone, Copy, PartialEq, Eq, Structural)]
pub enum Backends {
    /// Mixcloud (<https://www.mixcloud.com>)
    Mixcloud,
    /// YouTube (<https://www.youtube.com>)
    YouTube,
}

impl Backends {
    /// Returns the display name of the back-end.
    pub fn name(&self) -> (r: &'static str)
        ensures
            self is Mixcloud ==> r@ == "Mixcloud"@,
            self is YouTube ==> r@ == "YouTube"@,
    {
        match self {
            Backends::Mixcloud => "Mixcloud",
            Backends::YouTube => "YouTube",
        }
    }
}

/// Retrieves the back-end for the provided ID (if supported).
///
/// Exactly the identifiers `"mixcloud"` and `"youtube"` are accepted;
/// any other identifier is rejected, before any network work, with
/// [`Error::UnsupportedBackend`] carrying the identifier.
pub fn get(backend: &str) -> (r: Result<Backends, Error>)
    ensures
        backend@ == "mixcloud"@ ==> r == Ok::<Backends, Error>(Backends::Mixcloud),
        backend@ == "youtube"@ ==> r == Ok::<Backends, Error>(Backends::YouTube),
        backend@ != "mixcloud"@ && backend@ != "youtube"@ ==> (r matches Err(e)
            && e matches Error::UnsupportedBackend(s) && s@ == backend@),
{
    proof {
        reveal_strlit("mixcloud");
        reveal_strlit("youtube");
        assert("mixcloud"@.len() == 8);
        assert("youtube"@.len() == 7);
    }
    if str_eq(backend, "mixcloud") {
        Ok(Backends::Mixcloud)
    } else if str_eq(backend, "youtube") {
        Ok(Backends::YouTube)
    } else {
        Err(Error::UnsupportedBackend(backend.to_owned()))
    }
}

} // verus!
