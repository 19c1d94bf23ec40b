//! Where a database is reached.

use vstd::prelude::*;
use vstd::string::StringExecFns;

verus! {

/// Where a database is reached.
#[derive(Debug, Clone, PartialEq, Eq)]
pub struct HelixDBConnection {
    pub url: String,
}

impl View for HelixDBConnection {
    type V = Seq<char>;

    open spec fn view(&self) -> Seq<char> {
        self.url@
    }
}

impl HelixDBConnection {
    /// The address at which the database reports its schema.
    pub fn introspect_url(&self) -> (url: String)
        ensures
            url@ == self@ + "/introspect"@,
    {
        let mut url = self.url.clone();
        url.append("/introspect");
        url
    }
}

} // verus!
