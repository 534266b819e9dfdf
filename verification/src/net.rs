//! Network identities of services.
use vstd::prelude::*;

verus! {

/// The identity under which a service is reached over the network.
#[derive(Debug, Clone, PartialEq, Eq, Hash)]
pub struct ServiceNetId {
    name: String,
}

impl View for ServiceNetId {
    type V = Seq<char>;

    /// The name of the service.
    closed spec fn view(&self) -> Seq<char> {
        self.name@
    }
}

impl ServiceNetId {
    /// Creates the identity of the service called `name`.
    pub fn new(name: &str) -> (id: ServiceNetId)
        ensures
            id@ == name@,
    {
        ServiceNetId { name: String::from_str(name) }
    }
}

} // verus!
