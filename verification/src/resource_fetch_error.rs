use vstd::prelude::*;

verus! {

/// Names a resource that could not be fetched from a map, in both a short
/// and a fully qualified spelling.
#[derive(Clone, Debug, PartialEq, Eq)]
pub struct ResourceFetchError {
    /// Short name of the resource type, e.g. `String`.
    pub resource_name_short: String,
    /// Full name of the resource type, e.g. `std::string::String`.
    pub resource_name_full: String,
}

impl ResourceFetchError {
    /// Builds the error from the two spellings of the resource type's name,
    /// as the caller's reflection layer rendered them.
    pub fn new(resource_name_short: String, resource_name_full: String) -> (error:
        ResourceFetchError)
        ensures
            error.resource_name_short@ == resource_name_short@,
            error.resource_name_full@ == resource_name_full@,
    {
        ResourceFetchError { resource_name_short, resource_name_full }
    }

    /// The short type name, e.g. `String`.
    pub fn resource_name_short(&self) -> (name: &str)
        ensures
            name@ == self.resource_name_short@,
    {
        self.resource_name_short.as_str()
    }

    /// The full type name, e.g. `std::string::String`.
    pub fn resource_name_full(&self) -> (name: &str)
        ensures
            name@ == self.resource_name_full@,
    {
        self.resource_name_full.as_str()
    }
}

} // verus!
