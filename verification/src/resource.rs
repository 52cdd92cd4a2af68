use vstd::prelude::*;

verus! {

/// A type name as the compiler spells it, borrowed for the program's whole
/// run. Used when reporting which resource a diagnostic is about.
pub struct TypeNameLit(pub &'static str);

impl TypeNameLit {
    /// The name itself.
    pub fn as_str(&self) -> (name: &'static str)
        ensures
            name@ == self.0@,
    {
        self.0
    }
}

} // verus!
