use vstd::prelude::*;

verus! {

/// Address of a contract or a node, kept as its textual form.
#[derive(Debug)]
pub struct Address {
    value: String,
}

impl View for Address {
    type V = Seq<char>;

    closed spec fn view(&self) -> Seq<char> {
        self.value@
    }
}

impl Address {
    /// Wraps the given string as an address.
    pub fn from(addr: String) -> (a: Address)
        ensures
            a@ == addr@,
    {
        Address { value: addr }
    }

    /// The address as a string slice.
    pub fn as_str(&self) -> (s: &str)
        ensures
            s@ == self@,
    {
        self.value.as_str()
    }

    /// The address as an owned string.
    pub fn to_string(&self) -> (s: String)
        ensures
            s@ == self@,
    {
        self.value.clone()
    }
}

} // verus!
