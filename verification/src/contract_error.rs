use vstd::prelude::*;

verus! {

/// Error raised by contract code and by the runtime around it.
#[derive(Debug)]
pub struct ContractError {
    pub message: String,
}

impl ContractError {
    /// Creates an error carrying the given message.
    pub fn new(msg: &str) -> (e: ContractError)
        ensures
            e.message@ == msg@,
    {
        ContractError { message: msg.to_owned() }
    }
}

} // verus!
