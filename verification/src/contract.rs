use vstd::prelude::*;
use crate::contract_error::ContractError;

verus! {

/// Trait that every contract implements: a contract is built from its
/// serializable state and gives it back.
pub trait Contract<S>: Sized {
    /// Serializable contract state.
    fn get_state(&self) -> S;

    /// Creates a contract instance from serialized state.
    fn from_state(state: &S) -> Self;
}

/// An operation on a contract.
pub trait ContractHandler<C> {
    /// Whether the operation, run on the contract `before`, may leave it as
    /// `after` and report `outcome`. An operation that states nothing of
    /// itself may do anything.
    open spec fn applies(&self, before: C, after: C, outcome: Result<(), ContractError>) -> bool {
        true
    }

    /// Performs the operation.
    fn apply(&self, contract: &mut C) -> (r: Result<(), ContractError>)
        ensures
            self.applies(*old(contract), *final(contract), r),
    ;
}

/// Performs a contract operation on serialized state: builds the contract
/// from `state`, runs `handler` on it and returns the resulting state, or the
/// handler's error.
pub fn with_contract_state<C: Contract<S>, S, H: ContractHandler<C>>(state: &S, handler: &H) -> (r:
    Result<S, ContractError>)
    ensures
        r matches Ok(s) ==> exists|c0: C, c1: C|
            #![trigger handler.applies(c0, c1, Ok(()))]
            call_ensures(C::from_state, (state,), c0) && handler.applies(c0, c1, Ok(()))
                && call_ensures(C::get_state, (&c1,), s),
        r matches Err(e) ==> exists|c0: C, c1: C|
            #![trigger handler.applies(c0, c1, Err(e))]
            call_ensures(C::from_state, (state,), c0) && handler.applies(c0, c1, Err(e)),
{
    let mut contract = C::from_state(state);
    let ghost c0 = contract;
    assert(call_ensures(C::from_state, (state,), c0));
    let outcome = handler.apply(&mut contract);
    let ghost c1 = contract;
    let ghost go = outcome;
    assert(handler.applies(c0, c1, go));
    match outcome {
        Ok(u) => {
            assert(go == Ok::<(), ContractError>(u));
            assert(u == ());
        },
        Err(e) => {
            assert(go == Err::<(), ContractError>(e));
            let r: Result<S, ContractError> = Err(e);
            assert(handler.applies(c0, c1, Err(r->Err_0)));
            return r;
        },
    }
    let new_state = contract.get_state();
    let result: Result<S, ContractError> = Ok(new_state);
    assert(result->Ok_0 == new_state);
    assert(call_ensures(C::get_state, (&c1,), result->Ok_0));
    result
}

} // verus!
