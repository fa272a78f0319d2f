use ekiden::api::PlainClientResponseCode;
use ekiden::contract::{with_contract_state, Contract, ContractHandler};
use ekiden::contract_error::ContractError;
use ekiden::dispatcher::{ApiMethodDescriptor, EnclaveMethod, ApiMethodHandler};
use ekiden::api::ApiError;
use ekiden::channel::SecureChannelContext;
use ekiden::enclave::EnclaveError;
use ekiden::request::{DispatchError, Request};
use ekiden::router::{Handler, RpcRouter};

#[derive(Clone)]
struct Echo;

impl Handler for Echo {
    fn get_endpoints(&self) -> Vec<u16> {
        vec![1, 3]
    }

    fn handle(&self, endpoint: u16, request: Vec<u8>) -> Result<Vec<u8>, EnclaveError> {
        if endpoint == 3 {
            return Err(EnclaveError::RpcRouterCallFailed);
        }
        Ok(request)
    }
}

#[test]
fn router_routes_to_registered_endpoints() {
    let mut router = RpcRouter::new();
    assert!(router.dispatch(1, vec![5]).is_empty());
    router.add_handler(Echo);
    assert_eq!(router.dispatch(1, vec![5, 6]), vec![5, 6]);
    // A failing handler and an unknown endpoint give empty responses.
    assert!(router.dispatch(3, vec![5]).is_empty());
    assert!(router.dispatch(2, vec![5]).is_empty());
}

struct Nothing;

impl ApiMethodHandler for Nothing {
    type Rq = ApiError;
    type Rs = ApiError;

    fn handle(&self, _channel: &mut SecureChannelContext, _request: &Request<ApiError>) -> Result<ApiError, ContractError> {
        Err(ContractError::new("nothing"))
    }
}

#[test]
fn requests_carry_metadata() {
    let r = Request::new(vec![1], String::from("m"), Some(vec![2; 32]), Some(vec![3; 32]));
    assert_eq!(r.get_method().as_deref(), Some("m"));
    assert_eq!(r.get_client_public_key(), &Some(vec![2; 32]));
    assert_eq!(r.get_client_mr_enclave(), &Some(vec![3; 32]));
    assert!(r.get_error().is_none());
    let copy = r.copy_metadata_to(vec![9, 9]);
    assert_eq!(copy.message, vec![9, 9]);
    assert_eq!(copy.get_method().as_deref(), Some("m"));
    assert_eq!(copy.get_client_public_key(), &Some(vec![2; 32]));
    let e = Request::error(DispatchError::new(PlainClientResponseCode::ErrorMethodSecure, "no"));
    assert_eq!(e.get_error().as_ref().unwrap().message, "no");
    assert!(e.get_method().is_none());
    let m = EnclaveMethod::new(ApiMethodDescriptor::new(String::from("nothing")), Nothing);
    assert_eq!(m.get_name(), "nothing");
}

struct Counter {
    value: u64,
}

impl Contract<u64> for Counter {
    fn get_state(&self) -> u64 {
        self.value
    }

    fn from_state(state: &u64) -> Self {
        Counter { value: *state }
    }
}

struct Increment;

impl ContractHandler<Counter> for Increment {
    fn apply(&self, contract: &mut Counter) -> Result<(), ContractError> {
        if contract.value == 10 {
            return Err(ContractError::new("Counter is full"));
        }
        contract.value += 1;
        Ok(())
    }
}

#[test]
fn contract_operations_on_state() {
    assert_eq!(with_contract_state::<Counter, u64, Increment>(&4, &Increment).unwrap(), 5);
    let e = with_contract_state::<Counter, u64, Increment>(&10, &Increment).unwrap_err();
    assert_eq!(e.message, "Counter is full");
}
