use vstd::prelude::*;
use std::collections::HashMap;
use crate::enclave::EnclaveError;

verus! {

broadcast use vstd::std_specs::hash::group_hash_axioms;

/// Handler of requests that enclaves make to the untrusted side: it serves
/// some endpoints and answers raw requests with raw responses.
pub trait Handler {
    /// The endpoints the handler serves.
    fn get_endpoints(&self) -> Vec<u16>;

    /// Handles a request to one of its endpoints.
    fn handle(&self, endpoint: u16, request: Vec<u8>) -> Result<Vec<u8>, EnclaveError>;
}

/// The response that reports a handler's outcome: what it answered, or
/// nothing where it failed.
pub open spec fn handled_response(o: Result<Vec<u8>, EnclaveError>) -> Seq<u8> {
    match o {
        Ok(v) => v@,
        Err(_) => Seq::empty(),
    }
}

/// Router of requests from enclaves to the handlers of their endpoints.
pub struct RpcRouter<H> {
    routes: HashMap<u16, H>,
}

impl<H: Handler + Clone> RpcRouter<H> {
    /// Handlers by endpoint.
    pub closed spec fn routes_view(&self) -> Map<u16, H> {
        self.routes@
    }

    /// A router without routes.
    pub fn new() -> (r: RpcRouter<H>)
        ensures
            r.routes_view().dom().is_empty(),
    {
        let r = RpcRouter { routes: HashMap::new() };
        assert(r.routes_view().dom() =~= Set::<u16>::empty());
        r
    }

    /// Registers a handler for every endpoint it serves, replacing the
    /// handlers those endpoints had: each of them gets a clone of `handler`,
    /// and every other endpoint keeps its handler.
    pub fn add_handler(&mut self, handler: H)
        ensures
            exists|endpoints: Vec<u16>|
                #[trigger] call_ensures(H::get_endpoints, (&handler,), endpoints) && {
                    &&& final(self).routes_view().dom() =~= old(self).routes_view().dom().union(
                        endpoints@.to_set(),
                    )
                    &&& forall|e: u16|
                        endpoints@.contains(e) ==> cloned::<H>(
                            handler,
                            #[trigger] final(self).routes_view()[e],
                        )
                    &&& forall|e: u16|
                        old(self).routes_view().dom().contains(e) && !endpoints@.contains(e)
                            ==> #[trigger] final(self).routes_view()[e] == old(self).routes_view()[e]
                },
    {
        let endpoints = handler.get_endpoints();
        let ghost eps = endpoints;
        assert(call_ensures(H::get_endpoints, (&handler,), eps));
        let ghost old_map = self.routes_view();
        let mut i: usize = 0;
        while i < endpoints.len()
            invariant
                i <= endpoints@.len(),
                eps == endpoints,
                self.routes_view().dom() =~= old_map.dom().union(endpoints@.subrange(0, i as int).to_set()),
                forall|e: u16|
                    endpoints@.subrange(0, i as int).contains(e) ==> cloned::<H>(
                        handler,
                        #[trigger] self.routes_view()[e],
                    ),
                forall|e: u16|
                    old_map.dom().contains(e) && !endpoints@.subrange(0, i as int).contains(e)
                        ==> #[trigger] self.routes_view()[e] == old_map[e],
            decreases endpoints@.len() - i,
        {
            let h = handler.clone();
            let ghost before = endpoints@.subrange(0, i as int);
            self.routes.insert(endpoints[i], h);
            assert(endpoints@.subrange(0, i + 1) =~= before.push(endpoints@[i as int]));
            proof {
                before.lemma_push_to_set_commute(endpoints@[i as int]);
                assert forall|e: u16|
                    endpoints@.subrange(0, i + 1).contains(e) implies cloned::<H>(
                        handler,
                        #[trigger] self.routes_view()[e],
                    ) by {
                    if e != endpoints@[i as int] {
                        let sub = endpoints@.subrange(0, i + 1);
                        let k = choose|k: int| 0 <= k < sub.len() && #[trigger] sub[k] == e;
                        assert(before[k] == e);
                        assert(before.contains(e));
                    }
                }
                assert forall|e: u16|
                    old_map.dom().contains(e) && !endpoints@.subrange(0, i + 1).contains(e)
                        implies #[trigger] self.routes_view()[e] == old_map[e] by {
                    assert(e != endpoints@[i as int]) by {
                        assert(endpoints@.subrange(0, i + 1)[i as int] == endpoints@[i as int]);
                    }
                    if before.contains(e) {
                        let k = choose|k: int| 0 <= k < before.len() && #[trigger] before[k] == e;
                        assert(endpoints@.subrange(0, i + 1)[k] == e);
                    }
                }
            }
            i = i + 1;
        }
        assert(endpoints@.subrange(0, endpoints@.len() as int) =~= endpoints@);
    }

    /// Dispatches a request to the handler of its endpoint. Without a
    /// handler, or where the handler fails, the response is empty.
    pub fn dispatch(&self, endpoint: u16, request: Vec<u8>) -> (r: Vec<u8>)
        ensures
            !self.routes_view().dom().contains(endpoint) ==> r@.len() == 0,
            self.routes_view().dom().contains(endpoint) ==> exists|o: Result<Vec<u8>, EnclaveError>|
                #[trigger] call_ensures(H::handle, (&self.routes_view()[endpoint], endpoint, request), o)
                    && r@ == handled_response(o),
    {
        match self.routes.get(&endpoint) {
            Some(handler) => match handler.handle(endpoint, request) {
                Ok(response) => response,
                Err(_) => Vec::new(),
            },
            None => Vec::new(),
        }
    }
}

} // verus!
