use vstd::prelude::*;
use crate::api::{
    ChannelInitRequest, ChannelInitResponse, ContractInitRequest, ContractInitResponse,
    ContractRestoreRequest, ContractRestoreResponse,
};
use crate::channel::{
    channel_init, channel_init_result, contract_init, contract_init_failure, contract_restore,
    ChannelView, SecureChannelContext,
};
use crate::contract_error::ContractError;
use crate::dispatcher::{
    ApiMethodDescriptor, ApiMethodHandler, ApiMethodHandlerDispatch, ApiMethodHandlerDispatchImpl,
    Dispatcher, EnclaveMethod, METHOD_CHANNEL_INIT, METHOD_CONTRACT_INIT, METHOD_CONTRACT_RESTORE,
};
use crate::quote::{AttestationReport, Quote};
use crate::request::Request;

verus! {

/// Verifier of attestation reports: checks a report's signature with the
/// attestation service and gives the quote it carries.
pub trait AttestationVerifier {
    /// Verifies a report and returns its quote.
    fn verify(&self, report: &AttestationReport) -> Result<Quote, ContractError>;
}

/// Handler of contract initialization.
pub struct ContractInitHandler;

impl ApiMethodHandler for ContractInitHandler {
    type Rq = ContractInitRequest;

    type Rs = ContractInitResponse;

    /// Initialization fails as `contract_init_failure` describes.
    open spec fn handles(
        &self,
        before: ChannelView,
        request: Request<ContractInitRequest>,
        outcome: Result<ContractInitResponse, ContractError>,
        after: ChannelView,
    ) -> bool {
        outcome matches Err(e) && contract_init_failure(before, after, e.message@)
    }

    fn handle(&self, channel: &mut SecureChannelContext, request: &Request<ContractInitRequest>) -> (r:
        Result<ContractInitResponse, ContractError>) {
        contract_init(channel, &request.message)
    }
}

/// Handler of contract restore.
pub struct ContractRestoreHandler;

impl ApiMethodHandler for ContractRestoreHandler {
    type Rq = ContractRestoreRequest;

    type Rs = ContractRestoreResponse;

    /// Unsealing is refused because this build has no SGX; nothing changes.
    open spec fn handles(
        &self,
        before: ChannelView,
        request: Request<ContractRestoreRequest>,
        outcome: Result<ContractRestoreResponse, ContractError>,
        after: ChannelView,
    ) -> bool {
        outcome matches Err(e) && e.message@ == "Only supported in SGX builds"@ && after == before
    }

    fn handle(&self, channel: &mut SecureChannelContext, request: &Request<ContractRestoreRequest>) -> (r:
        Result<ContractRestoreResponse, ContractError>) {
        contract_restore(channel, &request.message)
    }
}

/// Handler of secure channel initialization: `verifier` checks client
/// attestation reports, and `client_attestation_required` tells whether the
/// enclave requires client attestation.
pub struct ChannelInitHandler<V> {
    pub verifier: V,
    pub client_attestation_required: bool,
}

/// How a secure channel initialization request `m` is handled, from context
/// `before` to `after`, with `verifier` and `required` as in the handler.
///
/// A context that is not ready refuses the call and nothing changes. A
/// report the request carries goes to the verifier; where the verifier
/// refuses it, its error is the outcome and nothing changes. Otherwise the
/// outcome is what `channel_init` gives for the request's key and the
/// report's quote.
pub open spec fn channel_init_handled<V: AttestationVerifier>(
    verifier: V,
    required: bool,
    before: ChannelView,
    m: ChannelInitRequest,
    outcome: Result<ChannelInitResponse, ContractError>,
    after: ChannelView,
) -> bool {
    if !before.ready {
        outcome matches Err(e) && e.message@ == "Secure channel not ready"@ && after == before
    } else {
        match m.client_attestation_report {
            None => channel_init_result(before, m.short_term_public_key@, None, required, outcome, after),
            Some(report) => exists|v: Result<Quote, ContractError>|
                #[trigger] call_ensures(V::verify, (&verifier, &report), v) && match v {
                    Err(e) => outcome matches Err(e2) && e2.message@ == e.message@ && after == before,
                    Ok(q) => channel_init_result(
                        before,
                        m.short_term_public_key@,
                        Some(q),
                        required,
                        outcome,
                        after,
                    ),
                },
        }
    }
}

impl<V: AttestationVerifier> ApiMethodHandler for ChannelInitHandler<V> {
    type Rq = ChannelInitRequest;

    type Rs = ChannelInitResponse;

    open spec fn handles(
        &self,
        before: ChannelView,
        request: Request<ChannelInitRequest>,
        outcome: Result<ChannelInitResponse, ContractError>,
        after: ChannelView,
    ) -> bool {
        channel_init_handled(
            self.verifier,
            self.client_attestation_required,
            before,
            request.message,
            outcome,
            after,
        )
    }

    /// The channel must be ready, a client attestation report the request
    /// carries must verify, and a session is then created for the client's
    /// short-term key.
    fn handle(&self, channel: &mut SecureChannelContext, request: &Request<ChannelInitRequest>) -> (r:
        Result<ChannelInitResponse, ContractError>) {
        match channel.ensure_ready() {
            Ok(()) => {},
            Err(e) => {
                return Err(e);
            },
        }
        let client_quote = match &request.message.client_attestation_report {
            Some(report) => {
                let v = self.verifier.verify(report);
                let ghost gv = v;
                assert(call_ensures(V::verify, (&self.verifier, report), gv));
                match v {
                    Ok(quote) => Some(quote),
                    Err(e) => {
                        return Err(e);
                    },
                }
            },
            None => None,
        };
        channel_init(
            channel,
            request.message.short_term_public_key.as_slice(),
            client_quote,
            self.client_attestation_required,
        )
    }
}

/// A method of an enclave: one of the methods that manage the contract and
/// its secure channels, or one of the enclave's own.
pub enum Method<V, D> {
    ChannelInit(ApiMethodHandlerDispatchImpl<ChannelInitHandler<V>>),
    ContractInit(ApiMethodHandlerDispatchImpl<ContractInitHandler>),
    ContractRestore(ApiMethodHandlerDispatchImpl<ContractRestoreHandler>),
    Custom(D),
}

impl<V: AttestationVerifier, D: ApiMethodHandlerDispatch> ApiMethodHandlerDispatch for Method<V, D> {
    open spec fn dispatches(
        &self,
        before: ChannelView,
        request: Request<Vec<u8>>,
        r: crate::api::SpecClientResponse,
        after: ChannelView,
    ) -> bool {
        match self {
            Method::ChannelInit(m) => m.dispatches(before, request, r, after),
            Method::ContractInit(m) => m.dispatches(before, request, r, after),
            Method::ContractRestore(m) => m.dispatches(before, request, r, after),
            Method::Custom(d) => d.dispatches(before, request, r, after),
        }
    }

    fn dispatch(&self, channel: &mut SecureChannelContext, request: &Request<Vec<u8>>) -> (r:
        crate::dispatcher::Response) {
        match self {
            Method::ChannelInit(m) => m.dispatch(channel, request),
            Method::ContractInit(m) => m.dispatch(channel, request),
            Method::ContractRestore(m) => m.dispatch(channel, request),
            Method::Custom(d) => d.dispatch(channel, request),
        }
    }
}

impl<V: AttestationVerifier, D: ApiMethodHandlerDispatch> Dispatcher<Method<V, D>> {
    /// A dispatcher with the methods that manage the contract and its secure
    /// channels registered: contract initialization and restore, and secure
    /// channel initialization with the given verifier of client attestation
    /// reports and requirement of client attestation.
    pub fn new(verifier: V, client_attestation_required: bool) -> (d: Dispatcher<Method<V, D>>)
        ensures
            d.wf(),
            d.methods_view().dom() =~= set![
                METHOD_CHANNEL_INIT@,
                METHOD_CONTRACT_INIT@,
                METHOD_CONTRACT_RESTORE@,
            ],
            d.methods_view()[METHOD_CONTRACT_INIT@] is ContractInit,
            d.methods_view()[METHOD_CONTRACT_RESTORE@] is ContractRestore,
            d.methods_view()[METHOD_CHANNEL_INIT@] matches Method::ChannelInit(m) && m.handler
                == (ChannelInitHandler { verifier, client_attestation_required }),
    {
        proof {
            reveal_strlit("_channel_init");
            reveal_strlit("_contract_init");
            reveal_strlit("_contract_restore");
        }
        let mut dispatcher = Dispatcher::empty();
        dispatcher.add_method(
            EnclaveMethod::with_dispatcher(
                METHOD_CHANNEL_INIT.to_owned(),
                Method::ChannelInit(
                    ApiMethodHandlerDispatchImpl {
                        descriptor: ApiMethodDescriptor::new(METHOD_CHANNEL_INIT.to_owned()),
                        handler: ChannelInitHandler { verifier, client_attestation_required },
                    },
                ),
            ),
        );
        dispatcher.add_method(
            EnclaveMethod::with_dispatcher(
                METHOD_CONTRACT_INIT.to_owned(),
                Method::ContractInit(
                    ApiMethodHandlerDispatchImpl {
                        descriptor: ApiMethodDescriptor::new(METHOD_CONTRACT_INIT.to_owned()),
                        handler: ContractInitHandler,
                    },
                ),
            ),
        );
        dispatcher.add_method(
            EnclaveMethod::with_dispatcher(
                METHOD_CONTRACT_RESTORE.to_owned(),
                Method::ContractRestore(
                    ApiMethodHandlerDispatchImpl {
                        descriptor: ApiMethodDescriptor::new(METHOD_CONTRACT_RESTORE.to_owned()),
                        handler: ContractRestoreHandler,
                    },
                ),
            ),
        );
        assert(METHOD_CHANNEL_INIT@.len() == 13);
        assert(METHOD_CONTRACT_INIT@.len() == 14);
        assert(METHOD_CONTRACT_RESTORE@.len() == 17);
        dispatcher
    }
}

} // verus!
