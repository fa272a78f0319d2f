use vstd::prelude::*;
use crate::api::CryptoBox;
use crate::byte_order::{le_bytes, le_value, lemma_le_roundtrip, read_u64_le_at, write_u64_le_at};
use crate::bytes::{append_bytes, copy_bytes, zeros};
use crate::contract_error::ContractError;
use crate::random::{OsRandom, fill_random};

verus! {

/// Length of the nonce context prefix.
pub const NONCE_CONTEXT_LEN: usize = 16;

/// Length of a box nonce.
pub const BOX_NONCE_LEN: usize = 24;

/// Nonce context for channel initialization (`EkidenS-----Init`).
pub const NONCE_CONTEXT_INIT: [u8; 16] = [
    69, 107, 105, 100, 101, 110, 83, 45, 45, 45, 45, 45, 73, 110, 105, 116,
];

/// Nonce context for requests (`EkidenS--Request`).
pub const NONCE_CONTEXT_REQUEST: [u8; 16] = [
    69, 107, 105, 100, 101, 110, 83, 45, 45, 82, 101, 113, 117, 101, 115, 116,
];

/// Nonce context for responses (`EkidenS-Response`).
pub const NONCE_CONTEXT_RESPONSE: [u8; 16] = [
    69, 107, 105, 100, 101, 110, 83, 45, 82, 101, 115, 112, 111, 110, 115, 101,
];

/// The context prefix of a nonce.
pub open spec fn nonce_prefix(nonce: Seq<u8>) -> Seq<u8> {
    nonce.subrange(0, NONCE_CONTEXT_LEN as int)
}

/// The counter carried by a monotonic nonce.
pub open spec fn nonce_counter(nonce: Seq<u8>) -> u64 {
    le_value(nonce.subrange(NONCE_CONTEXT_LEN as int, BOX_NONCE_LEN as int))
}

/// The nonce a monotonic generator issues for `context` and `counter`.
pub open spec fn monotonic_nonce(context: Seq<u8>, counter: u64) -> Seq<u8> {
    context + le_bytes(counter)
}

/// Whether a monotonic receiver whose last accepted counter is `last`
/// accepts `nonce` in `context`.
pub open spec fn monotonic_accepts(last: Option<u64>, nonce: Seq<u8>, context: Seq<u8>) -> bool {
    &&& nonce_prefix(nonce) == context
    &&& match last {
        Some(l) => nonce_counter(nonce) > l,
        None => true,
    }
}

/// Issues the nonces of outgoing boxes and checks those of incoming ones.
pub trait NonceGenerator: Sized {
    /// Whether the generator can issue another nonce.
    spec fn can_issue(&self) -> bool;

    /// Whether `unpack_nonce` accepts `nonce` in `context` in the current state.
    spec fn accepts(&self, nonce: Seq<u8>, context: Seq<u8>) -> bool;

    /// Whether `nonce` is one that `get_nonce` may issue in `context` in the
    /// current state.
    spec fn issues(&self, nonce: Seq<u8>, context: Seq<u8>) -> bool;

    /// Whether issuing a nonce in the current state is sure to succeed.
    spec fn issue_succeeds(&self) -> bool;

    /// Whether `next` is a state the generator may be in after issuing a nonce.
    spec fn after_issue(&self, next: &Self) -> bool;

    /// Whether `next` is the state the generator is in after accepting `nonce`.
    spec fn after_accept(&self, nonce: Seq<u8>, next: &Self) -> bool;

    /// Generates a new nonce in the given context.
    fn get_nonce(&mut self, context: &[u8; 16]) -> (r: Result<Vec<u8>, ContractError>)
        requires
            old(self).can_issue(),
        ensures
            r matches Ok(n) ==> {
                &&& n@.len() == BOX_NONCE_LEN
                &&& nonce_prefix(n@) == context@
                &&& old(self).issues(n@, context@)
                &&& old(self).after_issue(&*final(self))
            },
            r is Err ==> *final(self) == *old(self),
            old(self).issue_succeeds() ==> r is Ok,
    ;

    /// Takes the nonce out of a box, checking that it belongs to `context`.
    fn unpack_nonce(&mut self, crypto_box: &CryptoBox, context: &[u8; 16]) -> (r: Result<
        Vec<u8>,
        ContractError,
    >)
        requires
            crypto_box.nonce@.len() == BOX_NONCE_LEN,
        ensures
            r is Ok <==> old(self).accepts(crypto_box.nonce@, context@),
            r matches Ok(n) ==> n@ == crypto_box.nonce@ && nonce_prefix(n@) == context@,
            r is Ok ==> old(self).after_accept(crypto_box.nonce@, &*final(self)),
            r is Err ==> *final(self) == *old(self),
            nonce_prefix(crypto_box.nonce@) != context@ ==> r is Err,
            final(self).can_issue() == old(self).can_issue(),
    ;
}

/// Nonce generator that fills everything after the context with random bytes.
pub struct RandomNonceGenerator {
    rng: OsRandom,
}

impl RandomNonceGenerator {
    /// Creates a generator backed by the operating system's random source.
    pub fn new() -> (r: Result<RandomNonceGenerator, ContractError>)
        ensures
            r matches Err(e) ==> e.message@ == "Failed to initialize random nonce generator"@,
    {
        match OsRandom::new() {
            Some(rng) => Ok(RandomNonceGenerator { rng }),
            None => Err(ContractError::new("Failed to initialize random nonce generator")),
        }
    }
}

/// Whether `nonce` has the given context prefix.
fn prefix_matches(nonce: &Vec<u8>, context: &[u8; 16]) -> (r: bool)
    requires
        nonce@.len() == BOX_NONCE_LEN,
    ensures
        r == (nonce_prefix(nonce@) == context@),
{
    let mut i: usize = 0;
    while i < NONCE_CONTEXT_LEN
        invariant
            nonce@.len() == BOX_NONCE_LEN,
            context@.len() == NONCE_CONTEXT_LEN,
            i <= NONCE_CONTEXT_LEN,
            forall|j: int| 0 <= j < i ==> nonce@[j] == context@[j],
        decreases NONCE_CONTEXT_LEN - i,
    {
        if nonce[i] != context[i] {
            assert(nonce_prefix(nonce@)[i as int] != context@[i as int]);
            return false;
        }
        i = i + 1;
    }
    assert(nonce_prefix(nonce@) =~= context@);
    true
}

/// Overwrites the first sixteen bytes of `nonce` with `context`.
fn set_prefix(nonce: &mut Vec<u8>, context: &[u8; 16])
    requires
        old(nonce)@.len() == BOX_NONCE_LEN,
    ensures
        final(nonce)@ == context@ + old(nonce)@.subrange(NONCE_CONTEXT_LEN as int, BOX_NONCE_LEN as int),
{
    let mut i: usize = 0;
    while i < NONCE_CONTEXT_LEN
        invariant
            nonce@.len() == BOX_NONCE_LEN,
            context@.len() == NONCE_CONTEXT_LEN,
            i <= NONCE_CONTEXT_LEN,
            forall|j: int| 0 <= j < i ==> nonce@[j] == context@[j],
            forall|j: int| i <= j < BOX_NONCE_LEN ==> nonce@[j] == old(nonce)@[j],
        decreases NONCE_CONTEXT_LEN - i,
    {
        nonce.set(i, context[i]);
        i = i + 1;
    }
    assert(nonce@ =~= context@ + old(nonce)@.subrange(NONCE_CONTEXT_LEN as int, BOX_NONCE_LEN as int));
}

impl NonceGenerator for RandomNonceGenerator {
    open spec fn can_issue(&self) -> bool {
        true
    }

    open spec fn accepts(&self, nonce: Seq<u8>, context: Seq<u8>) -> bool {
        nonce_prefix(nonce) == context
    }

    open spec fn issues(&self, nonce: Seq<u8>, context: Seq<u8>) -> bool {
        nonce.len() == BOX_NONCE_LEN && nonce_prefix(nonce) == context
    }

    open spec fn issue_succeeds(&self) -> bool {
        true
    }

    open spec fn after_issue(&self, next: &Self) -> bool {
        true
    }

    open spec fn after_accept(&self, nonce: Seq<u8>, next: &Self) -> bool {
        *next == *self
    }

    fn get_nonce(&mut self, context: &[u8; 16]) -> (r: Result<Vec<u8>, ContractError>)
        ensures
            r is Ok,
    {
        let mut nonce = zeros(BOX_NONCE_LEN);
        fill_random(&mut self.rng, &mut nonce);
        set_prefix(&mut nonce, context);
        assert(nonce_prefix(nonce@) =~= context@);
        Ok(nonce)
    }

    fn unpack_nonce(&mut self, crypto_box: &CryptoBox, context: &[u8; 16]) -> (r: Result<
        Vec<u8>,
        ContractError,
    >)
        ensures
            r is Ok <==> nonce_prefix(crypto_box.nonce@) == context@,
            r matches Err(e) ==> e.message@ == "Invalid nonce"@,
    {
        let nonce = copy_bytes(crypto_box.nonce.as_slice());
        if !prefix_matches(&nonce, context) {
            return Err(ContractError::new("Invalid nonce"));
        }
        Ok(nonce)
    }
}

/// Nonce generator whose nonces carry a counter that must strictly increase.
pub struct MonotonicNonceGenerator {
    /// Next nonce to be sent.
    next_send_nonce: u64,
    /// Last nonce that was received.
    last_received_nonce: Option<u64>,
}

impl MonotonicNonceGenerator {
    /// Counter of the next nonce this generator sends.
    pub closed spec fn next_send(&self) -> u64 {
        self.next_send_nonce
    }

    /// Counter of the last nonce this generator accepted.
    pub closed spec fn last_received(&self) -> Option<u64> {
        self.last_received_nonce
    }

    /// Creates a generator that starts sending at zero and has accepted nothing.
    pub fn new() -> (g: MonotonicNonceGenerator)
        ensures
            g.next_send() == 0,
            g.last_received() is None,
    {
        MonotonicNonceGenerator { next_send_nonce: 0, last_received_nonce: None }
    }

    /// Whether another nonce can be sent before the counter runs out.
    pub fn has_nonce_left(&self) -> (r: bool)
        ensures
            r == (self.next_send() < u64::MAX),
    {
        self.next_send_nonce < u64::MAX
    }
}

impl Default for MonotonicNonceGenerator {
    fn default() -> (g: MonotonicNonceGenerator)
        ensures
            g.next_send() == 0,
            g.last_received() is None,
    {
        MonotonicNonceGenerator::new()
    }
}

impl NonceGenerator for MonotonicNonceGenerator {
    open spec fn can_issue(&self) -> bool {
        self.next_send() < u64::MAX
    }

    open spec fn accepts(&self, nonce: Seq<u8>, context: Seq<u8>) -> bool {
        monotonic_accepts(self.last_received(), nonce, context)
    }

    open spec fn issues(&self, nonce: Seq<u8>, context: Seq<u8>) -> bool {
        nonce == monotonic_nonce(context, self.next_send())
    }

    open spec fn issue_succeeds(&self) -> bool {
        true
    }

    open spec fn after_issue(&self, next: &Self) -> bool {
        next.next_send() == self.next_send() + 1 && next.last_received() == self.last_received()
    }

    open spec fn after_accept(&self, nonce: Seq<u8>, next: &Self) -> bool {
        next.next_send() == self.next_send() && next.last_received() == Some(nonce_counter(nonce))
    }

    fn get_nonce(&mut self, context: &[u8; 16]) -> (r: Result<Vec<u8>, ContractError>)
        ensures
            r matches Ok(n) && n@ == monotonic_nonce(context@, old(self).next_send()),
            final(self).next_send() == old(self).next_send() + 1,
            final(self).last_received() == old(self).last_received(),
    {
        let mut nonce: Vec<u8> = copy_bytes(context.as_slice());
        let tail = zeros(8);
        append_bytes(&mut nonce, tail.as_slice());
        write_u64_le_at(&mut nonce, NONCE_CONTEXT_LEN, self.next_send_nonce);
        self.next_send_nonce = self.next_send_nonce + 1;
        assert(nonce@ =~= monotonic_nonce(context@, old(self).next_send()));
        Ok(nonce)
    }

    fn unpack_nonce(&mut self, crypto_box: &CryptoBox, context: &[u8; 16]) -> (r: Result<
        Vec<u8>,
        ContractError,
    >)
        ensures
            r is Ok <==> monotonic_accepts(old(self).last_received(), crypto_box.nonce@, context@),
            r is Ok ==> final(self).last_received() == Some(nonce_counter(crypto_box.nonce@)),
            r is Err ==> final(self).last_received() == old(self).last_received(),
            r matches Err(e) ==> e.message@ == "Invalid nonce"@,
            final(self).next_send() == old(self).next_send(),
    {
        let nonce = copy_bytes(crypto_box.nonce.as_slice());
        if !prefix_matches(&nonce, context) {
            return Err(ContractError::new("Invalid nonce"));
        }
        let counter_value = read_u64_le_at(nonce.as_slice(), NONCE_CONTEXT_LEN);
        match self.last_received_nonce {
            Some(last_nonce) => {
                if counter_value <= last_nonce {
                    return Err(ContractError::new("Invalid nonce"));
                }
            },
            None => {},
        }
        self.last_received_nonce = Some(counter_value);
        Ok(nonce)
    }
}

/// A nonce that a monotonic sender issues is accepted by a receiver whose
/// last accepted counter is below the sender's, and its counter is read back
/// exactly.
pub proof fn law_monotonic_nonce_accepted(context: Seq<u8>, counter: u64, last: Option<u64>)
    requires
        context.len() == NONCE_CONTEXT_LEN,
        last matches Some(l) ==> l < counter,
    ensures
        nonce_counter(monotonic_nonce(context, counter)) == counter,
        monotonic_accepts(last, monotonic_nonce(context, counter), context),
{
    let n = monotonic_nonce(context, counter);
    assert(n.subrange(NONCE_CONTEXT_LEN as int, BOX_NONCE_LEN as int) =~= le_bytes(counter));
    assert(nonce_prefix(n) =~= context);
    lemma_le_roundtrip(counter);
}

/// A nonce whose counter is not above the last accepted one is rejected:
/// a receiver never accepts the same counter twice.
pub proof fn law_monotonic_replay_rejected(context: Seq<u8>, counter: u64, last: u64)
    requires
        context.len() == NONCE_CONTEXT_LEN,
        counter <= last,
    ensures
        !monotonic_accepts(Some(last), monotonic_nonce(context, counter), context),
{
    law_monotonic_nonce_accepted(context, counter, None);
}

/// What a monotonic receiver whose last accepted counter is `last` makes of
/// `nonces` read in order in `context`: its last accepted counter after them
/// all, or `None` where one of them is refused.
pub open spec fn monotonic_accept_all(last: Option<u64>, nonces: Seq<Seq<u8>>, context: Seq<u8>) -> Option<
    Option<u64>,
>
    decreases nonces.len(),
{
    if nonces.len() == 0 {
        Some(last)
    } else {
        match monotonic_accept_all(last, nonces.drop_last(), context) {
            Some(l) => if monotonic_accepts(l, nonces.last(), context) {
                Some(Some(nonce_counter(nonces.last())))
            } else {
                None
            },
            None => None,
        }
    }
}

/// After a receiver accepts a non-empty run of nonces, its last counter is
/// that of the last nonce and at least that of every nonce in the run.
proof fn lemma_accept_all_bound(last: Option<u64>, nonces: Seq<Seq<u8>>, context: Seq<u8>)
    requires
        nonces.len() > 0,
        monotonic_accept_all(last, nonces, context) is Some,
    ensures
        monotonic_accept_all(last, nonces, context) == Some(Some(nonce_counter(nonces.last()))),
        forall|i: int|
            0 <= i < nonces.len() ==> nonce_counter(#[trigger] nonces[i]) <= nonce_counter(
                nonces.last(),
            ),
    decreases nonces.len(),
{
    let init = nonces.drop_last();
    if init.len() > 0 {
        lemma_accept_all_bound(last, init, context);
        assert forall|i: int| 0 <= i < nonces.len() implies nonce_counter(#[trigger] nonces[i])
            <= nonce_counter(nonces.last()) by {
            if i < init.len() {
                assert(nonces[i] == init[i]);
            }
        }
    }
}

/// Replays are refused over a whole run: once a receiver has accepted a run
/// of nonces in order, none of them is accepted again.
pub proof fn law_monotonic_run_replay_rejected(
    last: Option<u64>,
    nonces: Seq<Seq<u8>>,
    context: Seq<u8>,
    i: int,
)
    requires
        monotonic_accept_all(last, nonces, context) is Some,
        0 <= i < nonces.len(),
    ensures
        !monotonic_accepts(monotonic_accept_all(last, nonces, context).unwrap(), nonces[i], context),
{
    lemma_accept_all_bound(last, nonces, context);
}

/// The nonces a monotonic generator issues in `context` from counter
/// `start`, `n` of them, in order.
pub open spec fn monotonic_run(context: Seq<u8>, start: u64, n: nat) -> Seq<Seq<u8>> {
    Seq::new(n, |i: int| monotonic_nonce(context, (start + i) as u64))
}

/// A whole run of nonces that a monotonic generator issues in order is
/// accepted in order by a receiver that has seen nothing past its start:
/// each nonce is accepted, and the receiver ends on the last one's counter.
pub proof fn law_monotonic_run_accepted(context: Seq<u8>, start: u64, n: nat, last: Option<u64>)
    requires
        context.len() == NONCE_CONTEXT_LEN,
        start + n <= u64::MAX + 1,
        last matches Some(l) ==> l < start,
    ensures
        monotonic_accept_all(last, monotonic_run(context, start, n), context) == if n == 0 {
            Some(last)
        } else {
            Some(Some((start + n - 1) as u64))
        },
    decreases n,
{
    if n > 0 {
        let m = (n - 1) as nat;
        law_monotonic_run_accepted(context, start, m, last);
        let run = monotonic_run(context, start, n);
        assert(run.drop_last() =~= monotonic_run(context, start, m));
        let prev: Option<u64> = if m == 0 {
            last
        } else {
            Some((start + m - 1) as u64)
        };
        law_monotonic_nonce_accepted(context, (start + m) as u64, prev);
        assert(run.last() == monotonic_nonce(context, (start + m) as u64));
    }
}

} // verus!
