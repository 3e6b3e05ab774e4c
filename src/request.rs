use vstd::prelude::*;

verus! {

/// The digest that keccak256 gives for a byte string.
pub uninterp spec fn keccak_of(data: Seq<u8>) -> Seq<u8>;

/// Relies on alloy_primitives::keccak256: the 32-byte Keccak-256 digest of
/// the bytes, which depends on those bytes alone.
#[verifier::external_body]
fn keccak(data: &Vec<u8>) -> (r: [u8; 32])
    ensures
        r@ == keccak_of(data@),
{
    alloy_primitives::keccak256(data.as_slice()).0
}

/// A copy of a byte vector.
pub fn copy_bytes(v: &Vec<u8>) -> (r: Vec<u8>)
    ensures
        r@ == v@,
{
    let r = v.clone();
    assert(r@ =~= v@);
    r
}

/// A submission made through the API, in the shape of an inbound event.
pub struct ApiCallbackRequest {
    pub account: [u8; 20],
    pub callback_contract: [u8; 20],
    pub function_selector: [u8; 4],
    pub gas_limit: u64,
    pub image_id: [u8; 32],
    pub input: Vec<u8>,
}

/// A raw trigger, from a decoded chain log or from an API submission.
pub struct InboundEvent {
    pub account: [u8; 20],
    pub image_id: [u8; 32],
    pub input: Vec<u8>,
    pub callback_contract: [u8; 20],
    pub function_selector: [u8; 4],
    pub gas_limit: u64,
}

/// The canonical unit of work: an inbound event together with the identifier
/// derived from it.
pub struct CallbackRequest {
    pub request_id: [u8; 32],
    pub account: [u8; 20],
    pub image_id: [u8; 32],
    pub input: Vec<u8>,
    pub callback_contract: [u8; 20],
    pub function_selector: [u8; 4],
    pub gas_limit: u64,
}

/// The value of a callback request.
pub struct RequestView {
    pub request_id: [u8; 32],
    pub account: [u8; 20],
    pub image_id: [u8; 32],
    pub input: Seq<u8>,
    pub callback_contract: [u8; 20],
    pub function_selector: [u8; 4],
    pub gas_limit: u64,
}

impl View for CallbackRequest {
    type V = RequestView;

    open spec fn view(&self) -> RequestView {
        RequestView {
            request_id: self.request_id,
            account: self.account,
            image_id: self.image_id,
            input: self.input@,
            callback_contract: self.callback_contract,
            function_selector: self.function_selector,
            gas_limit: self.gas_limit,
        }
    }
}

/// Big-endian bytes of a 64-bit integer.
pub open spec fn be_bytes(x: u64) -> Seq<u8> {
    seq![
        (x >> 56u64) as u8,
        (x >> 48u64) as u8,
        (x >> 40u64) as u8,
        (x >> 32u64) as u8,
        (x >> 24u64) as u8,
        (x >> 16u64) as u8,
        (x >> 8u64) as u8,
        x as u8,
    ]
}

/// The byte string from which a request's identifier is derived: every field
/// of the event, the input prefixed by its length, so that distinct events
/// give distinct strings. No nonce or block position takes part, so two
/// separate requests with identical fields are one request: a replay of an
/// event and a deliberate repetition of it cannot be told apart.
pub open spec fn event_bytes(e: InboundEvent) -> Seq<u8> {
    e.account@ + e.image_id@ + be_bytes(e.input@.len() as u64) + e.input@ + e.callback_contract@
        + e.function_selector@ + be_bytes(e.gas_limit)
}

/// The identifier of the request that an event triggers.
pub open spec fn request_id_of(e: InboundEvent) -> Seq<u8> {
    keccak_of(event_bytes(e))
}

pub(crate) fn push_be_bytes(out: &mut Vec<u8>, x: u64)
    ensures
        final(out)@ == old(out)@ + be_bytes(x),
{
    out.push((x >> 56u64) as u8);
    out.push((x >> 48u64) as u8);
    out.push((x >> 40u64) as u8);
    out.push((x >> 32u64) as u8);
    out.push((x >> 24u64) as u8);
    out.push((x >> 16u64) as u8);
    out.push((x >> 8u64) as u8);
    out.push(x as u8);
    assert(out@ =~= old(out)@ + be_bytes(x));
}

pub(crate) fn push_all(out: &mut Vec<u8>, data: &[u8])
    ensures
        final(out)@ == old(out)@ + data@,
{
    let mut i: usize = 0;
    while i < data.len()
        invariant
            0 <= i <= data@.len(),
            out@ == old(out)@ + data@.subrange(0, i as int),
        decreases data@.len() - i,
    {
        out.push(data[i]);
        i = i + 1;
        assert(out@ =~= old(out)@ + data@.subrange(0, i as int));
    }
    assert(data@.subrange(0, data@.len() as int) =~= data@);
}

impl InboundEvent {
    /// The event that an API submission stands for.
    pub fn from_api_request(req: ApiCallbackRequest) -> (r: InboundEvent)
        ensures
            r.account == req.account,
            r.image_id == req.image_id,
            r.input@ == req.input@,
            r.callback_contract == req.callback_contract,
            r.function_selector == req.function_selector,
            r.gas_limit == req.gas_limit,
    {
        InboundEvent {
            account: req.account,
            image_id: req.image_id,
            input: req.input,
            callback_contract: req.callback_contract,
            function_selector: req.function_selector,
            gas_limit: req.gas_limit,
        }
    }

    /// The bytes from which the request identifier is derived.
    pub fn encode(&self) -> (r: Vec<u8>)
        ensures
            r@ == event_bytes(*self),
    {
        let mut out: Vec<u8> = Vec::new();
        push_all(&mut out, self.account.as_slice());
        push_all(&mut out, self.image_id.as_slice());
        push_be_bytes(&mut out, self.input.len() as u64);
        push_all(&mut out, self.input.as_slice());
        push_all(&mut out, self.callback_contract.as_slice());
        push_all(&mut out, self.function_selector.as_slice());
        push_be_bytes(&mut out, self.gas_limit);
        out
    }
}

impl CallbackRequest {
    /// The canonical request for an event, its identifier derived from the
    /// event's bytes.
    pub fn from_event(e: InboundEvent) -> (r: CallbackRequest)
        ensures
            r.request_id@ == request_id_of(e),
            r.account == e.account,
            r.image_id == e.image_id,
            r.input@ == e.input@,
            r.callback_contract == e.callback_contract,
            r.function_selector == e.function_selector,
            r.gas_limit == e.gas_limit,
    {
        let bytes = e.encode();
        let request_id = keccak(&bytes);
        CallbackRequest {
            request_id,
            account: e.account,
            image_id: e.image_id,
            input: e.input,
            callback_contract: e.callback_contract,
            function_selector: e.function_selector,
            gas_limit: e.gas_limit,
        }
    }

    /// A copy of the request.
    pub fn duplicate(&self) -> (r: CallbackRequest)
        ensures
            r@ == self@,
    {
        CallbackRequest {
            request_id: self.request_id,
            account: self.account,
            image_id: self.image_id,
            input: copy_bytes(&self.input),
            callback_contract: self.callback_contract,
            function_selector: self.function_selector,
            gas_limit: self.gas_limit,
        }
    }
}

} // verus!
