//! The decisions of the server runtime: what to answer to a datagram, and
//! when a shutdown has drained. Sockets, workers and timers drive these
//! from outside the library.
use vstd::prelude::*;
use crate::auth::{
    chain_response, fails_authenticator_policy, is_auth_response, missing_authenticator_reason, reject_view, response_view,
    AuthBackend, AuthManager,
};
use crate::codec::{decode_spec, encode_spec, PacketProcessor, ProtocolError};
use crate::protocol::{lookup, PacketCode, PacketView, SocketAddress};

verus! {

/// How often a draining server looks at its in-flight count, in milliseconds.
pub const DRAIN_POLL_INTERVAL_MS: u64 = 100;

/// The bytes to send for a response packet, or `None` where it does not encode.
pub open spec fn sent_bytes(response: PacketView) -> Option<Seq<u8>> {
    match encode_spec(response) {
        Ok(b) => Some(b),
        Err(_) => None,
    }
}

/// The bytes of an optional datagram.
pub open spec fn datagram_view(r: Option<Vec<u8>>) -> Option<Seq<u8>> {
    match r {
        Some(b) => Some(b@),
        None => None,
    }
}

/// The packet codes this server answers.
pub open spec fn answered(code: PacketCode) -> bool {
    code == PacketCode::AccessRequest || code == PacketCode::AccountingRequest || code == PacketCode::CoaRequest
}

/// Answer one datagram: decode it, dispatch it by code, and encode the
/// response. `None` means the datagram is dropped: it did not decode, its
/// code is not one this server answers, or the response did not encode.
pub fn process_datagram<B: AuthBackend>(
    processor: &PacketProcessor,
    manager: &AuthManager<B>,
    data: &[u8],
    source: SocketAddress,
) -> (r: Option<Vec<u8>>)
    requires
        manager.wf(),
    ensures
        decode_spec(data@, source, processor.requires_authenticator()) is Err ==> r is None,
        decode_spec(data@, source, processor.requires_authenticator()) matches Ok(p) ==> {
            &&& !answered(p.code) ==> r is None
            &&& p.code == PacketCode::AccountingRequest ==> datagram_view(r)
                == sent_bytes(response_view(p, PacketCode::AccountingResponse, Seq::empty()))
            &&& p.code == PacketCode::CoaRequest ==> datagram_view(r)
                == sent_bytes(response_view(p, PacketCode::CoaNak, Seq::empty()))
            &&& p.code == PacketCode::AccessRequest && fails_authenticator_policy(manager.requires_authenticator(), p)
                ==> datagram_view(r) == sent_bytes(reject_view(p, missing_authenticator_reason(), Seq::empty()))
            &&& p.code == PacketCode::AccessRequest && !fails_authenticator_policy(manager.requires_authenticator(), p)
                ==> datagram_view(r) == sent_bytes(chain_response(p, manager.spec_backends(), manager.spec_order(), 0))
            &&& p.code == PacketCode::AccessRequest && r is Some ==> exists|resp: PacketView|
                is_auth_response(p, resp) && datagram_view(r) == sent_bytes(resp)
        },
{
    let request = match processor.parse(data, source) {
        Ok(p) => p,
        Err(_) => {
            return None;
        },
    };
    let response = match request.code() {
        PacketCode::AccessRequest => manager.authenticate(&request),
        PacketCode::AccountingRequest => request.create_response(PacketCode::AccountingResponse),
        PacketCode::CoaRequest => request.create_response(PacketCode::CoaNak),
        _ => {
            return None;
        },
    };
    match processor.encode(&response) {
        Ok(bytes) => {
            assert(sent_bytes(response@) == Some(bytes@));
            proof {
                if request@.code == PacketCode::AccessRequest {
                    assert(is_auth_response(request@, response@));
                }
            }
            Some(bytes)
        },
        Err(_) => None,
    }
}

/// What a draining server does after looking at its in-flight count.
#[derive(Debug, Clone, Copy, PartialEq, Eq, Structural)]
pub enum DrainAction {
    /// Every admitted request has completed: stop now.
    Finished,
    /// The drain timeout has passed with requests still in flight: stop now.
    TimedOut,
    /// Look again after the poll interval.
    Wait,
}

/// The drain decision with `active` requests in flight, `elapsed_ms` after
/// the shutdown signal, under a drain timeout of `timeout_ms`.
pub open spec fn drain_decision(active: u64, elapsed_ms: u64, timeout_ms: u64) -> DrainAction {
    if active == 0 {
        DrainAction::Finished
    } else if elapsed_ms > timeout_ms {
        DrainAction::TimedOut
    } else {
        DrainAction::Wait
    }
}

/// Decide one step of the shutdown drain.
pub fn drain_step(active: u64, elapsed_ms: u64, timeout_ms: u64) -> (r: DrainAction)
    ensures
        r == drain_decision(active, elapsed_ms, timeout_ms),
{
    if active == 0 {
        DrainAction::Finished
    } else if elapsed_ms > timeout_ms {
        DrainAction::TimedOut
    } else {
        DrainAction::Wait
    }
}

/// A drain never stops while requests are in flight and the timeout has
/// not passed; it stops as soon as none are in flight, or the timeout has
/// passed.
pub proof fn lemma_drain_waits_for_completion_or_timeout(active: u64, elapsed_ms: u64, timeout_ms: u64)
    ensures
        drain_decision(active, elapsed_ms, timeout_ms) != DrainAction::Wait
            <==> (active == 0 || elapsed_ms > timeout_ms),
        drain_decision(active, elapsed_ms, timeout_ms) == DrainAction::TimedOut ==> active > 0,
{
}

/// An Access-Request without a Message-Authenticator, under a policy that
/// requires one, never decodes, so it reaches no backend.
pub proof fn lemma_missing_authenticator_never_decodes(
    data: Seq<u8>,
    source: SocketAddress,
    attributes: Seq<crate::protocol::AttributeView>,
)
    requires
        data.len() >= 20,
        PacketCode::spec_from_byte(data[0]) == Some(PacketCode::AccessRequest),
        20 <= crate::codec::declared_length(data) <= data.len(),
        crate::codec::decode_attrs(data.subrange(20, crate::codec::declared_length(data) as int), Seq::empty())
            == Ok::<Seq<crate::protocol::AttributeView>, ProtocolError>(attributes),
        lookup(attributes, "Message-Authenticator"@) is None,
    ensures
        decode_spec(data, source, true) == Err::<PacketView, ProtocolError>(
            ProtocolError::PolicyViolation(crate::codec::PolicyKind::MissingMessageAuthenticator),
        ),
{
}

} // verus!
