//! The authentication backend chain: backends evaluated in priority order
//! until one gives a terminal result.
use vstd::prelude::*;
use crate::config::SecurityConfig;
use crate::protocol::{
    attrs_view, insert_attr, with_attributes, Attribute, AttributeView, Packet, PacketCode,
    PacketView, lookup,
};

verus! {

/// The outcome of one backend's evaluation of a request.
#[derive(Debug, Clone)]
pub enum AuthResult {
    /// Authentication succeeded.
    Accept {
        /// Attributes to include in the response
        attributes: Vec<Attribute>,
    },
    /// Authentication failed.
    Reject {
        /// Reason for rejection
        reason: String,
        /// Attributes to include in the response
        attributes: Vec<Attribute>,
    },
    /// More information is needed from the client.
    Challenge {
        /// Challenge message
        message: String,
        /// Opaque state the client echoes on its next request
        state: Vec<u8>,
        /// Attributes to include in the response
        attributes: Vec<Attribute>,
    },
    /// Another backend should decide.
    Forward {
        /// Target backend
        target: String,
    },
}

/// The mathematical value of an [`AuthResult`].
pub enum AuthResultView {
    Accept(Seq<AttributeView>),
    Reject(Seq<char>, Seq<AttributeView>),
    Challenge(Seq<char>, Seq<u8>, Seq<AttributeView>),
    Forward(Seq<char>),
}

impl View for AuthResult {
    type V = AuthResultView;

    open spec fn view(&self) -> AuthResultView {
        match self {
            AuthResult::Accept { attributes } => AuthResultView::Accept(attrs_view(attributes@)),
            AuthResult::Reject { reason, attributes } => AuthResultView::Reject(reason@, attrs_view(attributes@)),
            AuthResult::Challenge { message, state, attributes } => AuthResultView::Challenge(
                message@,
                state@,
                attrs_view(attributes@),
            ),
            AuthResult::Forward { target } => AuthResultView::Forward(target@),
        }
    }
}

/// A backend that failed to evaluate a request.
#[derive(Debug, Clone)]
pub struct BackendError {
    /// What went wrong
    pub message: String,
}

/// An authentication backend. Each implementation states its name,
/// whether it is enabled, its priority and what it decides on a request
/// through the four spec functions; the defaults describe an enabled,
/// unnamed backend of priority 100 that fails every request.
pub trait AuthBackend {
    /// The backend's name.
    open spec fn spec_name(&self) -> Seq<char> {
        Seq::empty()
    }

    /// Whether the backend takes part in evaluation.
    open spec fn spec_enabled(&self) -> bool {
        true
    }

    /// The backend's priority.
    open spec fn spec_priority(&self) -> u32 {
        100
    }

    /// What the backend decides on a request; `Err` stands for a failure.
    open spec fn spec_outcome(&self, request: PacketView) -> Result<AuthResultView, ()> {
        Err(())
    }

    /// The backend's name.
    fn name(&self) -> (r: &str)
        ensures
            r@ == self.spec_name(),
    ;

    /// Whether the backend takes part in evaluation.
    fn is_enabled(&self) -> (r: bool)
        ensures
            r == self.spec_enabled(),
    ;

    /// Evaluate a request.
    fn authenticate(&self, request: &Packet) -> (r: Result<AuthResult, BackendError>)
        requires
            request.wf(),
        ensures
            outcome_view(r) == self.spec_outcome(request@),
    ;

    /// The backend's priority: lower values are evaluated first.
    fn priority(&self) -> (r: u32)
        ensures
            r == self.spec_priority(),
    ;
}

// ---------------------------------------------------------------------------
// Responses

/// A response to `request` with the given code and attributes.
pub open spec fn response_view(request: PacketView, code: PacketCode, attributes: Seq<AttributeView>) -> PacketView {
    PacketView {
        code,
        identifier: request.identifier,
        authenticator: request.authenticator,
        attributes,
        source: request.source,
    }
}

/// A Reply-Message attribute.
pub open spec fn reply_message(text: Seq<char>) -> AttributeView {
    AttributeView::String("Reply-Message"@, text)
}

/// The Access-Accept response carrying `extra`.
pub open spec fn accept_view(request: PacketView, extra: Seq<AttributeView>) -> PacketView {
    response_view(request, PacketCode::AccessAccept, with_attributes(Seq::empty(), extra))
}

/// The Access-Reject response giving `reason`, plus `extra`.
pub open spec fn reject_view(request: PacketView, reason: Seq<char>, extra: Seq<AttributeView>) -> PacketView {
    response_view(
        request,
        PacketCode::AccessReject,
        with_attributes(insert_attr(Seq::empty(), reply_message(reason)), extra),
    )
}

/// The Access-Challenge response with `message` and `state`, plus `extra`.
pub open spec fn challenge_view(
    request: PacketView,
    message: Seq<char>,
    state: Seq<u8>,
    extra: Seq<AttributeView>,
) -> PacketView {
    response_view(
        request,
        PacketCode::AccessChallenge,
        with_attributes(
            insert_attr(insert_attr(Seq::empty(), reply_message(message)), AttributeView::Binary("State"@, state)),
            extra,
        ),
    )
}

/// The response a backend's result calls for: terminal results end the
/// chain with a response, forwards and backend failures continue it.
pub open spec fn terminal_response(request: PacketView, outcome: Result<AuthResultView, ()>) -> Option<PacketView> {
    match outcome {
        Ok(AuthResultView::Accept(extra)) => Some(accept_view(request, extra)),
        Ok(AuthResultView::Reject(reason, extra)) => Some(reject_view(request, reason, extra)),
        Ok(AuthResultView::Challenge(message, state, extra)) => Some(challenge_view(request, message, state, extra)),
        Ok(AuthResultView::Forward(_)) => None,
        Err(_) => None,
    }
}

/// `response` answers `request`: it echoes the identifier, authenticator
/// and source, and accepts, rejects or challenges.
pub open spec fn is_auth_response(request: PacketView, response: PacketView) -> bool {
    &&& response.identifier == request.identifier
    &&& response.authenticator == request.authenticator
    &&& response.source == request.source
    &&& (response.code == PacketCode::AccessAccept || response.code == PacketCode::AccessReject
        || response.code == PacketCode::AccessChallenge)
}

/// The outcome of a backend call, with the error's details dropped.
pub open spec fn outcome_view(o: Result<AuthResult, BackendError>) -> Result<AuthResultView, ()> {
    match o {
        Ok(r) => Ok(r@),
        Err(_) => Err(()),
    }
}

/// Reason given when the request lacks a required Message-Authenticator.
pub open spec fn missing_authenticator_reason() -> Seq<char> {
    "Missing Message-Authenticator attribute"@
}

/// Reason given when no backend reached a terminal result.
pub open spec fn exhausted_reason() -> Seq<char> {
    "no backend accepted the request"@
}

/// The chain's response to `request`, evaluating from position `k` of
/// `order` on: the response to the first terminal outcome of an enabled
/// backend, or the exhausted Reject when there is none. Disabled backends,
/// forwards and failures pass to the next position.
pub open spec fn chain_response<B: AuthBackend>(
    request: PacketView,
    backends: Seq<B>,
    order: Seq<usize>,
    k: int,
) -> PacketView
    decreases order.len() - k,
{
    if k < 0 || k >= order.len() {
        reject_view(request, exhausted_reason(), Seq::empty())
    } else if backends[order[k] as int].spec_enabled()
        && terminal_response(request, backends[order[k] as int].spec_outcome(request)) is Some {
        terminal_response(request, backends[order[k] as int].spec_outcome(request))->Some_0
    } else {
        chain_response(request, backends, order, k + 1)
    }
}

/// The request fails the Message-Authenticator policy.
pub open spec fn fails_authenticator_policy(require: bool, request: PacketView) -> bool {
    require && lookup(request.attributes, "Message-Authenticator"@) is None
}

// ---------------------------------------------------------------------------
// Priority order

/// Backend `i` comes before backend `j`: a lower priority, or an equal
/// priority and earlier registration.
pub open spec fn precedes(priorities: Seq<u32>, i: int, j: int) -> bool {
    priorities[i] < priorities[j] || (priorities[i] == priorities[j] && i < j)
}

/// Index `i` appears in `order`.
pub open spec fn listed(order: Seq<usize>, i: int) -> bool {
    exists|k: int| 0 <= k < order.len() && order[k] == i
}

/// `order` lists every backend index exactly once, by priority, and by
/// registration among equal priorities.
pub open spec fn is_priority_order(priorities: Seq<u32>, order: Seq<usize>) -> bool {
    &&& order.len() == priorities.len()
    &&& forall|k: int| 0 <= k < order.len() ==> order[k] < priorities.len()
    &&& forall|a: int, b: int| 0 <= a < b < order.len() ==> precedes(priorities, order[a] as int, order[b] as int)
    &&& forall|i: int| 0 <= i < priorities.len() ==> #[trigger] listed(order, i)
}

/// The evaluation order of backends with the given priorities: a stable
/// sort by priority.
pub fn priority_order(priorities: &Vec<u32>) -> (r: Vec<usize>)
    ensures
        is_priority_order(priorities@, r@),
{
    let ghost p = priorities@;
    let mut order: Vec<usize> = Vec::new();
    let mut i: usize = 0;
    while i < priorities.len()
        invariant
            p == priorities@,
            i <= p.len(),
            order@.len() == i,
            forall|k: int| 0 <= k < order@.len() ==> order@[k] < i,
            forall|a: int, b: int| 0 <= a < b < order@.len() ==> precedes(p, order@[a] as int, order@[b] as int),
            forall|j: int| 0 <= j < i ==> #[trigger] listed(order@, j),
        decreases p.len() - i,
    {
        let mut pos: usize = 0;
        while pos < order.len() && priorities[order[pos]] <= priorities[i]
            invariant
                p == priorities@,
                i < p.len(),
                pos <= order@.len(),
                forall|k: int| 0 <= k < order@.len() ==> order@[k] < i,
                forall|k: int| 0 <= k < pos ==> p[order@[k] as int] <= p[i as int],
            decreases order@.len() - pos,
        {
            pos = pos + 1;
        }
        let ghost old_order = order@;
        assert forall|k: int| pos <= k < old_order.len() implies p[i as int] < p[old_order[k] as int] by {
            if p[old_order[k] as int] <= p[i as int] {
                assert(precedes(p, old_order[pos as int] as int, old_order[k] as int) || pos as int == k);
            }
        }
        order.insert(pos, i);
        assert forall|j: int| 0 <= j < i + 1 implies #[trigger] listed(order@, j) by {
            if j == i {
                assert(order@[pos as int] == i);
            } else {
                assert(listed(old_order, j));
                let k0 = choose|k: int| 0 <= k < old_order.len() && old_order[k] == j;
                if k0 < pos {
                    assert(order@[k0] == j);
                } else {
                    assert(order@[k0 + 1] == j);
                }
            }
        }
        i = i + 1;
    }
    order
}

// ---------------------------------------------------------------------------
// The manager

/// Owns the backend chain and turns backend results into responses.
pub struct AuthManager<B> {
    require_message_authenticator: bool,
    backends: Vec<B>,
    priorities: Vec<u32>,
    order: Vec<usize>,
}

impl<B: AuthBackend> AuthManager<B> {
    /// The chain's order is the stable priority order of its backends.
    pub closed spec fn wf(&self) -> bool {
        &&& self.priorities@.len() == self.backends@.len()
        &&& is_priority_order(self.priorities@, self.order@)
    }

    /// Whether requests must carry a Message-Authenticator.
    pub closed spec fn requires_authenticator(&self) -> bool {
        self.require_message_authenticator
    }

    /// The priority each backend reported when the chain was built.
    pub closed spec fn spec_priorities(&self) -> Seq<u32> {
        self.priorities@
    }

    /// The evaluation order, as indices into the registered backends.
    pub closed spec fn spec_order(&self) -> Seq<usize> {
        self.order@
    }

    /// The backends, in registration order.
    pub closed spec fn spec_backends(&self) -> Seq<B> {
        self.backends@
    }

    /// A chain over `backends`, ordered once and for all by priority.
    pub fn new(security: &SecurityConfig, backends: Vec<B>) -> (r: AuthManager<B>)
        ensures
            r.wf(),
            r.requires_authenticator() == security.require_message_authenticator,
            r.spec_backends() == backends@,
            r.spec_priorities().len() == backends@.len(),
            forall|i: int| 0 <= i < backends@.len() ==> r.spec_priorities()[i] == #[trigger] backends@[i].spec_priority(),
            is_priority_order(r.spec_priorities(), r.spec_order()),
    {
        let mut priorities: Vec<u32> = Vec::new();
        let mut i: usize = 0;
        while i < backends.len()
            invariant
                i <= backends@.len(),
                priorities@.len() == i,
                forall|j: int| 0 <= j < i ==> priorities@[j] == #[trigger] backends@[j].spec_priority(),
            decreases backends@.len() - i,
        {
            priorities.push(backends[i].priority());
            i = i + 1;
        }
        let order = priority_order(&priorities);
        AuthManager {
            require_message_authenticator: security.require_message_authenticator,
            backends,
            priorities,
            order,
        }
    }

    /// The evaluation order, as indices into the registered backends.
    pub fn order(&self) -> (r: &Vec<usize>)
        ensures
            r@ == self.spec_order(),
    {
        &self.order
    }

    /// The backends' names in evaluation order.
    pub fn evaluation_order(&self) -> (r: Vec<String>)
        requires
            self.wf(),
        ensures
            r@.len() == self.spec_order().len(),
            forall|k: int| 0 <= k < r@.len()
                ==> #[trigger] r@[k]@ == self.spec_backends()[self.spec_order()[k] as int].spec_name(),
    {
        let mut names: Vec<String> = Vec::new();
        let mut k: usize = 0;
        while k < self.order.len()
            invariant
                self.wf(),
                k <= self.order@.len(),
                names@.len() == k,
                forall|j: int| 0 <= j < k
                    ==> #[trigger] names@[j]@ == self.backends@[self.order@[j] as int].spec_name(),
            decreases self.order@.len() - k,
        {
            let b = &self.backends[self.order[k]];
            names.push(b.name().to_owned());
            k = k + 1;
        }
        names
    }

    /// The Access-Accept response to `request` carrying `attributes`.
    fn create_accept_response(&self, request: &Packet, attributes: Vec<Attribute>) -> (r: Packet)
        ensures
            r.wf(),
            r@ == accept_view(request@, attrs_view(attributes@)),
    {
        let mut response = request.create_response(Packet::ACCESS_ACCEPT);
        response.add_attributes(attributes);
        response
    }

    /// The Access-Reject response to `request` giving `reason`.
    fn create_reject_response(&self, request: &Packet, reason: &str, attributes: Vec<Attribute>) -> (r: Packet)
        ensures
            r.wf(),
            r@ == reject_view(request@, reason@, attrs_view(attributes@)),
    {
        let mut response = request.create_response(Packet::ACCESS_REJECT);
        response.add_attribute(Attribute::String("Reply-Message".to_owned(), reason.to_owned()));
        response.add_attributes(attributes);
        response
    }

    /// The Access-Challenge response to `request`.
    fn create_challenge_response(
        &self,
        request: &Packet,
        message: &str,
        state: &[u8],
        attributes: Vec<Attribute>,
    ) -> (r: Packet)
        ensures
            r.wf(),
            r@ == challenge_view(request@, message@, state@, attrs_view(attributes@)),
    {
        let mut response = request.create_response(Packet::ACCESS_CHALLENGE);
        response.add_attribute(Attribute::String("Reply-Message".to_owned(), message.to_owned()));
        response.add_attribute(Attribute::Binary("State".to_owned(), vstd::slice::slice_to_vec(state)));
        response.add_attributes(attributes);
        response
    }

    /// The response one backend outcome calls for, or `None` where the
    /// chain continues with the next backend.
    pub fn respond(&self, request: &Packet, outcome: Result<AuthResult, BackendError>) -> (r: Option<Packet>)
        ensures
            r is None <==> terminal_response(request@, outcome_view(outcome)) is None,
            r matches Some(p) ==> p.wf() && terminal_response(request@, outcome_view(outcome)) == Some(p@),
    {
        match outcome {
            Ok(AuthResult::Accept { attributes }) => Some(self.create_accept_response(request, attributes)),
            Ok(AuthResult::Reject { reason, attributes }) => Some(
                self.create_reject_response(request, reason.as_str(), attributes),
            ),
            Ok(AuthResult::Challenge { message, state, attributes }) => Some(
                self.create_challenge_response(request, message.as_str(), state.as_slice(), attributes),
            ),
            Ok(AuthResult::Forward { .. }) => None,
            Err(_) => None,
        }
    }

    /// Evaluate the chain on a request: backends in priority order until
    /// one gives a terminal result.
    pub fn authenticate(&self, request: &Packet) -> (r: Packet)
        requires
            self.wf(),
            request.wf(),
        ensures
            r.wf(),
            fails_authenticator_policy(self.requires_authenticator(), request@)
                ==> r@ == reject_view(request@, missing_authenticator_reason(), Seq::empty()),
            !fails_authenticator_policy(self.requires_authenticator(), request@)
                ==> r@ == chain_response(request@, self.spec_backends(), self.spec_order(), 0),
            is_auth_response(request@, r@),
    {
        if self.require_message_authenticator && request.get_attribute("Message-Authenticator").is_none() {
            let none: Vec<Attribute> = Vec::new();
            assert(attrs_view(none@) =~= Seq::<AttributeView>::empty());
            return self.create_reject_response(request, "Missing Message-Authenticator attribute", none);
        }
        let mut k: usize = 0;
        while k < self.order.len()
            invariant
                self.wf(),
                request.wf(),
                k <= self.order@.len(),
                !fails_authenticator_policy(self.requires_authenticator(), request@),
                chain_response(request@, self.spec_backends(), self.spec_order(), 0)
                    == chain_response(request@, self.spec_backends(), self.spec_order(), k as int),
            decreases self.order@.len() - k,
        {
            let b = &self.backends[self.order[k]];
            if b.is_enabled() {
                let outcome = b.authenticate(request);
                match self.respond(request, outcome) {
                    Some(response) => {
                        return response;
                    },
                    None => {},
                }
            }
            k = k + 1;
        }
        let none: Vec<Attribute> = Vec::new();
        assert(attrs_view(none@) =~= Seq::<AttributeView>::empty());
        self.create_reject_response(request, "no backend accepted the request", none)
    }
}

} // verus!
