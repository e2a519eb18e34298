//! RADIUS packet model and the wire codec.
use vstd::prelude::*;
use vstd::utf8::*;

verus! {

/// RADIUS packet codes.
#[derive(Debug, Clone, Copy, PartialEq, Eq, Structural)]
pub enum PacketCode {
    /// Access-Request (1)
    AccessRequest,
    /// Access-Accept (2)
    AccessAccept,
    /// Access-Reject (3)
    AccessReject,
    /// Accounting-Request (4)
    AccountingRequest,
    /// Accounting-Response (5)
    AccountingResponse,
    /// Access-Challenge (11)
    AccessChallenge,
    /// Status-Server (12)
    StatusServer,
    /// Status-Client (13)
    StatusClient,
    /// Disconnect-Request (40)
    DisconnectRequest,
    /// Disconnect-ACK (41)
    DisconnectAck,
    /// Disconnect-NAK (42)
    DisconnectNak,
    /// CoA-Request (43)
    CoaRequest,
    /// CoA-ACK (44)
    CoaAck,
    /// CoA-NAK (45)
    CoaNak,
}

impl PacketCode {
    /// The wire value of this code.
    pub open spec fn spec_byte(self) -> u8 {
        match self {
            PacketCode::AccessRequest => 1,
            PacketCode::AccessAccept => 2,
            PacketCode::AccessReject => 3,
            PacketCode::AccountingRequest => 4,
            PacketCode::AccountingResponse => 5,
            PacketCode::AccessChallenge => 11,
            PacketCode::StatusServer => 12,
            PacketCode::StatusClient => 13,
            PacketCode::DisconnectRequest => 40,
            PacketCode::DisconnectAck => 41,
            PacketCode::DisconnectNak => 42,
            PacketCode::CoaRequest => 43,
            PacketCode::CoaAck => 44,
            PacketCode::CoaNak => 45,
        }
    }

    /// The code whose wire value is `b`, if any.
    pub open spec fn spec_from_byte(b: u8) -> Option<PacketCode> {
        if b == 1 { Some(PacketCode::AccessRequest) }
        else if b == 2 { Some(PacketCode::AccessAccept) }
        else if b == 3 { Some(PacketCode::AccessReject) }
        else if b == 4 { Some(PacketCode::AccountingRequest) }
        else if b == 5 { Some(PacketCode::AccountingResponse) }
        else if b == 11 { Some(PacketCode::AccessChallenge) }
        else if b == 12 { Some(PacketCode::StatusServer) }
        else if b == 13 { Some(PacketCode::StatusClient) }
        else if b == 40 { Some(PacketCode::DisconnectRequest) }
        else if b == 41 { Some(PacketCode::DisconnectAck) }
        else if b == 42 { Some(PacketCode::DisconnectNak) }
        else if b == 43 { Some(PacketCode::CoaRequest) }
        else if b == 44 { Some(PacketCode::CoaAck) }
        else if b == 45 { Some(PacketCode::CoaNak) }
        else { None }
    }

    /// Convert a wire byte to a packet code.
    pub fn from_u8(code: u8) -> (r: Option<PacketCode>)
        ensures
            r == PacketCode::spec_from_byte(code),
    {
        match code {
            1 => Some(PacketCode::AccessRequest),
            2 => Some(PacketCode::AccessAccept),
            3 => Some(PacketCode::AccessReject),
            4 => Some(PacketCode::AccountingRequest),
            5 => Some(PacketCode::AccountingResponse),
            11 => Some(PacketCode::AccessChallenge),
            12 => Some(PacketCode::StatusServer),
            13 => Some(PacketCode::StatusClient),
            40 => Some(PacketCode::DisconnectRequest),
            41 => Some(PacketCode::DisconnectAck),
            42 => Some(PacketCode::DisconnectNak),
            43 => Some(PacketCode::CoaRequest),
            44 => Some(PacketCode::CoaAck),
            45 => Some(PacketCode::CoaNak),
            _ => None,
        }
    }

    /// The wire value of this code.
    pub fn to_u8(self) -> (r: u8)
        ensures
            r == self.spec_byte(),
            PacketCode::spec_from_byte(r) == Some(self),
    {
        match self {
            PacketCode::AccessRequest => 1,
            PacketCode::AccessAccept => 2,
            PacketCode::AccessReject => 3,
            PacketCode::AccountingRequest => 4,
            PacketCode::AccountingResponse => 5,
            PacketCode::AccessChallenge => 11,
            PacketCode::StatusServer => 12,
            PacketCode::StatusClient => 13,
            PacketCode::DisconnectRequest => 40,
            PacketCode::DisconnectAck => 41,
            PacketCode::DisconnectNak => 42,
            PacketCode::CoaRequest => 43,
            PacketCode::CoaAck => 44,
            PacketCode::CoaNak => 45,
        }
    }
}

/// A RADIUS attribute: a tagged value that carries its own name.
#[derive(Debug, PartialEq)]
pub enum Attribute {
    /// Text attribute (name, value)
    String(String, String),
    /// 32-bit signed integer attribute (name, value)
    Integer(String, i32),
    /// IPv4 address attribute (name, octets)
    IpAddr(String, [u8; 4]),
    /// Opaque binary attribute (name, bytes)
    Binary(String, Vec<u8>),
    /// IPv6 address attribute (name, octets)
    Ipv6Addr(String, [u8; 16]),
    /// IPv6 prefix attribute (name, address octets, prefix length)
    Ipv6Prefix(String, [u8; 16], u8),
    /// Vendor-Specific attribute (vendor id, nested attributes)
    VendorSpecific(u32, Vec<Attribute>),
}

/// The mathematical value of an [`Attribute`].
pub enum AttributeView {
    String(Seq<char>, Seq<char>),
    Integer(Seq<char>, i32),
    IpAddr(Seq<char>, Seq<u8>),
    Binary(Seq<char>, Seq<u8>),
    Ipv6Addr(Seq<char>, Seq<u8>),
    Ipv6Prefix(Seq<char>, Seq<u8>, u8),
    VendorSpecific(u32, Seq<AttributeView>),
}

/// The name under which every Vendor-Specific attribute is stored.
pub open spec fn vendor_specific_name() -> Seq<char> {
    "Vendor-Specific"@
}

impl AttributeView {
    /// The attribute's name.
    pub open spec fn name(self) -> Seq<char> {
        match self {
            AttributeView::String(n, _) => n,
            AttributeView::Integer(n, _) => n,
            AttributeView::IpAddr(n, _) => n,
            AttributeView::Binary(n, _) => n,
            AttributeView::Ipv6Addr(n, _) => n,
            AttributeView::Ipv6Prefix(n, _, _) => n,
            AttributeView::VendorSpecific(_, _) => vendor_specific_name(),
        }
    }
}

/// The view of an attribute, nested attributes included.
pub open spec fn attr_view(a: Attribute) -> AttributeView
    decreases a,
{
    match a {
        Attribute::String(n, v) => AttributeView::String(n@, v@),
        Attribute::Integer(n, v) => AttributeView::Integer(n@, v),
        Attribute::IpAddr(n, o) => AttributeView::IpAddr(n@, o@),
        Attribute::Binary(n, b) => AttributeView::Binary(n@, b@),
        Attribute::Ipv6Addr(n, o) => AttributeView::Ipv6Addr(n@, o@),
        Attribute::Ipv6Prefix(n, o, l) => AttributeView::Ipv6Prefix(n@, o@, l),
        Attribute::VendorSpecific(id, v) => AttributeView::VendorSpecific(
            id,
            Seq::new(
                v.len() as nat,
                |i: int|
                    if 0 <= i < v.len() {
                        attr_view(v[i])
                    } else {
                        AttributeView::Integer(Seq::empty(), 0)
                    },
            ),
        ),
    }
}

impl View for Attribute {
    type V = AttributeView;

    open spec fn view(&self) -> AttributeView {
        attr_view(*self)
    }
}

/// The views of a list of attributes.
pub open spec fn attrs_view(v: Seq<Attribute>) -> Seq<AttributeView> {
    v.map_values(|a: Attribute| attr_view(a))
}

/// Compare two strings by value.
pub fn str_eq(a: &str, b: &str) -> (r: bool)
    ensures
        r == (a@ == b@),
{
    let x = a.as_bytes();
    let y = b.as_bytes();
    proof {
        encode_utf8_decode_utf8(a@);
        encode_utf8_decode_utf8(b@);
    }
    assert(x@ == encode_utf8(a@));
    assert(y@ == encode_utf8(b@));
    if x.len() != y.len() {
        return false;
    }
    let mut i: usize = 0;
    while i < x.len()
        invariant
            x@ == encode_utf8(a@),
            y@ == encode_utf8(b@),
            x@.len() == y@.len(),
            i <= x@.len(),
            forall|j: int| 0 <= j < i ==> x@[j] == y@[j],
        decreases x@.len() - i,
    {
        if x[i] != y[i] {
            assert(x@[i as int] != y@[i as int]);
            return false;
        }
        i = i + 1;
    }
    assert(x@ =~= y@);
    true
}

impl Attribute {
    /// The attribute's name.
    pub fn name(&self) -> (r: &str)
        ensures
            r@ == self@.name(),
    {
        match self {
            Attribute::String(n, _) => n.as_str(),
            Attribute::Integer(n, _) => n.as_str(),
            Attribute::IpAddr(n, _) => n.as_str(),
            Attribute::Binary(n, _) => n.as_str(),
            Attribute::Ipv6Addr(n, _) => n.as_str(),
            Attribute::Ipv6Prefix(n, _, _) => n.as_str(),
            Attribute::VendorSpecific(_, _) => "Vendor-Specific",
        }
    }

    /// A copy of the attribute, nested attributes included.
    pub fn duplicate(&self) -> (r: Attribute)
        ensures
            r@ == self@,
        decreases self,
    {
        match self {
            Attribute::String(n, v) => Attribute::String(n.clone(), v.clone()),
            Attribute::Integer(n, v) => Attribute::Integer(n.clone(), *v),
            Attribute::IpAddr(n, o) => Attribute::IpAddr(n.clone(), *o),
            Attribute::Binary(n, b) => {
                let c = vstd::slice::slice_to_vec(b.as_slice());
                Attribute::Binary(n.clone(), c)
            },
            Attribute::Ipv6Addr(n, o) => Attribute::Ipv6Addr(n.clone(), *o),
            Attribute::Ipv6Prefix(n, o, l) => Attribute::Ipv6Prefix(n.clone(), *o, *l),
            Attribute::VendorSpecific(id, v) => {
                let mut out: Vec<Attribute> = Vec::new();
                let mut i: usize = 0;
                while i < v.len()
                    invariant
                        *self == Attribute::VendorSpecific(*id, *v),
                        i <= v.len(),
                        out@.len() == i,
                        forall|j: int| 0 <= j < i ==> attr_view(#[trigger] out@[j]) == attr_view(v@[j]),
                    decreases v.len() - i,
                {
                    proof {
                        vstd::std_specs::vec::axiom_vec_index_decreases(self->VendorSpecific_1, i as int);
                        assert(decreases_to!(self => self->VendorSpecific_1));
                    }
                    out.push(v[i].duplicate());
                    i = i + 1;
                }
                let r = Attribute::VendorSpecific(*id, out);
                assert(attr_view(r)->VendorSpecific_1 =~= attr_view(*self)->VendorSpecific_1);
                r
            },
        }
    }
}

impl Clone for Attribute {
    fn clone(&self) -> (r: Attribute)
        ensures
            r@ == self@,
    {
        self.duplicate()
    }
}

/// Copy a list of attributes.
pub fn duplicate_attributes(v: &Vec<Attribute>) -> (r: Vec<Attribute>)
    ensures
        attrs_view(r@) == attrs_view(v@),
{
    let mut out: Vec<Attribute> = Vec::new();
    let mut i: usize = 0;
    while i < v.len()
        invariant
            i <= v.len(),
            out@.len() == i,
            forall|j: int| 0 <= j < i ==> attr_view(#[trigger] out@[j]) == attr_view(v@[j]),
        decreases v.len() - i,
    {
        out.push(v[i].duplicate());
        i = i + 1;
    }
    assert(attrs_view(out@) =~= attrs_view(v@));
    out
}

/// A transport address: an IPv4 or IPv6 address and a UDP port.
#[derive(Debug, Clone, Copy, PartialEq, Eq)]
pub enum SocketAddress {
    V4([u8; 4], u16),
    V6([u8; 16], u16),
}

/// The names of a list of attributes are pairwise distinct.
pub open spec fn names_unique(s: Seq<AttributeView>) -> bool {
    forall|i: int, j: int| 0 <= i < j < s.len() ==> s[i].name() != s[j].name()
}

/// The attribute named `n` in `s`, if there is one.
pub open spec fn lookup(s: Seq<AttributeView>, n: Seq<char>) -> Option<AttributeView> {
    if exists|i: int| 0 <= i < s.len() && s[i].name() == n {
        Some(s[choose|i: int| 0 <= i < s.len() && s[i].name() == n])
    } else {
        None
    }
}

/// Add `a` to `s`: it replaces the attribute of the same name, or is appended.
pub open spec fn insert_attr(s: Seq<AttributeView>, a: AttributeView) -> Seq<AttributeView> {
    if exists|i: int| 0 <= i < s.len() && s[i].name() == a.name() {
        s.update(choose|i: int| 0 <= i < s.len() && s[i].name() == a.name(), a)
    } else {
        s.push(a)
    }
}

/// Adding an attribute keeps the names pairwise distinct, and the new
/// attribute is what a lookup of its name finds.
pub proof fn lemma_insert_attr(s: Seq<AttributeView>, a: AttributeView)
    requires
        names_unique(s),
    ensures
        names_unique(insert_attr(s, a)),
        lookup(insert_attr(s, a), a.name()) == Some(a),
        forall|n: Seq<char>| n != a.name() ==> lookup(insert_attr(s, a), n) == lookup(s, n),
{
    let r = insert_attr(s, a);
    if exists|i: int| 0 <= i < s.len() && s[i].name() == a.name() {
        let k = choose|i: int| 0 <= i < s.len() && s[i].name() == a.name();
        assert(r[k].name() == a.name());
        assert forall|n: Seq<char>| n != a.name() implies lookup(r, n) == lookup(s, n) by {
            if exists|i: int| 0 <= i < s.len() && s[i].name() == n {
                let j = choose|i: int| 0 <= i < s.len() && s[i].name() == n;
                assert(r[j].name() == n);
            }
            if exists|i: int| 0 <= i < r.len() && r[i].name() == n {
                let j = choose|i: int| 0 <= i < r.len() && r[i].name() == n;
                assert(s[j].name() == n);
            }
        }
    } else {
        assert(r[s.len() as int].name() == a.name());
        assert forall|n: Seq<char>| n != a.name() implies lookup(r, n) == lookup(s, n) by {
            if exists|i: int| 0 <= i < s.len() && s[i].name() == n {
                let j = choose|i: int| 0 <= i < s.len() && s[i].name() == n;
                assert(r[j].name() == n);
            }
            if exists|i: int| 0 <= i < r.len() && r[i].name() == n {
                let j = choose|i: int| 0 <= i < r.len() && r[i].name() == n;
                assert(s[j].name() == n);
            }
        }
    }
}

/// The mathematical value of a [`Packet`].
pub struct PacketView {
    pub code: PacketCode,
    pub identifier: u8,
    pub authenticator: Seq<u8>,
    pub attributes: Seq<AttributeView>,
    pub source: Option<SocketAddress>,
}

/// A RADIUS packet: header fields and a set of attributes keyed by name.
#[derive(Debug, Clone)]
pub struct Packet {
    code: PacketCode,
    identifier: u8,
    authenticator: [u8; 16],
    attributes: Vec<Attribute>,
    source: Option<SocketAddress>,
}

impl View for Packet {
    type V = PacketView;

    closed spec fn view(&self) -> PacketView {
        PacketView {
            code: self.code,
            identifier: self.identifier,
            authenticator: self.authenticator@,
            attributes: attrs_view(self.attributes@),
            source: self.source,
        }
    }
}

impl Packet {
    /// Access-Request packet code
    pub const ACCESS_REQUEST: PacketCode = PacketCode::AccessRequest;

    /// Access-Accept packet code
    pub const ACCESS_ACCEPT: PacketCode = PacketCode::AccessAccept;

    /// Access-Reject packet code
    pub const ACCESS_REJECT: PacketCode = PacketCode::AccessReject;

    /// Access-Challenge packet code
    pub const ACCESS_CHALLENGE: PacketCode = PacketCode::AccessChallenge;

    /// The packet's attribute names are pairwise distinct.
    pub open spec fn wf(&self) -> bool {
        names_unique(self@.attributes)
    }

    /// A packet with no attributes and no source address.
    pub fn new(code: PacketCode, identifier: u8, authenticator: [u8; 16]) -> (r: Packet)
        ensures
            r.wf(),
            r@ == (PacketView {
                code,
                identifier,
                authenticator: authenticator@,
                attributes: Seq::empty(),
                source: None,
            }),
    {
        let r = Packet { code, identifier, authenticator, attributes: Vec::new(), source: None };
        assert(r@.attributes =~= Seq::empty());
        r
    }

    /// A response to this packet: the given code, this packet's identifier,
    /// authenticator and source, and no attributes.
    pub fn create_response(&self, code: PacketCode) -> (r: Packet)
        ensures
            r.wf(),
            r@ == (PacketView {
                code,
                identifier: self@.identifier,
                authenticator: self@.authenticator,
                attributes: Seq::empty(),
                source: self@.source,
            }),
    {
        let r = Packet {
            code,
            identifier: self.identifier,
            authenticator: self.authenticator,
            attributes: Vec::new(),
            source: self.source,
        };
        assert(r@.attributes =~= Seq::empty());
        r
    }

    /// Add an attribute; it replaces any attribute of the same name.
    pub fn add_attribute(&mut self, attribute: Attribute)
        requires
            old(self).wf(),
        ensures
            final(self).wf(),
            final(self)@ == (PacketView {
                attributes: insert_attr(old(self)@.attributes, attribute@),
                ..old(self)@
            }),
    {
        let ghost s = self@.attributes;
        proof { lemma_insert_attr(s, attribute@); }
        let mut i: usize = 0;
        let mut found = false;
        while i < self.attributes.len()
            invariant
                i <= self.attributes@.len(),
                self@.attributes == s,
                names_unique(s),
                forall|j: int| 0 <= j < i ==> s[j].name() != attribute@.name(),
                found ==> i < s.len() && s[i as int].name() == attribute@.name(),
            ensures
                i <= s.len(),
                forall|j: int| 0 <= j < i ==> s[j].name() != attribute@.name(),
                found ==> i < s.len() && s[i as int].name() == attribute@.name(),
                !found ==> i == s.len(),
            decreases self.attributes@.len() - i + (if found { 0int } else { 1 }),
        {
            assert(s[i as int] == self.attributes@[i as int]@);
            if str_eq(self.attributes[i].name(), attribute.name()) {
                found = true;
                break;
            }
            i = i + 1;
        }
        if found {
            proof {
                let k = choose|k: int| 0 <= k < s.len() && s[k].name() == attribute@.name();
                assert(k == i);
            }
            let ghost a = attribute@;
            self.attributes.set(i, attribute);
            assert(self@.attributes =~= s.update(i as int, a));
        } else {
            let ghost a = attribute@;
            self.attributes.push(attribute);
            assert(!(exists|k: int| 0 <= k < s.len() && s[k].name() == a.name()));
            assert(self@.attributes =~= s.push(a));
        }
    }

    /// The attribute called `name`, if present.
    pub fn get_attribute(&self, name: &str) -> (r: Option<&Attribute>)
        requires
            self.wf(),
        ensures
            r matches Some(a) ==> lookup(self@.attributes, name@) == Some(a@),
            r is None ==> lookup(self@.attributes, name@) is None,
    {
        let ghost s = self@.attributes;
        let mut i: usize = 0;
        while i < self.attributes.len()
            invariant
                i <= self.attributes@.len(),
                self@.attributes == s,
                names_unique(s),
                forall|j: int| 0 <= j < i ==> s[j].name() != name@,
            decreases self.attributes@.len() - i,
        {
            assert(s[i as int] == self.attributes@[i as int]@);
            if str_eq(self.attributes[i].name(), name) {
                proof {
                    let k = choose|k: int| 0 <= k < s.len() && s[k].name() == name@;
                    assert(k == i);
                }
                return Some(&self.attributes[i]);
            }
            i = i + 1;
        }
        None
    }

    /// The packet code.
    pub fn code(&self) -> (r: PacketCode)
        ensures
            r == self@.code,
    {
        self.code
    }

    /// The packet identifier.
    pub fn identifier(&self) -> (r: u8)
        ensures
            r == self@.identifier,
    {
        self.identifier
    }

    /// The packet authenticator.
    pub fn authenticator(&self) -> (r: &[u8; 16])
        ensures
            r@ == self@.authenticator,
    {
        &self.authenticator
    }

    /// The address the packet came from.
    pub fn source(&self) -> (r: Option<SocketAddress>)
        ensures
            r == self@.source,
    {
        self.source
    }

    /// Record the address the packet came from.
    pub fn set_source(&mut self, addr: SocketAddress)
        ensures
            final(self)@ == (PacketView { source: Some(addr), ..old(self)@ }),
    {
        self.source = Some(addr);
    }

    /// A copy of the packet.
    pub fn duplicate(&self) -> (r: Packet)
        ensures
            r@ == self@,
    {
        Packet {
            code: self.code,
            identifier: self.identifier,
            authenticator: self.authenticator,
            attributes: duplicate_attributes(&self.attributes),
            source: self.source,
        }
    }

    /// The attributes, in the order they were first added.
    pub fn attributes(&self) -> (r: &Vec<Attribute>)
        ensures
            attrs_view(r@) == self@.attributes,
    {
        &self.attributes
    }
}


/// `s` with each attribute of `extra` added in turn.
pub open spec fn with_attributes(s: Seq<AttributeView>, extra: Seq<AttributeView>) -> Seq<AttributeView>
    decreases extra.len(),
{
    if extra.len() == 0 {
        s
    } else {
        with_attributes(insert_attr(s, extra[0]), extra.drop_first())
    }
}

impl Packet {
    /// Add each attribute of `attributes` in turn.
    pub fn add_attributes(&mut self, attributes: Vec<Attribute>)
        requires
            old(self).wf(),
        ensures
            final(self).wf(),
            final(self)@ == (PacketView {
                attributes: with_attributes(old(self)@.attributes, attrs_view(attributes@)),
                ..old(self)@
            }),
    {
        let ghost target = with_attributes(self@.attributes, attrs_view(attributes@));
        let mut rest = attributes;
        while rest.len() > 0
            invariant
                self.wf(),
                self@ == (PacketView { attributes: self@.attributes, ..old(self)@ }),
                with_attributes(self@.attributes, attrs_view(rest@)) == target,
            decreases rest@.len(),
        {
            let ghost before = attrs_view(rest@);
            let a = rest.remove(0);
            assert(attrs_view(rest@) =~= before.drop_first());
            self.add_attribute(a);
        }
        assert(attrs_view(rest@) =~= Seq::<AttributeView>::empty());
    }
}

} // verus!
