//! The RADIUS wire codec: decoding datagrams into packets and encoding
//! packets into datagrams (RFC 2865, 2869).
use vstd::prelude::*;
use vstd::utf8::*;
use bytes::BytesMut;
use hmac::{Hmac, Mac};
use md5::Md5;
use crate::config::SecurityConfig;
use crate::dictionary::{
    attribute_code, attribute_kind, attribute_name, dict_code, dict_kind, dict_name, lemma_first_code_from,
    lemma_message_authenticator_code, ValueKind,
};
use crate::protocol::{
    attrs_view, insert_attr, lemma_insert_attr, lookup, names_unique, Attribute, AttributeView, Packet, PacketCode,
    PacketView, SocketAddress,
};

verus! {

/// Size of the fixed packet header in bytes.
pub const HEADER_SIZE: usize = 20;

/// Largest packet this codec produces or accepts for encoding.
pub const MAX_PACKET_SIZE: usize = 4096;

/// Largest value a one-byte attribute length field can hold.
pub const MAX_ATTRIBUTE_LENGTH: usize = 255;

/// Wire type of the Vendor-Specific attribute.
pub const VENDOR_SPECIFIC_TYPE: u8 = 26;

/// What is structurally wrong with a datagram.
#[derive(Debug, Clone, Copy, PartialEq, Eq, Structural)]
pub enum MalformedKind {
    /// Fewer bytes than the fixed header.
    TooShort,
    /// The code byte names no known packet type.
    UnknownCode,
    /// The declared length is larger than the datagram.
    LengthExceedsBuffer,
    /// The declared length is smaller than the header.
    LengthTooShort,
    /// Fewer than two bytes are left for an attribute header.
    IncompleteAttribute,
    /// An attribute declares a length below two.
    InvalidAttributeLength,
    /// An attribute extends past the attribute region.
    AttributeOverflow,
    /// A Vendor-Specific value holds fewer than four bytes.
    VendorTooShort,
}

/// A failed security policy check.
#[derive(Debug, Clone, Copy, PartialEq, Eq, Structural)]
pub enum PolicyKind {
    /// An Access-Request without Message-Authenticator where one is required.
    MissingMessageAuthenticator,
}

/// Why a datagram could not be decoded or a packet could not be encoded.
#[derive(Debug, Clone, Copy, PartialEq, Eq, Structural)]
pub enum ProtocolError {
    /// Structurally invalid bytes.
    Malformed(MalformedKind),
    /// Well formed, but a required security check failed.
    PolicyViolation(PolicyKind),
    /// An attribute name has no dictionary entry.
    UnknownAttribute,
    /// The encoded packet would exceed the maximum packet size.
    SizeExceeded,
    /// An attribute does not fit its one-byte length field.
    AttributeTooLong,
}

// ---------------------------------------------------------------------------
// Numbers and text on the wire

/// Two bytes, most significant first.
pub open spec fn be16(n: nat) -> Seq<u8> {
    seq![((n / 256) % 256) as u8, (n % 256) as u8]
}

/// Four bytes, most significant first.
pub open spec fn be32(n: nat) -> Seq<u8> {
    seq![
        ((n / 16777216) % 256) as u8,
        ((n / 65536) % 256) as u8,
        ((n / 256) % 256) as u8,
        (n % 256) as u8,
    ]
}

/// The number that four bytes spell, most significant first.
pub open spec fn be32_value(b: Seq<u8>) -> nat {
    (b[0] as nat) * 16777216 + (b[1] as nat) * 65536 + (b[2] as nat) * 256 + (b[3] as nat)
}

/// The two's complement bit pattern of `x` as an unsigned number.
pub open spec fn i32_bits(x: i32) -> nat {
    if x < 0 {
        (x + 4294967296) as nat
    } else {
        x as nat
    }
}

/// The decimal digit `d`.
pub open spec fn digit_char(d: nat) -> char {
    if d == 0 { '0' }
    else if d == 1 { '1' }
    else if d == 2 { '2' }
    else if d == 3 { '3' }
    else if d == 4 { '4' }
    else if d == 5 { '5' }
    else if d == 6 { '6' }
    else if d == 7 { '7' }
    else if d == 8 { '8' }
    else { '9' }
}

/// `n` written in decimal.
pub open spec fn decimal_text(n: nat) -> Seq<char>
    decreases n,
{
    if n < 10 {
        seq![digit_char(n)]
    } else {
        decimal_text(n / 10).push(digit_char(n % 10))
    }
}

/// The name given to an attribute whose type is not in the dictionary.
pub open spec fn unknown_name(code: u8) -> Seq<char> {
    "Unknown-"@ + decimal_text(code as nat)
}

/// What `String::from_utf8_lossy` makes of `b`.
pub uninterp spec fn lossy_utf8(b: Seq<u8>) -> Seq<char>;

/// The text that bytes `b` spell: their UTF-8 decoding where they are
/// valid UTF-8, and the lossy decoding otherwise.
pub open spec fn utf8_text(b: Seq<u8>) -> Seq<char> {
    if valid_utf8(b) {
        decode_utf8(b)
    } else {
        lossy_utf8(b)
    }
}

/// Relies on `String::from_utf8_lossy`: valid UTF-8 comes back unchanged,
/// other input is decoded with replacement characters.
#[verifier::external_body]
fn text_from_bytes(b: &[u8]) -> (r: String)
    ensures
        !valid_utf8(b@) ==> r@ == lossy_utf8(b@),
        valid_utf8(b@) ==> r@ == decode_utf8(b@),
{
    String::from_utf8_lossy(b).into_owned()
}

/// The decimal digit `d` as text.
fn digit_text(d: u8) -> (r: &'static str)
    requires
        d < 10,
    ensures
        r@ == seq![digit_char(d as nat)],
{
    proof {
        reveal_strlit("0");
        reveal_strlit("1");
        reveal_strlit("2");
        reveal_strlit("3");
        reveal_strlit("4");
        reveal_strlit("5");
        reveal_strlit("6");
        reveal_strlit("7");
        reveal_strlit("8");
        reveal_strlit("9");
    }
    if d == 0 { "0" }
    else if d == 1 { "1" }
    else if d == 2 { "2" }
    else if d == 3 { "3" }
    else if d == 4 { "4" }
    else if d == 5 { "5" }
    else if d == 6 { "6" }
    else if d == 7 { "7" }
    else if d == 8 { "8" }
    else { "9" }
}

/// `n` written in decimal.
fn decimal_string(n: u8) -> (r: String)
    ensures
        r@ == decimal_text(n as nat),
{
    if n < 10 {
        return digit_text(n).to_owned();
    }
    let tens = join_text(digit_text(n / 10 % 10), digit_text(n % 10));
    if n < 100 {
        proof {
            assert(decimal_text((n / 10) as nat) == seq![digit_char((n / 10) as nat)]);
            assert(decimal_text(n as nat) =~= seq![digit_char((n / 10) as nat)] + seq![digit_char((n % 10) as nat)]);
        }
        return tens;
    }
    proof {
        let q = (n / 10) as nat;
        assert(decimal_text(q / 10) == seq![digit_char(q / 10)]);
        assert(decimal_text(q) =~= seq![digit_char(q / 10)] + seq![digit_char(q % 10)]);
        assert(decimal_text(n as nat) =~= seq![digit_char(q / 10)] + (seq![digit_char(q % 10)] + seq![digit_char((n % 10) as nat)]));
    }
    join_text(digit_text(n / 100), tens.as_str())
}

/// The two texts one after the other.
pub(crate) fn join_text(a: &str, b: &str) -> (r: String)
    ensures
        r@ == a@ + b@,
{
    a.to_owned().concat(b)
}

/// The HMAC-MD5 tag of `message` under `key` (RFC 2104).
pub uninterp spec fn hmac_md5_of(key: Seq<u8>, message: Seq<u8>) -> Seq<u8>;

/// Relies on hmac's `Hmac<Md5>`: `new_from_slice` accepts a key of any
/// length, and the finalized tag is the sixteen-byte HMAC-MD5 of the
/// message.
#[verifier::external_body]
fn hmac_md5(key: &[u8], message: &[u8]) -> (r: Vec<u8>)
    ensures
        r@ == hmac_md5_of(key@, message@),
        r@.len() == 16,
{
    match Hmac::<Md5>::new_from_slice(key) {
        Ok(mut mac) => {
            mac.update(message);
            mac.finalize().into_bytes().to_vec()
        },
        Err(_) => Vec::new(),
    }
}

// ---------------------------------------------------------------------------
// The output buffer

#[verifier::external_type_specification]
#[verifier::external_body]
pub struct ExBytesMut(BytesMut);

/// The bytes a `BytesMut` holds.
pub uninterp spec fn buffer_contents(b: BytesMut) -> Seq<u8>;

/// Relies on `BytesMut::with_capacity`: the new buffer holds no bytes.
#[verifier::external_body]
fn new_buffer(capacity: usize) -> (r: BytesMut)
    requires
        capacity <= MAX_PACKET_SIZE,
    ensures
        buffer_contents(r) == Seq::<u8>::empty(),
{
    BytesMut::with_capacity(capacity)
}

/// Relies on `BytesMut::extend_from_slice`: the bytes are appended.
#[verifier::external_body]
fn append_bytes(buf: &mut BytesMut, bytes: &[u8])
    requires
        buffer_contents(*old(buf)).len() + bytes@.len() <= isize::MAX,
    ensures
        buffer_contents(*final(buf)) == buffer_contents(*old(buf)) + bytes@,
{
    buf.extend_from_slice(bytes)
}

/// Relies on `<[u8]>::to_vec` through `BytesMut`'s `Deref`: a copy of the bytes.
#[verifier::external_body]
fn buffer_to_vec(buf: &BytesMut) -> (r: Vec<u8>)
    ensures
        r@ == buffer_contents(*buf),
{
    buf.to_vec()
}

// ---------------------------------------------------------------------------
// Encoding, as mathematics

/// Encoded size of an attribute that is not Vendor-Specific: its header and
/// value (for a Vendor-Specific one: its header and vendor id).
pub open spec fn flat_size(a: AttributeView) -> nat {
    2 + value_bytes(a).len()
}

/// Encoded size of an attribute: a Vendor-Specific attribute adds the
/// sizes of its nested attributes, at every level, to its own six bytes.
pub open spec fn attr_size(a: AttributeView) -> nat
    decreases a,
{
    match a {
        AttributeView::VendorSpecific(_, nested) => 6 + sum_attr(nested),
        _ => flat_size(a),
    }
}

/// Sum of [`attr_size`] over a list.
pub open spec fn sum_attr(s: Seq<AttributeView>) -> nat
    decreases s,
{
    if s.len() == 0 {
        0
    } else {
        sum_attr(s.subrange(0, s.len() - 1)) + attr_size(s[s.len() - 1])
    }
}

/// Encoded size of a packet: the header and every attribute.
pub open spec fn packet_size(p: PacketView) -> nat {
    20 + sum_attr(p.attributes)
}

/// The value bytes of an attribute that is not Vendor-Specific.
pub open spec fn value_bytes(a: AttributeView) -> Seq<u8> {
    match a {
        AttributeView::String(_, v) => encode_utf8(v),
        AttributeView::Integer(_, x) => be32(i32_bits(x)),
        AttributeView::IpAddr(_, o) => o,
        AttributeView::Binary(_, b) => b,
        AttributeView::Ipv6Addr(_, o) => o,
        AttributeView::Ipv6Prefix(_, o, l) => seq![0u8, l] + o,
        AttributeView::VendorSpecific(id, _) => be32(id as nat),
    }
}

/// Prefix the bytes of a successful encoding.
pub open spec fn prepend(w: Seq<u8>, r: Result<Seq<u8>, ProtocolError>) -> Result<Seq<u8>, ProtocolError> {
    match r {
        Ok(b) => Ok(w + b),
        Err(e) => Err(e),
    }
}

/// Encoding of one attribute; a Vendor-Specific attribute carries the
/// encodings of its nested attributes after its vendor id.
pub open spec fn encode_attr(a: AttributeView) -> Result<Seq<u8>, ProtocolError>
    decreases a,
{
    match a {
        AttributeView::VendorSpecific(id, nested) => if attr_size(a) > 255 {
            Err(ProtocolError::AttributeTooLong)
        } else {
            prepend(seq![VENDOR_SPECIFIC_TYPE, attr_size(a) as u8] + be32(id as nat), encode_attrs(nested))
        },
        _ => match dict_code(a.name()) {
            None => Err(ProtocolError::UnknownAttribute),
            Some(c) => if flat_size(a) > 255 {
                Err(ProtocolError::AttributeTooLong)
            } else {
                Ok(seq![c, flat_size(a) as u8] + value_bytes(a))
            },
        },
    }
}

/// Encoding of a list of attributes, in order; the first failure wins.
pub open spec fn encode_attrs(s: Seq<AttributeView>) -> Result<Seq<u8>, ProtocolError>
    decreases s,
{
    if s.len() == 0 {
        Ok(Seq::empty())
    } else {
        match encode_attr(s[0]) {
            Err(e) => Err(e),
            Ok(x) => prepend(x, encode_attrs(s.subrange(1, s.len() as int))),
        }
    }
}

/// The packet header: code, identifier, total length and authenticator.
pub open spec fn header_bytes(p: PacketView) -> Seq<u8> {
    seq![p.code.spec_byte(), p.identifier] + be16(packet_size(p)) + p.authenticator
}

/// The datagram for packet `p`, or why there is none.
pub open spec fn encode_spec(p: PacketView) -> Result<Seq<u8>, ProtocolError> {
    if packet_size(p) > 4096 {
        Err(ProtocolError::SizeExceeded)
    } else {
        prepend(header_bytes(p), encode_attrs(p.attributes))
    }
}


// ---------------------------------------------------------------------------
// Decoding, as mathematics

/// The 32-bit integer whose two's complement bit pattern is `n`.
pub open spec fn i32_of_bits(n: nat) -> i32 {
    if n >= 2147483648 {
        (n - 4294967296) as i32
    } else {
        n as i32
    }
}

/// The name of wire type `t`: its dictionary name, or `Unknown-<t>`.
pub open spec fn wire_type_name(t: u8) -> Seq<char> {
    match dict_name(t) {
        Some(n) => n,
        None => unknown_name(t),
    }
}

/// The attribute that a record of wire type `t` and value `v` decodes to:
/// the variant of the value kind the dictionary gives the type, and opaque
/// bytes where the value does not have that kind's length.
pub open spec fn decoded_attribute(t: u8, v: Seq<u8>) -> Result<AttributeView, ProtocolError> {
    match dict_kind(t) {
        ValueKind::VendorSpecific => if v.len() < 4 {
            Err(ProtocolError::Malformed(MalformedKind::VendorTooShort))
        } else {
            Ok(AttributeView::VendorSpecific(be32_value(v) as u32, Seq::empty()))
        },
        ValueKind::Text => Ok(AttributeView::String(wire_type_name(t), utf8_text(v))),
        ValueKind::Integer => if v.len() == 4 {
            Ok(AttributeView::Integer(wire_type_name(t), i32_of_bits(be32_value(v))))
        } else {
            Ok(AttributeView::Binary(wire_type_name(t), v))
        },
        ValueKind::Address => if v.len() == 4 {
            Ok(AttributeView::IpAddr(wire_type_name(t), v))
        } else {
            Ok(AttributeView::Binary(wire_type_name(t), v))
        },
        ValueKind::Binary => Ok(AttributeView::Binary(wire_type_name(t), v)),
    }
}

/// The attributes of region `region`, each added in turn to `acc`.
pub open spec fn decode_attrs(region: Seq<u8>, acc: Seq<AttributeView>) -> Result<Seq<AttributeView>, ProtocolError>
    decreases region.len(),
{
    if region.len() == 0 {
        Ok(acc)
    } else if region.len() < 2 {
        Err(ProtocolError::Malformed(MalformedKind::IncompleteAttribute))
    } else if (region[1] as int) < 2 {
        Err(ProtocolError::Malformed(MalformedKind::InvalidAttributeLength))
    } else if region[1] as int > region.len() {
        Err(ProtocolError::Malformed(MalformedKind::AttributeOverflow))
    } else {
        match decoded_attribute(region[0], region.subrange(2, region[1] as int)) {
            Err(e) => Err(e),
            Ok(a) => decode_attrs(region.subrange(region[1] as int, region.len() as int), insert_attr(acc, a)),
        }
    }
}

/// The length that the header of `data` declares.
pub open spec fn declared_length(data: Seq<u8>) -> nat {
    (data[2] as nat) * 256 + (data[3] as nat)
}

/// The packet that datagram `data` from `source` decodes to, or why there is none.
pub open spec fn decode_spec(data: Seq<u8>, source: SocketAddress, require_authenticator: bool) -> Result<PacketView, ProtocolError> {
    if data.len() < 20 {
        Err(ProtocolError::Malformed(MalformedKind::TooShort))
    } else {
        match PacketCode::spec_from_byte(data[0]) {
            None => Err(ProtocolError::Malformed(MalformedKind::UnknownCode)),
            Some(code) => if declared_length(data) > data.len() {
                Err(ProtocolError::Malformed(MalformedKind::LengthExceedsBuffer))
            } else if declared_length(data) < 20 {
                Err(ProtocolError::Malformed(MalformedKind::LengthTooShort))
            } else {
                match decode_attrs(data.subrange(20, declared_length(data) as int), Seq::empty()) {
                    Err(e) => Err(e),
                    Ok(attrs) => if require_authenticator && code == PacketCode::AccessRequest
                        && lookup(attrs, "Message-Authenticator"@) is None {
                        Err(ProtocolError::PolicyViolation(PolicyKind::MissingMessageAuthenticator))
                    } else {
                        Ok(PacketView {
                            code,
                            identifier: data[1],
                            authenticator: data.subrange(4, 20),
                            attributes: attrs,
                            source: Some(source),
                        })
                    },
                }
            },
        }
    }
}

// ---------------------------------------------------------------------------
// Facts about sizes and encodings

proof fn lemma_sum_attr_step(s: Seq<AttributeView>, i: int)
    requires
        0 <= i < s.len(),
    ensures
        sum_attr(s.take(i + 1)) == sum_attr(s.take(i)) + attr_size(s[i]),
{
    assert(s.take(i + 1).drop_last() =~= s.take(i));
}

proof fn lemma_sum_attr_take(s: Seq<AttributeView>, i: int)
    requires
        0 <= i <= s.len(),
    ensures
        sum_attr(s.take(i)) <= sum_attr(s),
    decreases s.len(),
{
    if i == s.len() {
        assert(s.take(i) =~= s);
    } else {
        lemma_sum_attr_take(s.drop_last(), i);
        assert(s.drop_last().take(i) =~= s.take(i));
    }
}

proof fn lemma_sum_attr_first(s: Seq<AttributeView>)
    requires
        s.len() > 0,
    ensures
        sum_attr(s) == attr_size(s[0]) + sum_attr(s.drop_first()),
    decreases s.len(),
{
    if s.len() > 1 {
        lemma_sum_attr_first(s.drop_last());
        assert(s.drop_last().drop_first() =~= s.drop_first().drop_last());
        assert(s.drop_last()[0] == s[0]);
        assert(s.drop_first().last() == s.last());
    } else {
        assert(s.drop_first() =~= Seq::<AttributeView>::empty());
        assert(s.drop_last() =~= Seq::<AttributeView>::empty());
    }
}

proof fn lemma_prepend_empty(r: Result<Seq<u8>, ProtocolError>)
    ensures
        prepend(Seq::empty(), r) == r,
{
    if let Ok(b) = r {
        assert(Seq::<u8>::empty() + b =~= b);
    }
}

proof fn lemma_prepend_prepend(w: Seq<u8>, x: Seq<u8>, r: Result<Seq<u8>, ProtocolError>)
    ensures
        prepend(w, prepend(x, r)) == prepend(w + x, r),
{
    if let Ok(b) = r {
        assert(w + (x + b) =~= (w + x) + b);
    }
}

/// A successful encoding of an attribute is as long as its size says.
proof fn lemma_encode_attr_len(a: AttributeView)
    ensures
        encode_attr(a) matches Ok(b) ==> b.len() == attr_size(a),
    decreases a,
{
    if let AttributeView::VendorSpecific(_, nested) = a {
        lemma_encode_attrs_len(nested);
    }
}

/// A successful encoding of attributes is as long as their sizes say.
proof fn lemma_encode_attrs_len(s: Seq<AttributeView>)
    ensures
        encode_attrs(s) matches Ok(b) ==> b.len() == sum_attr(s),
    decreases s,
{
    if s.len() > 0 {
        lemma_encode_attrs_len(s.subrange(1, s.len() as int));
        lemma_encode_attr_len(s[0]);
        lemma_sum_attr_first(s);
        assert(s.drop_first() == s.subrange(1, s.len() as int));
    }
}

// ---------------------------------------------------------------------------
// The codec

/// Sixteen zero bytes.
pub open spec fn zero_authenticator() -> Seq<u8> {
    Seq::new(16, |i: int| 0u8)
}

/// The bytes a Message-Authenticator covers: the packet's datagram with the
/// Message-Authenticator attribute's value zero-filled.
pub open spec fn authenticator_message(p: PacketView) -> Result<Seq<u8>, ProtocolError> {
    encode_spec(PacketView {
        attributes: insert_attr(p.attributes, AttributeView::Binary("Message-Authenticator"@, zero_authenticator())),
        ..p
    })
}

/// Decodes datagrams into packets and encodes packets into datagrams.
pub struct PacketProcessor {
    require_message_authenticator: bool,
}

impl PacketProcessor {
    /// Whether decoding demands a Message-Authenticator on Access-Requests.
    pub closed spec fn requires_authenticator(&self) -> bool {
        self.require_message_authenticator
    }

    /// A codec with the Message-Authenticator policy of `security`.
    pub fn new(security: &SecurityConfig) -> (r: PacketProcessor)
        ensures
            r.requires_authenticator() == security.require_message_authenticator,
    {
        PacketProcessor { require_message_authenticator: security.require_message_authenticator }
    }

    /// Encoded size of an attribute that is not Vendor-Specific (for a
    /// Vendor-Specific one: its header and vendor id); `None` where it does
    /// not fit a `usize`.
    fn flat_size_checked(a: &Attribute) -> (r: Option<usize>)
        ensures
            r matches Some(n) ==> n as nat == flat_size(a@),
            r is None ==> flat_size(a@) > usize::MAX,
    {
        proof { broadcast use vstd::array::group_array_axioms; }
        match a {
            Attribute::String(_, v) => {
                let n = v.as_str().as_bytes().len();
                if n > usize::MAX - 2 { None } else { Some(n + 2) }
            },
            Attribute::Integer(_, _) => Some(6),
            Attribute::IpAddr(_, _) => Some(6),
            Attribute::Binary(_, b) => {
                let n = b.len();
                if n > usize::MAX - 2 { None } else { Some(n + 2) }
            },
            Attribute::Ipv6Addr(_, _) => Some(18),
            Attribute::Ipv6Prefix(_, _, _) => Some(20),
            Attribute::VendorSpecific(_, _) => Some(6),
        }
    }

    /// Encoded size of an attribute, nested attributes included; `None`
    /// where it does not fit a `usize`.
    fn calculate_attribute_size(&self, attr: &Attribute) -> (r: Option<usize>)
        ensures
            r matches Some(n) ==> n as nat == attr_size(attr@),
            r is None ==> attr_size(attr@) > usize::MAX,
        decreases attr,
    {
        match attr {
            Attribute::VendorSpecific(id, v) => {
                let ghost nested = attr@->VendorSpecific_1;
                let mut total: usize = 6;
                let mut i: usize = 0;
                while i < v.len()
                    invariant
                        *attr == Attribute::VendorSpecific(*id, *v),
                        nested == attr@->VendorSpecific_1,
                        nested.len() == v@.len(),
                        forall|j: int| 0 <= j < v@.len() ==> nested[j] == #[trigger] v@[j]@,
                        i <= v@.len(),
                        total == 6 + sum_attr(nested.take(i as int)),
                    decreases v@.len() - i,
                {
                    proof {
                        vstd::std_specs::vec::axiom_vec_index_decreases(attr->VendorSpecific_1, i as int);
                        assert(decreases_to!(attr => attr->VendorSpecific_1));
                        lemma_sum_attr_step(nested, i as int);
                        lemma_sum_attr_take(nested, i as int + 1);
                    }
                    let fs = match self.calculate_attribute_size(&v[i]) {
                        Some(fs) => fs,
                        None => {
                            return None;
                        },
                    };
                    if fs > usize::MAX - total {
                        return None;
                    }
                    total = total + fs;
                    i = i + 1;
                }
                assert(nested.take(i as int) =~= nested);
                Some(total)
            },
            _ => Self::flat_size_checked(attr),
        }
    }

    /// Append the encoding of an attribute, nested attributes included; on
    /// failure the buffer is left as it was.
    fn encode_attribute(&self, buffer: &mut BytesMut, attr: &Attribute) -> (r: Result<(), ProtocolError>)
        requires
            buffer_contents(*old(buffer)).len() + 255 <= isize::MAX,
        ensures
            r matches Ok(_) ==> encode_attr(attr@) matches Ok(x)
                && buffer_contents(*final(buffer)) == buffer_contents(*old(buffer)) + x,
            r matches Err(e) ==> encode_attr(attr@) == Err::<Seq<u8>, ProtocolError>(e)
                && buffer_contents(*final(buffer)) == buffer_contents(*old(buffer)),
        decreases attr,
    {
        proof { broadcast use vstd::array::group_array_axioms; }
        match attr {
            Attribute::VendorSpecific(id, v) => {
                let ghost nested = attr@->VendorSpecific_1;
                let size = match self.calculate_attribute_size(attr) {
                    Some(n) => n,
                    None => {
                        return Err(ProtocolError::AttributeTooLong);
                    },
                };
                if size > MAX_ATTRIBUTE_LENGTH {
                    return Err(ProtocolError::AttributeTooLong);
                }
                let mut scratch = new_buffer(size);
                let ghost w: Seq<u8> = Seq::empty();
                proof {
                    assert(nested.subrange(0, nested.len() as int) =~= nested);
                    lemma_prepend_empty(encode_attrs(nested));
                }
                let mut i: usize = 0;
                while i < v.len()
                    invariant
                        *attr == Attribute::VendorSpecific(*id, *v),
                        nested == attr@->VendorSpecific_1,
                        nested.len() == v@.len(),
                        forall|j: int| 0 <= j < v@.len() ==> nested[j] == #[trigger] v@[j]@,
                        i <= v@.len(),
                        buffer_contents(scratch) == w,
                        w.len() == sum_attr(nested.take(i as int)),
                        6 + sum_attr(nested) <= 255,
                        attr_size(attr@) == size,
                        encode_attrs(nested) == prepend(w, encode_attrs(nested.subrange(i as int, nested.len() as int))),
                    decreases v@.len() - i,
                {
                    proof {
                        vstd::std_specs::vec::axiom_vec_index_decreases(attr->VendorSpecific_1, i as int);
                        assert(decreases_to!(attr => attr->VendorSpecific_1));
                        lemma_sum_attr_step(nested, i as int);
                        lemma_sum_attr_take(nested, i as int + 1);
                        let rest = nested.subrange(i as int, nested.len() as int);
                        assert(rest.subrange(1, rest.len() as int) =~= nested.subrange(i as int + 1, nested.len() as int));
                        assert(rest[0] == nested[i as int]);
                    }
                    let res = self.encode_attribute(&mut scratch, &v[i]);
                    match res {
                        Err(e) => {
                            return Err(e);
                        },
                        Ok(_) => {},
                    }
                    proof {
                        let x = encode_attr(nested[i as int])->Ok_0;
                        lemma_encode_attr_len(nested[i as int]);
                        lemma_prepend_prepend(w, x, encode_attrs(nested.subrange(i as int + 1, nested.len() as int)));
                        assert(buffer_contents(scratch) =~= w + x);
                        w = w + x;
                    }
                    i = i + 1;
                }
                proof {
                    assert(nested.subrange(i as int, nested.len() as int) =~= Seq::<AttributeView>::empty());
                    assert(encode_attrs(nested) == Ok::<Seq<u8>, ProtocolError>(w));
                    assert(nested.take(i as int) =~= nested);
                }
                let idv = *id;
                let header: [u8; 6] = [
                    VENDOR_SPECIFIC_TYPE,
                    size as u8,
                    ((idv / 16777216) % 256) as u8,
                    ((idv / 65536) % 256) as u8,
                    ((idv / 256) % 256) as u8,
                    (idv % 256) as u8,
                ];
                assert(header@ =~= seq![VENDOR_SPECIFIC_TYPE, size as u8] + be32(idv as nat));
                append_bytes(buffer, &header);
                let body = buffer_to_vec(&scratch);
                append_bytes(buffer, body.as_slice());
                assert(buffer_contents(*buffer) =~= buffer_contents(*old(buffer)) + ((seq![VENDOR_SPECIFIC_TYPE, size as u8] + be32(idv as nat)) + w));
                Ok(())
            },
            _ => {
                let code = match attribute_code(&attr.name().to_owned()) {
                    Some(c) => c,
                    None => return Err(ProtocolError::UnknownAttribute),
                };
                let size = match Self::flat_size_checked(attr) {
                    Some(n) => n,
                    None => {
                        return Err(ProtocolError::AttributeTooLong);
                    },
                };
                if size > MAX_ATTRIBUTE_LENGTH {
                    return Err(ProtocolError::AttributeTooLong);
                }
                let header: [u8; 2] = [code, size as u8];
                assert(header@ =~= seq![code, size as u8]);
                append_bytes(buffer, &header);
                match attr {
                    Attribute::String(_, v) => {
                        append_bytes(buffer, v.as_str().as_bytes());
                    },
                    Attribute::Integer(_, x) => {
                        let u: u64 = if *x < 0 { (*x as i64 + 4294967296i64) as u64 } else { *x as u64 };
                        let b: [u8; 4] = [
                            ((u / 16777216) % 256) as u8,
                            ((u / 65536) % 256) as u8,
                            ((u / 256) % 256) as u8,
                            (u % 256) as u8,
                        ];
                        assert(b@ =~= be32(i32_bits(*x)));
                        append_bytes(buffer, &b);
                    },
                    Attribute::IpAddr(_, o) => {
                        append_bytes(buffer, o);
                    },
                    Attribute::Binary(_, b) => {
                        append_bytes(buffer, b.as_slice());
                    },
                    Attribute::Ipv6Addr(_, o) => {
                        append_bytes(buffer, o);
                    },
                    Attribute::Ipv6Prefix(_, o, l) => {
                        let b: [u8; 2] = [0u8, *l];
                        assert(b@ =~= seq![0u8, *l]);
                        append_bytes(buffer, &b);
                        append_bytes(buffer, o);
                    },
                    Attribute::VendorSpecific(_, _) => {},
                }
                assert(buffer_contents(*buffer) =~= buffer_contents(*old(buffer)) + (seq![code, size as u8] + value_bytes(attr@)));
                Ok(())
            },
        }
    }

    /// The name of wire type `t`.
    fn name_of_type(t: u8) -> (r: String)
        ensures
            r@ == wire_type_name(t),
    {
        match attribute_name(t) {
            Some(n) => n,
            None => {
                let digits = decimal_string(t);
                join_text("Unknown-", digits.as_str())
            },
        }
    }

    /// Decode one attribute record of wire type `t` with value `value`.
    fn decode_attribute(t: u8, value: &[u8]) -> (r: Result<Attribute, ProtocolError>)
        ensures
            r matches Ok(a) ==> decoded_attribute(t, value@) == Ok::<AttributeView, ProtocolError>(a@),
            r matches Err(e) ==> decoded_attribute(t, value@) == Err::<AttributeView, ProtocolError>(e),
    {
        proof { broadcast use vstd::array::group_array_axioms; }
        match attribute_kind(t) {
            ValueKind::VendorSpecific => {
                if value.len() < 4 {
                    return Err(ProtocolError::Malformed(MalformedKind::VendorTooShort));
                }
                let id: u32 = (value[0] as u32) * 16777216 + (value[1] as u32) * 65536
                    + (value[2] as u32) * 256 + (value[3] as u32);
                let a = Attribute::VendorSpecific(id, Vec::new());
                assert(a@->VendorSpecific_1 =~= Seq::<AttributeView>::empty());
                Ok(a)
            },
            ValueKind::Text => Ok(Attribute::String(Self::name_of_type(t), text_from_bytes(value))),
            ValueKind::Integer => {
                if value.len() == 4 {
                    let u: u64 = (value[0] as u64) * 16777216 + (value[1] as u64) * 65536
                        + (value[2] as u64) * 256 + (value[3] as u64);
                    let x: i32 = if u >= 2147483648 { (u as i64 - 4294967296i64) as i32 } else { u as i32 };
                    Ok(Attribute::Integer(Self::name_of_type(t), x))
                } else {
                    Ok(Attribute::Binary(Self::name_of_type(t), vstd::slice::slice_to_vec(value)))
                }
            },
            ValueKind::Address => {
                if value.len() == 4 {
                    let o: [u8; 4] = [value[0], value[1], value[2], value[3]];
                    assert(o@ =~= value@);
                    Ok(Attribute::IpAddr(Self::name_of_type(t), o))
                } else {
                    Ok(Attribute::Binary(Self::name_of_type(t), vstd::slice::slice_to_vec(value)))
                }
            },
            ValueKind::Binary => Ok(Attribute::Binary(Self::name_of_type(t), vstd::slice::slice_to_vec(value))),
        }
    }

    /// Decode the attribute region `data` into `packet`.
    fn parse_attributes(&self, packet: &mut Packet, data: &[u8]) -> (r: Result<(), ProtocolError>)
        requires
            old(packet).wf(),
        ensures
            r matches Ok(_) ==> final(packet).wf()
                && decode_attrs(data@, old(packet)@.attributes) == Ok::<Seq<AttributeView>, ProtocolError>(final(packet)@.attributes)
                && final(packet)@ == (PacketView { attributes: final(packet)@.attributes, ..old(packet)@ }),
            r matches Err(e) ==> decode_attrs(data@, old(packet)@.attributes) == Err::<Seq<AttributeView>, ProtocolError>(e),
    {
        let mut offset: usize = 0;
        proof { assert(data@.subrange(0, data@.len() as int) =~= data@); }
        while offset < data.len()
            invariant
                offset <= data@.len(),
                packet.wf(),
                packet@ == (PacketView { attributes: packet@.attributes, ..old(packet)@ }),
                decode_attrs(data@, old(packet)@.attributes)
                    == decode_attrs(data@.subrange(offset as int, data@.len() as int), packet@.attributes),
            decreases data@.len() - offset,
        {
            let ghost rest = data@.subrange(offset as int, data@.len() as int);
            if data.len() - offset < 2 {
                return Err(ProtocolError::Malformed(MalformedKind::IncompleteAttribute));
            }
            let t = data[offset];
            let l = data[offset + 1] as usize;
            assert(rest[0] == t && rest[1] as usize == l);
            if l < 2 {
                return Err(ProtocolError::Malformed(MalformedKind::InvalidAttributeLength));
            }
            if l > data.len() - offset {
                return Err(ProtocolError::Malformed(MalformedKind::AttributeOverflow));
            }
            let value = &data[offset + 2..offset + l];
            assert(value@ =~= rest.subrange(2, l as int));
            let attr = match Self::decode_attribute(t, value) {
                Ok(a) => a,
                Err(e) => {
                    return Err(e);
                },
            };
            packet.add_attribute(attr);
            offset = offset + l;
            assert(rest.subrange(l as int, rest.len() as int) =~= data@.subrange(offset as int, data@.len() as int));
        }
        Ok(())
    }

    /// Decode a datagram received from `source`.
    pub fn parse(&self, data: &[u8], source: SocketAddress) -> (r: Result<Packet, ProtocolError>)
        ensures
            r matches Ok(p) ==> p.wf() && decode_spec(data@, source, self.requires_authenticator())
                == Ok::<PacketView, ProtocolError>(p@),
            r matches Err(e) ==> decode_spec(data@, source, self.requires_authenticator())
                == Err::<PacketView, ProtocolError>(e),
    {
        if data.len() < HEADER_SIZE {
            return Err(ProtocolError::Malformed(MalformedKind::TooShort));
        }
        let code = match PacketCode::from_u8(data[0]) {
            Some(c) => c,
            None => {
                return Err(ProtocolError::Malformed(MalformedKind::UnknownCode));
            },
        };
        let identifier = data[1];
        let length = (data[2] as usize) * 256 + (data[3] as usize);
        if length > data.len() {
            return Err(ProtocolError::Malformed(MalformedKind::LengthExceedsBuffer));
        }
        if length < HEADER_SIZE {
            return Err(ProtocolError::Malformed(MalformedKind::LengthTooShort));
        }
        let authenticator: [u8; 16] = [
            data[4], data[5], data[6], data[7], data[8], data[9], data[10], data[11],
            data[12], data[13], data[14], data[15], data[16], data[17], data[18], data[19],
        ];
        proof { broadcast use vstd::array::group_array_axioms; }
        assert(authenticator@ =~= data@.subrange(4, 20));
        let mut packet = Packet::new(code, identifier, authenticator);
        packet.set_source(source);
        let region = &data[HEADER_SIZE..length];
        match self.parse_attributes(&mut packet, region) {
            Ok(_) => {},
            Err(e) => {
                return Err(e);
            },
        }
        if self.require_message_authenticator && code == PacketCode::AccessRequest
            && packet.get_attribute("Message-Authenticator").is_none() {
            return Err(ProtocolError::PolicyViolation(PolicyKind::MissingMessageAuthenticator));
        }
        Ok(packet)
    }

    /// The Message-Authenticator of a packet under shared secret `secret`:
    /// the HMAC-MD5, keyed with the secret's bytes, of the packet's datagram
    /// with the Message-Authenticator value zero-filled (RFC 2869). Fails as
    /// encoding that datagram fails.
    pub fn calculate_message_authenticator(&self, packet: &Packet, secret: &str) -> (r: Result<Vec<u8>, ProtocolError>)
        requires
            packet.wf(),
        ensures
            r matches Ok(v) ==> authenticator_message(packet@) matches Ok(m)
                && v@ == hmac_md5_of(encode_utf8(secret@), m),
            r matches Err(e) ==> authenticator_message(packet@) == Err::<Seq<u8>, ProtocolError>(e),
    {
        let mut zeroed = packet.duplicate();
        let zeros = vec![0u8; 16];
        assert(zeros@ =~= zero_authenticator());
        zeroed.add_attribute(Attribute::Binary("Message-Authenticator".to_owned(), zeros));
        match self.encode(&zeroed) {
            Ok(message) => Ok(hmac_md5(secret.as_bytes(), message.as_slice())),
            Err(e) => Err(e),
        }
    }

    /// Whether the packet carries a binary Message-Authenticator equal to
    /// the one computed under `secret`. Every byte is compared, whatever the
    /// first difference.
    pub fn verify_message_authenticator(&self, packet: &Packet, secret: &str) -> (r: bool)
        requires
            packet.wf(),
        ensures
            r == (lookup(packet@.attributes, "Message-Authenticator"@) matches Some(AttributeView::Binary(_, v))
                && authenticator_message(packet@) matches Ok(m)
                && v == hmac_md5_of(encode_utf8(secret@), m)),
    {
        let carried = match packet.get_attribute("Message-Authenticator") {
            Some(Attribute::Binary(_, value)) => value,
            _ => {
                return false;
            },
        };
        let expected = match self.calculate_message_authenticator(packet, secret) {
            Ok(v) => v,
            Err(_) => {
                return false;
            },
        };
        if carried.len() != expected.len() {
            return false;
        }
        let mut same = true;
        let mut i: usize = 0;
        while i < carried.len()
            invariant
                carried@.len() == expected@.len(),
                i <= carried@.len(),
                same == (forall|j: int| 0 <= j < i ==> carried@[j] == expected@[j]),
            decreases carried@.len() - i,
        {
            let equal = carried[i] == expected[i];
            same = if equal { same } else { false };
            i = i + 1;
        }
        assert(same ==> carried@ =~= expected@);
        same
    }

    /// Encode a packet into a datagram.
    pub fn encode(&self, packet: &Packet) -> (r: Result<Vec<u8>, ProtocolError>)
        ensures
            r matches Ok(b) ==> encode_spec(packet@) == Ok::<Seq<u8>, ProtocolError>(b@),
            r matches Err(e) ==> encode_spec(packet@) == Err::<Seq<u8>, ProtocolError>(e),
    {
        let attrs = packet.attributes();
        let ghost s = packet@.attributes;
        let mut size: usize = HEADER_SIZE;
        let mut i: usize = 0;
        while i < attrs.len()
            invariant
                attrs_view(attrs@) == s,
                s == packet@.attributes,
                i <= attrs@.len(),
                size == 20 + sum_attr(s.take(i as int)),
                size <= 4096,
            decreases attrs@.len() - i,
        {
            assert(s[i as int] == attrs@[i as int]@);
            let checked = self.calculate_attribute_size(&attrs[i]);
            proof {
                lemma_sum_attr_step(s, i as int);
                lemma_sum_attr_take(s, i as int + 1);
            }
            let a = match checked {
                Some(a) => a,
                None => {
                    return Err(ProtocolError::SizeExceeded);
                },
            };
            if a > MAX_PACKET_SIZE - size {
                return Err(ProtocolError::SizeExceeded);
            }
            size = size + a;
            i = i + 1;
        }
        assert(s.take(i as int) =~= s);
        let mut buffer = new_buffer(size);
        let head: [u8; 4] = [packet.code().to_u8(), packet.identifier(), (size / 256) as u8, (size % 256) as u8];
        proof { broadcast use vstd::array::group_array_axioms; }
        append_bytes(&mut buffer, &head);
        append_bytes(&mut buffer, packet.authenticator());
        assert(buffer_contents(buffer) =~= header_bytes(packet@));
        let ghost w: Seq<u8> = Seq::empty();
        proof {
            assert(s.subrange(0, s.len() as int) =~= s);
            lemma_prepend_empty(encode_attrs(s));
        }
        let mut i: usize = 0;
        while i < attrs.len()
            invariant
                attrs_view(attrs@) == s,
                s == packet@.attributes,
                i <= attrs@.len(),
                size == packet_size(packet@),
                size <= 4096,
                header_bytes(packet@).len() == 20,
                buffer_contents(buffer) == header_bytes(packet@) + w,
                w.len() == sum_attr(s.take(i as int)),
                encode_attrs(s) == prepend(w, encode_attrs(s.subrange(i as int, s.len() as int))),
            decreases attrs@.len() - i,
        {
            assert(s[i as int] == attrs@[i as int]@);
            proof {
                lemma_sum_attr_step(s, i as int);
                lemma_sum_attr_take(s, i as int + 1);
                let rest = s.subrange(i as int, s.len() as int);
                assert(rest.drop_first() =~= s.subrange(i as int + 1, s.len() as int));
                assert(rest[0] == s[i as int]);
            }
            let res = self.encode_attribute(&mut buffer, &attrs[i]);
            match res {
                Err(e) => {
                    return Err(e);
                },
                Ok(_) => {},
            }
            proof {
                let x = encode_attr(s[i as int])->Ok_0;
                lemma_encode_attr_len(s[i as int]);
                lemma_prepend_prepend(w, x, encode_attrs(s.subrange(i as int + 1, s.len() as int)));
                assert(buffer_contents(buffer) =~= header_bytes(packet@) + (w + x));
                assert(encode_attrs(s) == prepend(w + x, encode_attrs(s.subrange(i as int + 1, s.len() as int))));
                w = w + x;
            }
            i = i + 1;
        }
        proof {
            assert(s.subrange(i as int, s.len() as int) =~= Seq::<AttributeView>::empty());
        }
        Ok(buffer_to_vec(&buffer))
    }
}


// ---------------------------------------------------------------------------
// Laws of the codec

/// A datagram shorter than the fixed header never decodes: it is malformed.
pub proof fn lemma_short_datagram_rejected(data: Seq<u8>, source: SocketAddress, require_authenticator: bool)
    requires
        data.len() < 20,
    ensures
        decode_spec(data, source, require_authenticator)
            == Err::<PacketView, ProtocolError>(ProtocolError::Malformed(MalformedKind::TooShort)),
{
}

/// A datagram whose header declares more bytes than it holds never decodes.
pub proof fn lemma_overlong_declared_length_rejected(data: Seq<u8>, source: SocketAddress, require_authenticator: bool)
    requires
        data.len() >= 4,
        declared_length(data) > data.len(),
    ensures
        decode_spec(data, source, require_authenticator) is Err,
{
}

/// The attributes that decoding gives back exactly as they were encoded:
/// those whose variant is the value kind the dictionary gives their name
/// (an address of four bytes), and Vendor-Specific attributes without
/// nested attributes.
pub open spec fn round_trippable(a: AttributeView) -> bool {
    match a {
        AttributeView::String(n, _) => dict_code(n) matches Some(c) && dict_kind(c) == ValueKind::Text,
        AttributeView::Integer(n, _) => dict_code(n) matches Some(c) && dict_kind(c) == ValueKind::Integer,
        AttributeView::IpAddr(n, o) => dict_code(n) matches Some(c) && dict_kind(c) == ValueKind::Address
            && o.len() == 4,
        AttributeView::Binary(n, _) => dict_code(n) matches Some(c) && dict_kind(c) == ValueKind::Binary,
        AttributeView::VendorSpecific(_, nested) => nested.len() == 0,
        _ => false,
    }
}

proof fn lemma_code_byte(c: PacketCode)
    ensures
        PacketCode::spec_from_byte(c.spec_byte()) == Some(c),
{
}

proof fn lemma_be32(n: nat)
    requires
        n < 4294967296,
    ensures
        be32_value(be32(n)) == n,
{
    let b = be32(n);
    assert(b[0] as nat == (n / 16777216) % 256);
    assert(b[1] as nat == (n / 65536) % 256);
    assert(b[2] as nat == (n / 256) % 256);
    assert(b[3] as nat == n % 256);
    assert(((n / 16777216) % 256) * 16777216 + ((n / 65536) % 256) * 65536 + ((n / 256) % 256) * 256 + n % 256 == n)
        by (nonlinear_arith)
        requires
            n < 4294967296,
    ;
}

/// One encoded round-trippable attribute decodes back to itself.
proof fn lemma_decode_one(a: AttributeView)
    requires
        round_trippable(a),
        encode_attr(a) is Ok,
    ensures
        encode_attr(a)->Ok_0.len() == attr_size(a),
        2 <= attr_size(a) <= 255,
        encode_attr(a)->Ok_0[1] as nat == attr_size(a),
        decoded_attribute(encode_attr(a)->Ok_0[0], encode_attr(a)->Ok_0.subrange(2, attr_size(a) as int))
            == Ok::<AttributeView, ProtocolError>(a),
{
    lemma_encode_attr_len(a);
    let x = encode_attr(a)->Ok_0;
    match a {
        AttributeView::String(n, v) => {
            lemma_first_code_from(n, 0);
            assert(x.subrange(2, attr_size(a) as int) =~= encode_utf8(v));
            encode_utf8_valid_utf8(v);
            encode_utf8_decode_utf8(v);
        },
        AttributeView::Integer(n, v) => {
            lemma_first_code_from(n, 0);
            assert(x.subrange(2, attr_size(a) as int) =~= be32(i32_bits(v)));
            lemma_be32(i32_bits(v));
        },
        AttributeView::IpAddr(n, o) => {
            lemma_first_code_from(n, 0);
            assert(x.subrange(2, attr_size(a) as int) =~= o);
        },
        AttributeView::Binary(n, b) => {
            lemma_first_code_from(n, 0);
            assert(x.subrange(2, attr_size(a) as int) =~= b);
        },
        AttributeView::VendorSpecific(id, nested) => {
            assert(nested =~= Seq::<AttributeView>::empty());
            assert(encode_attrs(nested) == Ok::<Seq<u8>, ProtocolError>(Seq::empty()));
            assert(sum_attr(nested) == 0);
            assert(x.subrange(2, 6) =~= be32(id as nat));
            lemma_be32(id as nat);
        },
        _ => {},
    }
}

/// Encoded round-trippable attributes decode back to themselves, in order.
proof fn lemma_decode_encoded(s: Seq<AttributeView>, acc: Seq<AttributeView>)
    requires
        forall|i: int| 0 <= i < s.len() ==> round_trippable(#[trigger] s[i]),
        names_unique(acc + s),
        encode_attrs(s) is Ok,
    ensures
        decode_attrs(encode_attrs(s)->Ok_0, acc) == Ok::<Seq<AttributeView>, ProtocolError>(acc + s),
    decreases s.len(),
{
    if s.len() == 0 {
        assert(acc + s =~= acc);
    } else {
        let a = s[0];
        let t = s.subrange(1, s.len() as int);
        let x = encode_attr(a)->Ok_0;
        let rb = encode_attrs(t)->Ok_0;
        let region = x + rb;
        assert(region == encode_attrs(s)->Ok_0);
        lemma_decode_one(a);
        assert(region[1] == x[1]);
        assert(region[0] == x[0]);
        assert(region.subrange(2, attr_size(a) as int) =~= x.subrange(2, attr_size(a) as int));
        assert(region.subrange(attr_size(a) as int, region.len() as int) =~= rb);
        assert forall|i: int| 0 <= i < acc.len() implies acc[i].name() != a.name() by {
            assert((acc + s)[i] == acc[i]);
            assert((acc + s)[acc.len() as int] == a);
        }
        assert(insert_attr(acc, a) == acc.push(a));
        assert(acc.push(a) + t =~= acc + s);
        assert forall|i: int| 0 <= i < t.len() implies round_trippable(#[trigger] t[i]) by {
            assert(t[i] == s[i + 1]);
        }
        lemma_decode_encoded(t, acc.push(a));
    }
}

/// Decoding an encoded packet gives back its code, identifier,
/// authenticator and attributes, for every packet that encodes, whose
/// attributes are round-trippable, and that the Message-Authenticator
/// policy admits.
pub proof fn lemma_round_trip(p: PacketView, source: SocketAddress, require_authenticator: bool)
    requires
        names_unique(p.attributes),
        p.authenticator.len() == 16,
        forall|i: int| 0 <= i < p.attributes.len() ==> round_trippable(#[trigger] p.attributes[i]),
        encode_spec(p) is Ok,
        !(require_authenticator && p.code == PacketCode::AccessRequest
            && lookup(p.attributes, "Message-Authenticator"@) is None),
    ensures
        decode_spec(encode_spec(p)->Ok_0, source, require_authenticator)
            == Ok::<PacketView, ProtocolError>(PacketView { source: Some(source), ..p }),
{
    let s = p.attributes;
    let body = encode_attrs(s)->Ok_0;
    let data = encode_spec(p)->Ok_0;
    lemma_encode_attrs_len(s);
    lemma_code_byte(p.code);
    let size = packet_size(p);
    assert(size <= 4096);
    assert(data == header_bytes(p) + body);
    assert(data.len() == size);
    assert(data[0] == p.code.spec_byte());
    assert(data[2] as nat == (size / 256) % 256);
    assert(data[3] as nat == size % 256);
    assert(declared_length(data) == size);
    assert(data.subrange(20, size as int) =~= body);
    assert(data.subrange(4, 20) =~= p.authenticator);
    assert(Seq::<AttributeView>::empty() + s =~= s);
    lemma_decode_encoded(s, Seq::empty());
}


/// No attribute record of wire type `t` in `region`, walking the records
/// as decoding does.
pub open spec fn lacks_record_type(region: Seq<u8>, t: u8) -> bool
    decreases region.len(),
{
    if region.len() < 2 || (region[1] as int) < 2 || region[1] as int > region.len() {
        true
    } else {
        region[0] != t && lacks_record_type(region.subrange(region[1] as int, region.len() as int), t)
    }
}

/// An attribute decoded from a record of another type than 80 is not
/// called Message-Authenticator.
proof fn lemma_decoded_not_authenticator(t: u8, v: Seq<u8>)
    requires
        t != 80,
        decoded_attribute(t, v) is Ok,
    ensures
        decoded_attribute(t, v)->Ok_0.name() != "Message-Authenticator"@,
{
    reveal_strlit("Message-Authenticator");
    reveal_strlit("Unknown-");
    reveal_strlit("Vendor-Specific");
    lemma_message_authenticator_code(t);
    let a = decoded_attribute(t, v)->Ok_0;
    if a.name() == "Message-Authenticator"@ {
        if dict_name(t) is None {
            assert(unknown_name(t)[0] == 'U');
        }
        if a is VendorSpecific {
            assert(a.name()[0] == 'V');
        }
    }
}

/// Decoding a region with no record of type 80 adds no Message-Authenticator.
proof fn lemma_decode_without_authenticator(region: Seq<u8>, acc: Seq<AttributeView>)
    requires
        lacks_record_type(region, 80),
        names_unique(acc),
        lookup(acc, "Message-Authenticator"@) is None,
    ensures
        decode_attrs(region, acc) matches Ok(attrs) ==> lookup(attrs, "Message-Authenticator"@) is None,
    decreases region.len(),
{
    if region.len() >= 2 && (region[1] as int) >= 2 && region[1] as int <= region.len() {
        let l = region[1] as int;
        let v = region.subrange(2, l);
        if let Ok(a) = decoded_attribute(region[0], v) {
            lemma_decoded_not_authenticator(region[0], v);
            lemma_insert_attr(acc, a);
            lemma_decode_without_authenticator(region.subrange(l, region.len() as int), insert_attr(acc, a));
        }
    }
}

/// Under a policy that requires it, an Access-Request whose attribute
/// region holds no record of type 80 never decodes, so it reaches no
/// backend; where its records are otherwise well formed, the failure is
/// the missing Message-Authenticator.
pub proof fn lemma_request_without_authenticator_record_rejected(data: Seq<u8>, source: SocketAddress)
    requires
        data.len() >= 20,
        PacketCode::spec_from_byte(data[0]) == Some(PacketCode::AccessRequest),
        20 <= declared_length(data) <= data.len(),
        lacks_record_type(data.subrange(20, declared_length(data) as int), 80),
    ensures
        decode_spec(data, source, true) is Err,
        decode_attrs(data.subrange(20, declared_length(data) as int), Seq::empty()) is Ok
            ==> decode_spec(data, source, true) == Err::<PacketView, ProtocolError>(
                ProtocolError::PolicyViolation(PolicyKind::MissingMessageAuthenticator),
            ),
{
    let empty = Seq::<AttributeView>::empty();
    assert(!(exists|i: int| 0 <= i < empty.len() && empty[i].name() == "Message-Authenticator"@));
    lemma_decode_without_authenticator(data.subrange(20, declared_length(data) as int), empty);
}

} // verus!
