//! The attribute dictionary: standard RADIUS attribute names and their
//! wire type codes (RFC 2865, 2869).
use vstd::prelude::*;

verus! {

/// The name that the dictionary gives to wire type `code`, if any.
pub open spec fn dict_name(code: u8) -> Option<Seq<char>> {
    match code {
        1 => Some("User-Name"@),
        2 => Some("User-Password"@),
        3 => Some("CHAP-Password"@),
        4 => Some("NAS-IP-Address"@),
        5 => Some("NAS-Port"@),
        6 => Some("Service-Type"@),
        7 => Some("Framed-Protocol"@),
        8 => Some("Framed-IP-Address"@),
        9 => Some("Framed-IP-Netmask"@),
        10 => Some("Framed-Routing"@),
        11 => Some("Filter-Id"@),
        12 => Some("Framed-MTU"@),
        13 => Some("Framed-Compression"@),
        14 => Some("Login-IP-Host"@),
        15 => Some("Login-Service"@),
        16 => Some("Login-TCP-Port"@),
        18 => Some("Reply-Message"@),
        19 => Some("Callback-Number"@),
        20 => Some("Callback-Id"@),
        22 => Some("Framed-Route"@),
        23 => Some("Framed-IPX-Network"@),
        24 => Some("State"@),
        25 => Some("Class"@),
        26 => Some("Vendor-Specific"@),
        27 => Some("Session-Timeout"@),
        28 => Some("Idle-Timeout"@),
        29 => Some("Termination-Action"@),
        30 => Some("Called-Station-Id"@),
        31 => Some("Calling-Station-Id"@),
        32 => Some("NAS-Identifier"@),
        33 => Some("Proxy-State"@),
        34 => Some("Login-LAT-Service"@),
        35 => Some("Login-LAT-Node"@),
        36 => Some("Login-LAT-Group"@),
        37 => Some("Framed-AppleTalk-Link"@),
        38 => Some("Framed-AppleTalk-Network"@),
        39 => Some("Framed-AppleTalk-Zone"@),
        60 => Some("CHAP-Challenge"@),
        61 => Some("NAS-Port-Type"@),
        62 => Some("Port-Limit"@),
        63 => Some("Login-LAT-Port"@),
        77 => Some("Connect-Info"@),
        80 => Some("Message-Authenticator"@),
        _ => None,
    }
}

/// The smallest code at or above `from` whose dictionary name is `name`.
pub open spec fn first_code_from(name: Seq<char>, from: int) -> Option<u8>
    decreases 256 - from,
{
    if from < 0 || from >= 256 {
        None
    } else if dict_name(from as u8) == Some(name) {
        Some(from as u8)
    } else {
        first_code_from(name, from + 1)
    }
}

/// The wire type code of attribute `name`, if the dictionary knows it.
pub open spec fn dict_code(name: Seq<char>) -> Option<u8> {
    first_code_from(name, 0)
}

/// A code found from a name maps back to that name.
pub proof fn lemma_first_code_from(name: Seq<char>, from: int)
    requires
        0 <= from <= 256,
    ensures
        first_code_from(name, from) matches Some(c) ==> from <= c && dict_name(c) == Some(name),
        first_code_from(name, from) is None ==> forall|c: u8| from <= c ==> dict_name(c) != Some(name),
    decreases 256 - from,
{
    if from < 256 {
        lemma_first_code_from(name, from + 1);
        if dict_name(from as u8) != Some(name) {
            assert forall|c: u8| from <= c && first_code_from(name, from) is None implies dict_name(c) != Some(name) by {
                if c == from {
                }
            }
        }
    }
}

/// The name of the attribute with wire type `code`.
pub fn attribute_name(code: u8) -> (r: Option<String>)
    ensures
        r is None <==> dict_name(code) is None,
        r matches Some(s) ==> dict_name(code) == Some(s@),
{
    match code {
        1 => Some("User-Name".to_owned()),
        2 => Some("User-Password".to_owned()),
        3 => Some("CHAP-Password".to_owned()),
        4 => Some("NAS-IP-Address".to_owned()),
        5 => Some("NAS-Port".to_owned()),
        6 => Some("Service-Type".to_owned()),
        7 => Some("Framed-Protocol".to_owned()),
        8 => Some("Framed-IP-Address".to_owned()),
        9 => Some("Framed-IP-Netmask".to_owned()),
        10 => Some("Framed-Routing".to_owned()),
        11 => Some("Filter-Id".to_owned()),
        12 => Some("Framed-MTU".to_owned()),
        13 => Some("Framed-Compression".to_owned()),
        14 => Some("Login-IP-Host".to_owned()),
        15 => Some("Login-Service".to_owned()),
        16 => Some("Login-TCP-Port".to_owned()),
        18 => Some("Reply-Message".to_owned()),
        19 => Some("Callback-Number".to_owned()),
        20 => Some("Callback-Id".to_owned()),
        22 => Some("Framed-Route".to_owned()),
        23 => Some("Framed-IPX-Network".to_owned()),
        24 => Some("State".to_owned()),
        25 => Some("Class".to_owned()),
        26 => Some("Vendor-Specific".to_owned()),
        27 => Some("Session-Timeout".to_owned()),
        28 => Some("Idle-Timeout".to_owned()),
        29 => Some("Termination-Action".to_owned()),
        30 => Some("Called-Station-Id".to_owned()),
        31 => Some("Calling-Station-Id".to_owned()),
        32 => Some("NAS-Identifier".to_owned()),
        33 => Some("Proxy-State".to_owned()),
        34 => Some("Login-LAT-Service".to_owned()),
        35 => Some("Login-LAT-Node".to_owned()),
        36 => Some("Login-LAT-Group".to_owned()),
        37 => Some("Framed-AppleTalk-Link".to_owned()),
        38 => Some("Framed-AppleTalk-Network".to_owned()),
        39 => Some("Framed-AppleTalk-Zone".to_owned()),
        60 => Some("CHAP-Challenge".to_owned()),
        61 => Some("NAS-Port-Type".to_owned()),
        62 => Some("Port-Limit".to_owned()),
        63 => Some("Login-LAT-Port".to_owned()),
        77 => Some("Connect-Info".to_owned()),
        80 => Some("Message-Authenticator".to_owned()),
        _ => None,
    }
}

/// The wire type code of the attribute called `name`.
pub fn attribute_code(name: &String) -> (r: Option<u8>)
    ensures
        r == dict_code(name@),
{
    let mut c: u16 = 0;
    while c < 256
        invariant
            c <= 256,
            first_code_from(name@, 0) == first_code_from(name@, c as int),
        decreases 256 - c,
    {
        let found = attribute_name(c as u8);
        match found {
            Some(n) => {
                if n == *name {
                    return Some(c as u8);
                }
            },
            None => {},
        }
        c = c + 1;
    }
    None
}


/// The kind of value an attribute type carries (RFC 2865, 2869).
#[derive(Debug, Clone, Copy, PartialEq, Eq, Structural)]
pub enum ValueKind {
    /// UTF-8 text
    Text,
    /// A 32-bit integer
    Integer,
    /// An IPv4 address
    Address,
    /// Opaque bytes
    Binary,
    /// A vendor id followed by vendor attributes
    VendorSpecific,
}

/// The kind of value wire type `code` carries; opaque bytes for types the
/// dictionary does not know.
pub open spec fn dict_kind(code: u8) -> ValueKind {
    match code {
        1 => ValueKind::Text,
        2 => ValueKind::Text,
        3 => ValueKind::Binary,
        4 => ValueKind::Address,
        5 => ValueKind::Integer,
        6 => ValueKind::Integer,
        7 => ValueKind::Integer,
        8 => ValueKind::Address,
        9 => ValueKind::Address,
        10 => ValueKind::Integer,
        11 => ValueKind::Text,
        12 => ValueKind::Integer,
        13 => ValueKind::Integer,
        14 => ValueKind::Address,
        15 => ValueKind::Integer,
        16 => ValueKind::Integer,
        18 => ValueKind::Text,
        19 => ValueKind::Text,
        20 => ValueKind::Text,
        22 => ValueKind::Text,
        23 => ValueKind::Integer,
        24 => ValueKind::Binary,
        25 => ValueKind::Binary,
        26 => ValueKind::VendorSpecific,
        27 => ValueKind::Integer,
        28 => ValueKind::Integer,
        29 => ValueKind::Integer,
        30 => ValueKind::Text,
        31 => ValueKind::Text,
        32 => ValueKind::Text,
        33 => ValueKind::Binary,
        34 => ValueKind::Text,
        35 => ValueKind::Text,
        36 => ValueKind::Binary,
        37 => ValueKind::Integer,
        38 => ValueKind::Integer,
        39 => ValueKind::Text,
        60 => ValueKind::Binary,
        61 => ValueKind::Integer,
        62 => ValueKind::Integer,
        63 => ValueKind::Text,
        77 => ValueKind::Text,
        80 => ValueKind::Binary,
        _ => ValueKind::Binary,
    }
}

/// The kind of value wire type `code` carries.
pub fn attribute_kind(code: u8) -> (r: ValueKind)
    ensures
        r == dict_kind(code),
{
    match code {
        1 => ValueKind::Text,
        2 => ValueKind::Text,
        3 => ValueKind::Binary,
        4 => ValueKind::Address,
        5 => ValueKind::Integer,
        6 => ValueKind::Integer,
        7 => ValueKind::Integer,
        8 => ValueKind::Address,
        9 => ValueKind::Address,
        10 => ValueKind::Integer,
        11 => ValueKind::Text,
        12 => ValueKind::Integer,
        13 => ValueKind::Integer,
        14 => ValueKind::Address,
        15 => ValueKind::Integer,
        16 => ValueKind::Integer,
        18 => ValueKind::Text,
        19 => ValueKind::Text,
        20 => ValueKind::Text,
        22 => ValueKind::Text,
        23 => ValueKind::Integer,
        24 => ValueKind::Binary,
        25 => ValueKind::Binary,
        26 => ValueKind::VendorSpecific,
        27 => ValueKind::Integer,
        28 => ValueKind::Integer,
        29 => ValueKind::Integer,
        30 => ValueKind::Text,
        31 => ValueKind::Text,
        32 => ValueKind::Text,
        33 => ValueKind::Binary,
        34 => ValueKind::Text,
        35 => ValueKind::Text,
        36 => ValueKind::Binary,
        37 => ValueKind::Integer,
        38 => ValueKind::Integer,
        39 => ValueKind::Text,
        60 => ValueKind::Binary,
        61 => ValueKind::Integer,
        62 => ValueKind::Integer,
        63 => ValueKind::Text,
        77 => ValueKind::Text,
        80 => ValueKind::Binary,
        _ => ValueKind::Binary,
    }
}


/// Only wire type 80 carries the name Message-Authenticator.
pub proof fn lemma_message_authenticator_code(t: u8)
    requires
        t != 80,
    ensures
        dict_name(t) != Some("Message-Authenticator"@),
{
    reveal_strlit("User-Name");
    reveal_strlit("User-Password");
    reveal_strlit("CHAP-Password");
    reveal_strlit("NAS-IP-Address");
    reveal_strlit("NAS-Port");
    reveal_strlit("Service-Type");
    reveal_strlit("Framed-Protocol");
    reveal_strlit("Framed-IP-Address");
    reveal_strlit("Framed-IP-Netmask");
    reveal_strlit("Framed-Routing");
    reveal_strlit("Filter-Id");
    reveal_strlit("Framed-MTU");
    reveal_strlit("Framed-Compression");
    reveal_strlit("Login-IP-Host");
    reveal_strlit("Login-Service");
    reveal_strlit("Login-TCP-Port");
    reveal_strlit("Reply-Message");
    reveal_strlit("Callback-Number");
    reveal_strlit("Callback-Id");
    reveal_strlit("Framed-Route");
    reveal_strlit("Framed-IPX-Network");
    reveal_strlit("State");
    reveal_strlit("Class");
    reveal_strlit("Vendor-Specific");
    reveal_strlit("Session-Timeout");
    reveal_strlit("Idle-Timeout");
    reveal_strlit("Termination-Action");
    reveal_strlit("Called-Station-Id");
    reveal_strlit("Calling-Station-Id");
    reveal_strlit("NAS-Identifier");
    reveal_strlit("Proxy-State");
    reveal_strlit("Login-LAT-Service");
    reveal_strlit("Login-LAT-Node");
    reveal_strlit("Login-LAT-Group");
    reveal_strlit("Framed-AppleTalk-Link");
    reveal_strlit("Framed-AppleTalk-Network");
    reveal_strlit("Framed-AppleTalk-Zone");
    reveal_strlit("CHAP-Challenge");
    reveal_strlit("NAS-Port-Type");
    reveal_strlit("Port-Limit");
    reveal_strlit("Login-LAT-Port");
    reveal_strlit("Connect-Info");
    reveal_strlit("Message-Authenticator");
    if dict_name(t) == Some("Message-Authenticator"@) {
        assert(dict_name(t)->Some_0[0] == 'M');
        assert(dict_name(t)->Some_0[1] == 'e');
        assert(dict_name(t)->Some_0[2] == 's');
    }
}

} // verus!
