//! The authentication backends: a local user table, MAC address bypass,
//! and the LDAP and OAuth integration points.
use vstd::prelude::*;
use std::collections::BTreeMap;
use crate::auth::{is_priority_order, reply_message, AuthBackend, AuthManager, AuthResult, AuthResultView, BackendError};
use crate::config::SecurityConfig;
use crate::codec::join_text;
use crate::config::{AuthBackendConfig, ConfigError, Setting};
use crate::protocol::{
    attrs_view, duplicate_attributes, lookup, str_eq, Attribute, AttributeView, Packet, PacketView,
};

verus! {

/// The text value of attribute `name` in `request`, if it is a text attribute.
pub open spec fn text_attribute(request: PacketView, name: Seq<char>) -> Option<Seq<char>> {
    match lookup(request.attributes, name) {
        Some(AttributeView::String(_, v)) => Some(v),
        _ => None,
    }
}

/// The keys of a list of pairs are pairwise distinct.
pub open spec fn keys_unique<V>(s: Seq<(Seq<char>, V)>) -> bool {
    forall|i: int, j: int| 0 <= i < j < s.len() ==> s[i].0 != s[j].0
}

/// The position of the first entry with key `key`, from index `from` on; -1 if none.
pub open spec fn index_from<V>(s: Seq<(Seq<char>, V)>, key: Seq<char>, from: int) -> int
    decreases s.len() - from,
{
    if from < 0 || from >= s.len() {
        -1
    } else if s[from].0 == key {
        from
    } else {
        index_from(s, key, from + 1)
    }
}

/// The value of the first entry with key `key`, if any.
pub open spec fn find_key<V>(s: Seq<(Seq<char>, V)>, key: Seq<char>) -> Option<V> {
    if index_from(s, key, 0) >= 0 {
        Some(s[index_from(s, key, 0)].1)
    } else {
        None
    }
}

/// `s` with the first entry of key `key` given value `v`, or with the
/// entry appended where there is none.
pub open spec fn insert_key<V>(s: Seq<(Seq<char>, V)>, key: Seq<char>, v: V) -> Seq<(Seq<char>, V)> {
    if index_from(s, key, 0) >= 0 {
        s.update(index_from(s, key, 0), (key, v))
    } else {
        s.push((key, v))
    }
}

pub(crate) proof fn lemma_index_from<V>(s: Seq<(Seq<char>, V)>, key: Seq<char>, from: int, i: int)
    requires
        0 <= from <= s.len(),
        from <= i <= s.len(),
        forall|j: int| from <= j < i ==> s[j].0 != key,
        i == s.len() || s[i].0 == key,
    ensures
        index_from(s, key, from) == (if i == s.len() { -1 } else { i }),
    decreases s.len() - from,
{
    if from < s.len() && from < i {
        lemma_index_from(s, key, from + 1, i);
    }
}

/// The position of the first entry whose key is `key`.
pub(crate) fn find_index<V>(s: &Vec<(String, V)>, key: &String) -> (r: Option<usize>)
    ensures
        r matches Some(i) ==> i < s@.len() && s@[i as int].0@ == key@,
        r matches Some(i) ==> forall|j: int| 0 <= j < i ==> s@[j].0@ != key@,
        r is None ==> forall|i: int| 0 <= i < s@.len() ==> s@[i].0@ != key@,
{
    let mut i: usize = 0;
    while i < s.len()
        invariant
            i <= s@.len(),
            forall|j: int| 0 <= j < i ==> s@[j].0@ != key@,
        decreases s@.len() - i,
    {
        if s[i].0 == *key {
            return Some(i);
        }
        i = i + 1;
    }
    None
}

// ---------------------------------------------------------------------------
// User tables

/// A table of user names and their passwords, one entry per user.
#[derive(Debug, Clone)]
pub struct UserTable {
    entries: Vec<(String, String)>,
}

/// The views of user table entries.
pub open spec fn users_view(v: Seq<(String, String)>) -> Seq<(Seq<char>, Seq<char>)> {
    v.map_values(|p: (String, String)| (p.0@, p.1@))
}

/// The user table that a JSON object of text values spells, in key order.
pub uninterp spec fn json_text_object(text: Seq<char>) -> Option<Seq<(Seq<char>, Seq<char>)>>;

/// Relies on `serde_json::from_str` into a `BTreeMap<String, String>`: it
/// succeeds exactly on a JSON object whose values are strings, and a map
/// holds each key once.
#[verifier::external_body]
fn parse_json_text_object(text: &str) -> (r: Option<Vec<(String, String)>>)
    ensures
        r is None <==> json_text_object(text@) is None,
        r matches Some(v) ==> json_text_object(text@) == Some(users_view(v@)) && keys_unique(users_view(v@)),
{
    match serde_json::from_str::<BTreeMap<String, String>>(text) {
        Ok(m) => Some(m.into_iter().collect()),
        Err(_) => None,
    }
}

impl UserTable {
    /// The table's entries.
    pub closed spec fn spec_entries(&self) -> Seq<(Seq<char>, Seq<char>)> {
        users_view(self.entries@)
    }

    /// Each user appears once.
    pub closed spec fn wf(&self) -> bool {
        keys_unique(users_view(self.entries@))
    }

    /// An empty table.
    pub fn new() -> (r: UserTable)
        ensures
            r.wf(),
            r.spec_entries() == Seq::<(Seq<char>, Seq<char>)>::empty(),
    {
        let r = UserTable { entries: Vec::new() };
        assert(r.spec_entries() =~= Seq::<(Seq<char>, Seq<char>)>::empty());
        r
    }

    /// Read a table from the text of a users file: a JSON object mapping
    /// user names to passwords.
    pub fn parse(content: &str) -> (r: Result<UserTable, ConfigError>)
        ensures
            r is Err <==> json_text_object(content@) is None,
            r matches Err(e) ==> e == ConfigError::InvalidUserTable,
            r matches Ok(t) ==> t.wf() && json_text_object(content@) == Some(t.spec_entries()),
    {
        match parse_json_text_object(content) {
            Some(entries) => Ok(UserTable { entries }),
            None => Err(ConfigError::InvalidUserTable),
        }
    }

    /// The password stored for `user`.
    pub fn password_of(&self, user: &String) -> (r: Option<&String>)
        ensures
            r matches Some(p) ==> find_key(self.spec_entries(), user@) == Some(p@),
            r is None ==> find_key(self.spec_entries(), user@) is None,
    {
        let ghost s = self.spec_entries();
        let r = find_index(&self.entries, user);
        proof {
            assert forall|j: int| 0 <= j < s.len() implies #[trigger] s[j].0 == self.entries@[j].0@ by {}
            match r {
                Some(i) => lemma_index_from(s, user@, 0, i as int),
                None => lemma_index_from(s, user@, 0, s.len() as int),
            }
        }
        match r {
            Some(i) => Some(&self.entries[i].1),
            None => None,
        }
    }
}

// ---------------------------------------------------------------------------
// Local user database

/// The result of the local backend on `request` with user table `users`.
pub open spec fn local_outcome(users: Seq<(Seq<char>, Seq<char>)>, request: PacketView) -> AuthResultView {
    match text_attribute(request, "User-Name"@) {
        None => AuthResultView::Reject("Missing or invalid username"@, Seq::empty()),
        Some(u) => match text_attribute(request, "User-Password"@) {
            None => AuthResultView::Reject("Missing or invalid password"@, Seq::empty()),
            Some(pw) => match find_key(users, u) {
                None => AuthResultView::Reject("User "@ + u + " not found"@, Seq::empty()),
                Some(stored) => if stored != pw {
                    AuthResultView::Reject("Invalid password"@, Seq::empty())
                } else {
                    AuthResultView::Accept(seq![reply_message("Welcome, "@ + u + "!"@)])
                },
            },
        },
    }
}

/// The text value of attribute `name` in `request`.
fn text_value<'a>(request: &'a Packet, name: &str) -> (r: Option<&'a String>)
    requires
        request.wf(),
    ensures
        r matches Some(v) ==> text_attribute(request@, name@) == Some(v@),
        r is None ==> text_attribute(request@, name@) is None,
{
    match request.get_attribute(name) {
        Some(Attribute::String(_, v)) => Some(v),
        _ => None,
    }
}

/// A rejection with no extra attributes.
fn reject(reason: String) -> (r: AuthResult)
    ensures
        r@ == AuthResultView::Reject(reason@, Seq::empty()),
{
    let none: Vec<Attribute> = Vec::new();
    assert(attrs_view(none@) =~= Seq::<AttributeView>::empty());
    AuthResult::Reject { reason, attributes: none }
}

/// Authentication against a local table of users and passwords.
#[derive(Debug, Clone)]
pub struct LocalAuthBackend {
    name: String,
    enabled: bool,
    users_file: String,
    users: UserTable,
}

impl LocalAuthBackend {
    /// The current user table.
    pub closed spec fn spec_users(&self) -> Seq<(Seq<char>, Seq<char>)> {
        self.users.spec_entries()
    }

    /// The path of the users file.
    pub closed spec fn spec_users_file(&self) -> Seq<char> {
        self.users_file@
    }

    /// A local backend reading its users from the `users_file` setting; its
    /// table starts empty until users are installed.
    pub fn new(name: String, config: &AuthBackendConfig) -> (r: Result<LocalAuthBackend, ConfigError>)
        ensures
            r is Err <==> !(config.spec_setting("users_file"@) matches Some(Setting::Text(_))),
            r matches Err(e) ==> e == ConfigError::MissingUsersFile,
            r matches Ok(b) ==> b.spec_name() == name@ && b.spec_enabled() == config.enabled
                && b.spec_users() == Seq::<(Seq<char>, Seq<char>)>::empty()
                && (config.spec_setting("users_file"@) matches Some(Setting::Text(p)) && p@ == b.spec_users_file()),
    {
        let users_file = match config.setting("users_file") {
            Some(Setting::Text(path)) => path.clone(),
            _ => {
                return Err(ConfigError::MissingUsersFile);
            },
        };
        Ok(LocalAuthBackend { name, enabled: config.enabled, users_file, users: UserTable::new() })
    }

    /// The path of the users file.
    pub fn users_file(&self) -> (r: &str)
        ensures
            r@ == self.spec_users_file(),
    {
        self.users_file.as_str()
    }

    /// Swap in a new user table as a whole.
    pub fn replace_users(&mut self, users: UserTable)
        ensures
            final(self).spec_name() == old(self).spec_name(),
            final(self).spec_enabled() == old(self).spec_enabled(),
            final(self).spec_users_file() == old(self).spec_users_file(),
            final(self).spec_users() == users.spec_entries(),
    {
        self.users = users;
    }

    /// Reload the user table from the text of the users file; on failure the
    /// table is left as it was.
    pub fn reload_users(&mut self, content: &str) -> (r: Result<(), ConfigError>)
        ensures
            final(self).spec_name() == old(self).spec_name(),
            final(self).spec_enabled() == old(self).spec_enabled(),
            final(self).spec_users_file() == old(self).spec_users_file(),
            r matches Err(e) ==> e == ConfigError::InvalidUserTable,
            r is Err <==> json_text_object(content@) is None,
            r is Ok ==> Some(final(self).spec_users()) == json_text_object(content@),
            r is Err ==> final(self).spec_users() == old(self).spec_users(),
    {
        match UserTable::parse(content) {
            Ok(t) => {
                self.replace_users(t);
                Ok(())
            },
            Err(e) => Err(e),
        }
    }

    /// Evaluate a request against the user table.
    pub fn check(&self, request: &Packet) -> (r: AuthResult)
        requires
            request.wf(),
        ensures
            r@ == local_outcome(self.spec_users(), request@),
    {
        let username = match text_value(request, "User-Name") {
            Some(u) => u,
            None => {
                return reject("Missing or invalid username".to_owned());
            },
        };
        let password = match text_value(request, "User-Password") {
            Some(p) => p,
            None => {
                return reject("Missing or invalid password".to_owned());
            },
        };
        let stored = match self.users.password_of(username) {
            Some(p) => p,
            None => {
                let head = join_text("User ", username.as_str());
                return reject(join_text(head.as_str(), " not found"));
            },
        };
        if *stored != *password {
            return reject("Invalid password".to_owned());
        }
        let head = join_text("Welcome, ", username.as_str());
        let welcome = join_text(head.as_str(), "!");
        let mut attributes: Vec<Attribute> = Vec::new();
        attributes.push(Attribute::String("Reply-Message".to_owned(), welcome));
        let r = AuthResult::Accept { attributes };
        assert(r@->Accept_0 =~= seq![reply_message("Welcome, "@ + username@ + "!"@)]);
        r
    }
}

impl AuthBackend for LocalAuthBackend {
    closed spec fn spec_name(&self) -> Seq<char> {
        self.name@
    }

    closed spec fn spec_enabled(&self) -> bool {
        self.enabled
    }

    open spec fn spec_priority(&self) -> u32 {
        10
    }

    open spec fn spec_outcome(&self, request: PacketView) -> Result<AuthResultView, ()> {
        Ok(local_outcome(self.spec_users(), request))
    }

    fn name(&self) -> &str {
        self.name.as_str()
    }

    fn is_enabled(&self) -> bool {
        self.enabled
    }

    fn authenticate(&self, request: &Packet) -> Result<AuthResult, BackendError> {
        Ok(self.check(request))
    }

    fn priority(&self) -> u32 {
        10
    }
}


// ---------------------------------------------------------------------------
// MAC address bypass

/// The views of a table of MAC addresses and their response attributes.
pub open spec fn macs_view(v: Seq<(String, Vec<Attribute>)>) -> Seq<(Seq<char>, Seq<AttributeView>)> {
    v.map_values(|p: (String, Vec<Attribute>)| (p.0@, attrs_view(p.1@)))
}

/// The attributes that send an unknown device to the captive portal.
pub open spec fn portal_attributes(mac: Seq<char>) -> Seq<AttributeView> {
    seq![
        AttributeView::String("Tunnel-Type"@, "VLAN"@),
        AttributeView::Integer("Tunnel-Medium-Type"@, 6),
        AttributeView::Integer("Tunnel-Private-Group-Id"@, 99),
        AttributeView::String("WISPr-Redirection-URL"@, "http://portal.example.com/login?mac="@ + mac),
    ]
}

/// The result of the MAC backend on `request`.
pub open spec fn mac_outcome(
    known: Seq<(Seq<char>, Seq<AttributeView>)>,
    accept_unknown: bool,
    request: PacketView,
) -> AuthResultView {
    match text_attribute(request, "User-Name"@) {
        None => AuthResultView::Reject("Missing or invalid MAC address"@, Seq::empty()),
        Some(mac) => match find_key(known, mac) {
            Some(attributes) => AuthResultView::Accept(attributes),
            None => if accept_unknown {
                AuthResultView::Accept(portal_attributes(mac))
            } else {
                AuthResultView::Reject("Unknown MAC address: "@ + mac, Seq::empty())
            },
        },
    }
}

/// MAC authentication bypass: known devices are accepted with their
/// attributes, unknown ones redirected to the captive portal or rejected.
#[derive(Debug, Clone)]
pub struct MacAuthBackend {
    name: String,
    enabled: bool,
    accept_unknown: bool,
    known_macs: Vec<(String, Vec<Attribute>)>,
}

impl MacAuthBackend {
    /// The known MAC addresses and their attributes.
    pub closed spec fn spec_known(&self) -> Seq<(Seq<char>, Seq<AttributeView>)> {
        macs_view(self.known_macs@)
    }

    /// Whether unknown addresses are accepted with a portal redirect.
    pub closed spec fn spec_accept_unknown(&self) -> bool {
        self.accept_unknown
    }

    /// A MAC backend; `accept_unknown` comes from the setting of that name.
    pub fn new(name: String, config: &AuthBackendConfig) -> (r: Result<MacAuthBackend, ConfigError>)
        ensures
            r matches Ok(b) && b.spec_name() == name@ && b.spec_enabled() == config.enabled
                && b.spec_known() == Seq::<(Seq<char>, Seq<AttributeView>)>::empty()
                && b.spec_accept_unknown() == (config.spec_setting("accept_unknown"@) == Some(Setting::Flag(true))),
    {
        let accept_unknown = match config.setting("accept_unknown") {
            Some(Setting::Flag(flag)) => *flag,
            _ => false,
        };
        let r = MacAuthBackend { name, enabled: config.enabled, accept_unknown, known_macs: Vec::new() };
        assert(r.spec_known() =~= Seq::<(Seq<char>, Seq<AttributeView>)>::empty());
        Ok(r)
    }

    /// Register a known MAC address with the attributes of its responses.
    pub fn add_mac(&mut self, mac: String, attributes: Vec<Attribute>)
        ensures
            final(self).spec_known() == insert_key(old(self).spec_known(), mac@, attrs_view(attributes@)),
            final(self).spec_accept_unknown() == old(self).spec_accept_unknown(),
    {
        let ghost s = self.spec_known();
        let ghost m = mac@;
        let ghost a = attrs_view(attributes@);
        let r = find_index(&self.known_macs, &mac);
        proof {
            assert forall|j: int| 0 <= j < s.len() implies #[trigger] s[j].0 == self.known_macs@[j].0@ by {}
            match r {
                Some(i) => lemma_index_from(s, m, 0, i as int),
                None => lemma_index_from(s, m, 0, s.len() as int),
            }
        }
        match r {
            Some(i) => {
                self.known_macs.set(i, (mac, attributes));
                assert(self.spec_known() =~= s.update(i as int, (m, a)));
            },
            None => {
                self.known_macs.push((mac, attributes));
                assert(self.spec_known() =~= s.push((m, a)));
            },
        }
    }

    /// Evaluate a request against the known addresses.
    pub fn check(&self, request: &Packet) -> (r: AuthResult)
        requires
            request.wf(),
        ensures
            r@ == mac_outcome(self.spec_known(), self.spec_accept_unknown(), request@),
    {
        let ghost s = self.spec_known();
        let mac = match text_value(request, "User-Name") {
            Some(m) => m,
            None => {
                return reject("Missing or invalid MAC address".to_owned());
            },
        };
        let found = find_index(&self.known_macs, mac);
        proof {
            assert forall|j: int| 0 <= j < s.len() implies #[trigger] s[j].0 == self.known_macs@[j].0@ by {}
            match found {
                Some(i) => lemma_index_from(s, mac@, 0, i as int),
                None => lemma_index_from(s, mac@, 0, s.len() as int),
            }
        }
        match found {
            Some(i) => {
                let attributes = duplicate_attributes(&self.known_macs[i].1);
                return AuthResult::Accept { attributes };
            },
            None => {},
        }
        if self.accept_unknown {
            let redirect_url = join_text("http://portal.example.com/login?mac=", mac.as_str());
            let mut attributes: Vec<Attribute> = Vec::new();
            attributes.push(Attribute::String("Tunnel-Type".to_owned(), "VLAN".to_owned()));
            attributes.push(Attribute::Integer("Tunnel-Medium-Type".to_owned(), 6));
            attributes.push(Attribute::Integer("Tunnel-Private-Group-Id".to_owned(), 99));
            attributes.push(Attribute::String("WISPr-Redirection-URL".to_owned(), redirect_url));
            let r = AuthResult::Accept { attributes };
            assert(r@->Accept_0 =~= portal_attributes(mac@));
            return r;
        }
        reject(join_text("Unknown MAC address: ", mac.as_str()))
    }
}

impl AuthBackend for MacAuthBackend {
    closed spec fn spec_name(&self) -> Seq<char> {
        self.name@
    }

    closed spec fn spec_enabled(&self) -> bool {
        self.enabled
    }

    open spec fn spec_priority(&self) -> u32 {
        20
    }

    open spec fn spec_outcome(&self, request: PacketView) -> Result<AuthResultView, ()> {
        Ok(mac_outcome(self.spec_known(), self.spec_accept_unknown(), request))
    }

    fn name(&self) -> &str {
        self.name.as_str()
    }

    fn is_enabled(&self) -> bool {
        self.enabled
    }

    fn authenticate(&self, request: &Packet) -> Result<AuthResult, BackendError> {
        Ok(self.check(request))
    }

    fn priority(&self) -> u32 {
        20
    }
}

// ---------------------------------------------------------------------------
// Directory and identity-provider integration points

/// LDAP authentication: an integration point that rejects every request
/// until bound to a directory.
#[derive(Debug, Clone)]
pub struct LdapAuthBackend {
    name: String,
    enabled: bool,
}

impl LdapAuthBackend {
    /// An LDAP backend.
    pub fn new(name: String, config: &AuthBackendConfig) -> (r: Result<LdapAuthBackend, ConfigError>)
        ensures
            r matches Ok(b) && b.spec_name() == name@ && b.spec_enabled() == config.enabled,
    {
        Ok(LdapAuthBackend { name, enabled: config.enabled })
    }

    /// Evaluate a request.
    pub fn check(&self, request: &Packet) -> (r: AuthResult)
        ensures
            r@ == AuthResultView::Reject("LDAP authentication not implemented"@, Seq::empty()),
    {
        reject("LDAP authentication not implemented".to_owned())
    }
}

impl AuthBackend for LdapAuthBackend {
    closed spec fn spec_name(&self) -> Seq<char> {
        self.name@
    }

    closed spec fn spec_enabled(&self) -> bool {
        self.enabled
    }

    open spec fn spec_priority(&self) -> u32 {
        30
    }

    open spec fn spec_outcome(&self, request: PacketView) -> Result<AuthResultView, ()> {
        Ok(AuthResultView::Reject("LDAP authentication not implemented"@, Seq::empty()))
    }

    fn name(&self) -> &str {
        self.name.as_str()
    }

    fn is_enabled(&self) -> bool {
        self.enabled
    }

    fn authenticate(&self, request: &Packet) -> Result<AuthResult, BackendError> {
        Ok(self.check(request))
    }

    fn priority(&self) -> u32 {
        30
    }
}

/// OAuth authentication: an integration point that rejects every request
/// until bound to an identity provider.
#[derive(Debug, Clone)]
pub struct OAuthAuthBackend {
    name: String,
    enabled: bool,
}

impl OAuthAuthBackend {
    /// An OAuth backend.
    pub fn new(name: String, config: &AuthBackendConfig) -> (r: Result<OAuthAuthBackend, ConfigError>)
        ensures
            r matches Ok(b) && b.spec_name() == name@ && b.spec_enabled() == config.enabled,
    {
        Ok(OAuthAuthBackend { name, enabled: config.enabled })
    }

    /// Evaluate a request.
    pub fn check(&self, request: &Packet) -> (r: AuthResult)
        ensures
            r@ == AuthResultView::Reject("OAuth authentication not implemented"@, Seq::empty()),
    {
        reject("OAuth authentication not implemented".to_owned())
    }
}

impl AuthBackend for OAuthAuthBackend {
    closed spec fn spec_name(&self) -> Seq<char> {
        self.name@
    }

    closed spec fn spec_enabled(&self) -> bool {
        self.enabled
    }

    open spec fn spec_priority(&self) -> u32 {
        40
    }

    open spec fn spec_outcome(&self, request: PacketView) -> Result<AuthResultView, ()> {
        Ok(AuthResultView::Reject("OAuth authentication not implemented"@, Seq::empty()))
    }

    fn name(&self) -> &str {
        self.name.as_str()
    }

    fn is_enabled(&self) -> bool {
        self.enabled
    }

    fn authenticate(&self, request: &Packet) -> Result<AuthResult, BackendError> {
        Ok(self.check(request))
    }

    fn priority(&self) -> u32 {
        40
    }
}

// ---------------------------------------------------------------------------
// The built-in backends, chosen by configured type

/// One of the built-in backends.
#[derive(Debug, Clone)]
pub enum Backend {
    Local(LocalAuthBackend),
    Mac(MacAuthBackend),
    Ldap(LdapAuthBackend),
    OAuth(OAuthAuthBackend),
}

impl AuthBackend for Backend {
    open spec fn spec_name(&self) -> Seq<char> {
        match self {
            Backend::Local(b) => b.spec_name(),
            Backend::Mac(b) => b.spec_name(),
            Backend::Ldap(b) => b.spec_name(),
            Backend::OAuth(b) => b.spec_name(),
        }
    }

    open spec fn spec_enabled(&self) -> bool {
        match self {
            Backend::Local(b) => b.spec_enabled(),
            Backend::Mac(b) => b.spec_enabled(),
            Backend::Ldap(b) => b.spec_enabled(),
            Backend::OAuth(b) => b.spec_enabled(),
        }
    }

    open spec fn spec_priority(&self) -> u32 {
        match self {
            Backend::Local(b) => b.spec_priority(),
            Backend::Mac(b) => b.spec_priority(),
            Backend::Ldap(b) => b.spec_priority(),
            Backend::OAuth(b) => b.spec_priority(),
        }
    }

    open spec fn spec_outcome(&self, request: PacketView) -> Result<AuthResultView, ()> {
        match self {
            Backend::Local(b) => b.spec_outcome(request),
            Backend::Mac(b) => b.spec_outcome(request),
            Backend::Ldap(b) => b.spec_outcome(request),
            Backend::OAuth(b) => b.spec_outcome(request),
        }
    }

    fn name(&self) -> &str {
        match self {
            Backend::Local(b) => b.name(),
            Backend::Mac(b) => b.name(),
            Backend::Ldap(b) => b.name(),
            Backend::OAuth(b) => b.name(),
        }
    }

    fn is_enabled(&self) -> bool {
        match self {
            Backend::Local(b) => b.is_enabled(),
            Backend::Mac(b) => b.is_enabled(),
            Backend::Ldap(b) => b.is_enabled(),
            Backend::OAuth(b) => b.is_enabled(),
        }
    }

    fn authenticate(&self, request: &Packet) -> Result<AuthResult, BackendError> {
        match self {
            Backend::Local(b) => b.authenticate(request),
            Backend::Mac(b) => b.authenticate(request),
            Backend::Ldap(b) => b.authenticate(request),
            Backend::OAuth(b) => b.authenticate(request),
        }
    }

    fn priority(&self) -> u32 {
        match self {
            Backend::Local(b) => b.priority(),
            Backend::Mac(b) => b.priority(),
            Backend::Ldap(b) => b.priority(),
            Backend::OAuth(b) => b.priority(),
        }
    }
}

/// Why a backend configuration cannot be built, if it cannot.
pub open spec fn config_error(c: AuthBackendConfig) -> Option<ConfigError> {
    if c.backend_type@ == "local"@ {
        if c.spec_setting("users_file"@) matches Some(Setting::Text(_)) {
            None
        } else {
            Some(ConfigError::MissingUsersFile)
        }
    } else if c.backend_type@ == "mac"@ || c.backend_type@ == "ldap"@ || c.backend_type@ == "oauth"@ {
        None
    } else {
        Some(ConfigError::UnknownBackendType)
    }
}

/// The users file a local backend configuration names.
pub open spec fn users_file_of(c: AuthBackendConfig) -> Option<Seq<char>> {
    if c.backend_type@ == "local"@ {
        match c.spec_setting("users_file"@) {
            Some(Setting::Text(p)) => Some(p@),
            _ => None,
        }
    } else {
        None
    }
}

/// Why an enabled backend cannot be built, given the texts of the users
/// files by path.
pub open spec fn build_error(c: AuthBackendConfig, tables: Seq<(Seq<char>, Seq<char>)>) -> Option<ConfigError> {
    match config_error(c) {
        Some(e) => Some(e),
        None => match users_file_of(c) {
            None => None,
            Some(p) => match find_key(tables, p) {
                None => Some(ConfigError::UsersFileMissing),
                Some(text) => if json_text_object(text) is None {
                    Some(ConfigError::InvalidUserTable)
                } else {
                    None
                },
            },
        },
    }
}

/// The first error among the enabled configurations from index `from` on.
pub open spec fn first_build_error(
    s: Seq<(String, AuthBackendConfig)>,
    tables: Seq<(Seq<char>, Seq<char>)>,
    from: int,
) -> Option<ConfigError>
    decreases s.len() - from,
{
    if from < 0 || from >= s.len() {
        None
    } else if s[from].1.enabled && build_error(s[from].1, tables) is Some {
        build_error(s[from].1, tables)
    } else {
        first_build_error(s, tables, from + 1)
    }
}

/// The enabled configurations from index `from` on, in order.
pub open spec fn enabled_configs(s: Seq<(String, AuthBackendConfig)>, from: int) -> Seq<(String, AuthBackendConfig)>
    decreases s.len() - from,
{
    if from < 0 || from >= s.len() {
        Seq::empty()
    } else if s[from].1.enabled {
        seq![s[from]] + enabled_configs(s, from + 1)
    } else {
        enabled_configs(s, from + 1)
    }
}

/// The users files of the enabled local backends from index `from` on.
pub open spec fn users_files_from(s: Seq<(String, AuthBackendConfig)>, from: int) -> Seq<Seq<char>>
    decreases s.len() - from,
{
    if from < 0 || from >= s.len() {
        Seq::empty()
    } else if s[from].1.enabled && users_file_of(s[from].1) is Some {
        seq![users_file_of(s[from].1)->Some_0] + users_files_from(s, from + 1)
    } else {
        users_files_from(s, from + 1)
    }
}

/// The configured type of a built-in backend.
pub open spec fn backend_kind(b: Backend) -> Seq<char> {
    match b {
        Backend::Local(_) => "local"@,
        Backend::Mac(_) => "mac"@,
        Backend::Ldap(_) => "ldap"@,
        Backend::OAuth(_) => "oauth"@,
    }
}

/// Local backend `l` reads the users file `c` names, and holds the table
/// that the file's text in `tables` spells.
pub open spec fn local_loaded(l: LocalAuthBackend, c: AuthBackendConfig, tables: Seq<(Seq<char>, Seq<char>)>) -> bool {
    &&& users_file_of(c) == Some(l.spec_users_file())
    &&& find_key(tables, l.spec_users_file()) matches Some(text)
    &&& json_text_object(text) == Some(l.spec_users())
}

/// Backend `b` is the one configuration `entry` describes, with its users
/// table read from `tables` where it is a local backend.
pub open spec fn built_from(b: Backend, entry: (String, AuthBackendConfig), tables: Seq<(Seq<char>, Seq<char>)>) -> bool {
    &&& b.spec_name() == entry.0@
    &&& b.spec_enabled() == entry.1.enabled
    &&& backend_kind(b) == entry.1.backend_type@
    &&& b matches Backend::Local(l) ==> local_loaded(l, entry.1, tables)
}

impl Backend {
    /// The backend that a configuration describes; a local backend starts
    /// with an empty user table.
    pub fn from_config(name: String, config: &AuthBackendConfig) -> (r: Result<Backend, ConfigError>)
        ensures
            r is Err <==> config_error(*config) is Some,
            r matches Err(e) ==> config_error(*config) == Some(e),
            r matches Ok(b) ==> b.spec_name() == name@ && b.spec_enabled() == config.enabled
                && backend_kind(b) == config.backend_type@,
            r matches Ok(b) ==> (b is Local <==> config.backend_type@ == "local"@),
            r matches Ok(Backend::Local(l)) ==> users_file_of(*config) == Some(l.spec_users_file()),
    {
        let ghost n = name@;
        let kind = config.backend_type.as_str();
        if str_eq(kind, "local") {
            match LocalAuthBackend::new(name, config) {
                Ok(b) => Ok(Backend::Local(b)),
                Err(e) => Err(e),
            }
        } else if str_eq(kind, "mac") {
            match MacAuthBackend::new(name, config) {
                Ok(b) => Ok(Backend::Mac(b)),
                Err(e) => Err(e),
            }
        } else if str_eq(kind, "ldap") {
            match LdapAuthBackend::new(name, config) {
                Ok(b) => Ok(Backend::Ldap(b)),
                Err(e) => Err(e),
            }
        } else if str_eq(kind, "oauth") {
            match OAuthAuthBackend::new(name, config) {
                Ok(b) => Ok(Backend::OAuth(b)),
                Err(e) => Err(e),
            }
        } else {
            Err(ConfigError::UnknownBackendType)
        }
    }
}

/// The users files that the enabled local backends read, in order.
pub fn users_files(configs: &Vec<(String, AuthBackendConfig)>) -> (r: Vec<String>)
    ensures
        r@.map_values(|p: String| p@) == users_files_from(configs@, 0),
{
    let mut paths: Vec<String> = Vec::new();
    let ghost done: Seq<Seq<char>> = Seq::empty();
    let mut i: usize = 0;
    while i < configs.len()
        invariant
            i <= configs@.len(),
            paths@.map_values(|p: String| p@) == done,
            users_files_from(configs@, 0) == done + users_files_from(configs@, i as int),
        decreases configs@.len() - i,
    {
        let entry = &configs[i];
        if entry.1.enabled && str_eq(entry.1.backend_type.as_str(), "local") {
            match entry.1.setting("users_file") {
                Some(Setting::Text(p)) => {
                    let ghost v = p@;
                    paths.push(p.clone());
                    proof {
                        assert(done + users_files_from(configs@, i as int)
                            =~= done.push(v) + users_files_from(configs@, i as int + 1));
                        done = done.push(v);
                    }
                    assert(paths@.map_values(|p: String| p@) =~= done);
                },
                _ => {},
            }
        }
        i = i + 1;
    }
    assert(users_files_from(configs@, i as int) =~= Seq::<Seq<char>>::empty());
    assert(done + Seq::<Seq<char>>::empty() =~= done);
    paths
}

/// Build the chain from the configured backends, skipping disabled ones.
/// `tables` holds the text of each users file by path; a local backend
/// loads its users from the text of its file.
pub fn build_auth_manager(
    security: &SecurityConfig,
    configs: &Vec<(String, AuthBackendConfig)>,
    tables: &Vec<(String, String)>,
) -> (r: Result<AuthManager<Backend>, ConfigError>)
    ensures
        r is Err <==> first_build_error(configs@, users_view(tables@), 0) is Some,
        r matches Err(e) ==> first_build_error(configs@, users_view(tables@), 0) == Some(e),
        r matches Ok(m) ==> {
            &&& m.wf()
            &&& m.requires_authenticator() == security.require_message_authenticator
            &&& m.spec_backends().len() == enabled_configs(configs@, 0).len()
            &&& is_priority_order(m.spec_priorities(), m.spec_order())
            &&& forall|k: int| 0 <= k < m.spec_backends().len()
                ==> m.spec_priorities()[k] == (#[trigger] m.spec_backends()[k]).spec_priority()
            &&& forall|k: int| 0 <= k < m.spec_backends().len()
                ==> built_from(#[trigger] m.spec_backends()[k], enabled_configs(configs@, 0)[k], users_view(tables@))
        },
{
    let ghost tv = users_view(tables@);
    let ghost done: Seq<(String, AuthBackendConfig)> = Seq::empty();
    let mut backends: Vec<Backend> = Vec::new();
    let mut i: usize = 0;
    while i < configs.len()
        invariant
            i <= configs@.len(),
            tv == users_view(tables@),
            first_build_error(configs@, tv, 0) == first_build_error(configs@, tv, i as int),
            enabled_configs(configs@, 0) == done + enabled_configs(configs@, i as int),
            backends@.len() == done.len(),
            forall|k: int| 0 <= k < done.len() ==> built_from(#[trigger] backends@[k], done[k], tv),
        decreases configs@.len() - i,
    {
        let entry = &configs[i];
        if entry.1.enabled {
            let built = match Backend::from_config(entry.0.clone(), &entry.1) {
                Ok(Backend::Local(mut local)) => {
                    let path = local.users_file().to_owned();
                    let found = find_index(tables, &path);
                    proof {
                        assert forall|j: int| 0 <= j < tv.len() implies #[trigger] tv[j].0 == tables@[j].0@ by {}
                        match found {
                            Some(j) => lemma_index_from(tv, path@, 0, j as int),
                            None => lemma_index_from(tv, path@, 0, tv.len() as int),
                        }
                    }
                    let j = match found {
                        Some(j) => j,
                        None => {
                            return Err(ConfigError::UsersFileMissing);
                        },
                    };
                    assert(tv[j as int].1 == tables@[j as int].1@);
                    match local.reload_users(tables[j].1.as_str()) {
                        Ok(_) => {},
                        Err(e) => {
                            return Err(e);
                        },
                    }
                    assert(local_loaded(local, entry.1, tv));
                    Backend::Local(local)
                },
                Ok(b) => b,
                Err(e) => {
                    return Err(e);
                },
            };
            let ghost e = configs@[i as int];
            assert(built_from(built, e, tv));
            backends.push(built);
            proof {
                assert(enabled_configs(configs@, i as int) == seq![e] + enabled_configs(configs@, i as int + 1));
                assert(done + enabled_configs(configs@, i as int) =~= done.push(e) + enabled_configs(configs@, i as int + 1));
                done = done.push(e);
            }
        }
        i = i + 1;
    }
    assert(enabled_configs(configs@, i as int) =~= Seq::<(String, AuthBackendConfig)>::empty());
    assert(done + Seq::<(String, AuthBackendConfig)>::empty() =~= done);
    Ok(AuthManager::new(security, backends))
}

} // verus!
