use std::cell::RefCell;
use std::rc::Rc;

use rust_radius::auth::{AuthBackend, AuthManager, AuthResult, BackendError};
use rust_radius::backends::{build_auth_manager, users_files, Backend, LdapAuthBackend, LocalAuthBackend, MacAuthBackend, OAuthAuthBackend, UserTable};
use rust_radius::config::{AuthBackendConfig, Config, ConfigError, SecurityConfig, Setting};
use rust_radius::protocol::{Attribute, Packet, PacketCode};

#[derive(Clone)]
enum Script {
    Forward,
    Reject(&'static str),
    Accept,
    Fail,
}

struct Scripted {
    name: String,
    priority: u32,
    enabled: bool,
    script: Script,
    log: Rc<RefCell<Vec<String>>>,
}

impl AuthBackend for Scripted {
    fn name(&self) -> &str {
        &self.name
    }

    fn is_enabled(&self) -> bool {
        self.enabled
    }

    fn authenticate(&self, _request: &Packet) -> Result<AuthResult, BackendError> {
        self.log.borrow_mut().push(self.name.clone());
        match self.script {
            Script::Forward => Ok(AuthResult::Forward { target: "next".to_string() }),
            Script::Reject(r) => Ok(AuthResult::Reject { reason: r.to_string(), attributes: vec![] }),
            Script::Accept => Ok(AuthResult::Accept {
                attributes: vec![Attribute::Integer("Session-Timeout".to_string(), 3600)],
            }),
            Script::Fail => Err(BackendError { message: "down".to_string() }),
        }
    }

    fn priority(&self) -> u32 {
        self.priority
    }
}

fn scripted(name: &str, priority: u32, script: Script, log: &Rc<RefCell<Vec<String>>>) -> Scripted {
    Scripted { name: name.to_string(), priority, enabled: true, script, log: log.clone() }
}

fn lax() -> SecurityConfig {
    let mut s = Config::default().security;
    s.require_message_authenticator = false;
    s
}

fn request() -> Packet {
    let mut p = Packet::new(PacketCode::AccessRequest, 17, [5u8; 16]);
    p.add_attribute(Attribute::String("User-Name".to_string(), "alice".to_string()));
    p.add_attribute(Attribute::String("User-Password".to_string(), "pw".to_string()));
    p
}

fn reply_message(p: &Packet) -> Option<String> {
    match p.get_attribute("Reply-Message") {
        Some(Attribute::String(_, v)) => Some(v.clone()),
        _ => None,
    }
}

#[test]
fn chain_evaluates_in_priority_order() {
    let log = Rc::new(RefCell::new(Vec::new()));
    let backends = vec![
        scripted("A", 20, Script::Forward, &log),
        scripted("B", 10, Script::Forward, &log),
        scripted("C", 30, Script::Forward, &log),
    ];
    let manager = AuthManager::new(&lax(), backends);
    assert_eq!(manager.order(), &vec![1usize, 0, 2]);
    assert_eq!(manager.evaluation_order(), vec!["B".to_string(), "A".to_string(), "C".to_string()]);
    let response = manager.authenticate(&request());
    assert_eq!(*log.borrow(), vec!["B".to_string(), "A".to_string(), "C".to_string()]);
    assert_eq!(response.code(), PacketCode::AccessReject);
    assert_eq!(reply_message(&response), Some("no backend accepted the request".to_string()));
}

#[test]
fn equal_priorities_keep_registration_order() {
    let log = Rc::new(RefCell::new(Vec::new()));
    let backends = vec![
        scripted("first", 5, Script::Forward, &log),
        scripted("second", 5, Script::Forward, &log),
        scripted("zero", 0, Script::Forward, &log),
    ];
    let manager = AuthManager::new(&lax(), backends);
    assert_eq!(
        manager.evaluation_order(),
        vec!["zero".to_string(), "first".to_string(), "second".to_string()]
    );
}

#[test]
fn first_terminal_result_wins() {
    let log = Rc::new(RefCell::new(Vec::new()));
    let backends = vec![
        scripted("A", 1, Script::Forward, &log),
        scripted("B", 2, Script::Reject("x"), &log),
        scripted("C", 3, Script::Accept, &log),
    ];
    let manager = AuthManager::new(&lax(), backends);
    let response = manager.authenticate(&request());
    assert_eq!(response.code(), PacketCode::AccessReject);
    assert_eq!(reply_message(&response), Some("x".to_string()));
    assert_eq!(*log.borrow(), vec!["A".to_string(), "B".to_string()]);
}

#[test]
fn backend_errors_are_transparent() {
    let log = Rc::new(RefCell::new(Vec::new()));
    let backends = vec![scripted("A", 1, Script::Fail, &log), scripted("B", 2, Script::Accept, &log)];
    let manager = AuthManager::new(&lax(), backends);
    let req = request();
    let response = manager.authenticate(&req);
    assert_eq!(response.code(), PacketCode::AccessAccept);
    assert_eq!(response.identifier(), 17);
    assert_eq!(response.authenticator(), &[5u8; 16]);
    assert_eq!(
        response.get_attribute("Session-Timeout"),
        Some(&Attribute::Integer("Session-Timeout".to_string(), 3600))
    );
    assert_eq!(*log.borrow(), vec!["A".to_string(), "B".to_string()]);
}

#[test]
fn disabled_backends_are_skipped() {
    let log = Rc::new(RefCell::new(Vec::new()));
    let mut off = scripted("off", 1, Script::Accept, &log);
    off.enabled = false;
    let manager = AuthManager::new(&lax(), vec![off]);
    let response = manager.authenticate(&request());
    assert_eq!(response.code(), PacketCode::AccessReject);
    assert!(log.borrow().is_empty());
}

#[test]
fn missing_message_authenticator_never_reaches_backends() {
    let log = Rc::new(RefCell::new(Vec::new()));
    let manager = AuthManager::new(&Config::default().security, vec![scripted("A", 1, Script::Accept, &log)]);
    let response = manager.authenticate(&request());
    assert_eq!(response.code(), PacketCode::AccessReject);
    assert_eq!(reply_message(&response), Some("Missing Message-Authenticator attribute".to_string()));
    assert!(log.borrow().is_empty());
}

#[test]
fn challenge_carries_message_and_state() {
    struct Challenger;
    impl AuthBackend for Challenger {
        fn name(&self) -> &str {
            "challenger"
        }
        fn is_enabled(&self) -> bool {
            true
        }
        fn authenticate(&self, _request: &Packet) -> Result<AuthResult, BackendError> {
            Ok(AuthResult::Challenge { message: "code?".to_string(), state: vec![1, 2, 3], attributes: vec![] })
        }
        fn priority(&self) -> u32 {
            100
        }
    }
    assert_eq!(Challenger.priority(), 100);
    let manager = AuthManager::new(&lax(), vec![Challenger]);
    let response = manager.authenticate(&request());
    assert_eq!(response.code(), PacketCode::AccessChallenge);
    assert_eq!(reply_message(&response), Some("code?".to_string()));
    assert_eq!(response.get_attribute("State"), Some(&Attribute::Binary("State".to_string(), vec![1, 2, 3])));
}

fn config(kind: &str, settings: Vec<(String, Setting)>) -> AuthBackendConfig {
    AuthBackendConfig { backend_type: kind.to_string(), enabled: true, settings }
}

#[test]
fn local_backend_checks_user_table() {
    let cfg = config("local", vec![("users_file".to_string(), Setting::Text("users.json".to_string()))]);
    let mut local = LocalAuthBackend::new("local".to_string(), &cfg).unwrap();
    assert_eq!(local.users_file(), "users.json");
    assert!(local.reload_users("{\"alice\": \"pw\", \"bob\": \"other\"}").is_ok());
    match local.check(&request()) {
        AuthResult::Accept { attributes } => assert_eq!(
            attributes,
            vec![Attribute::String("Reply-Message".to_string(), "Welcome, alice!".to_string())]
        ),
        _ => panic!("expected accept"),
    }
    let mut wrong = request();
    wrong.add_attribute(Attribute::String("User-Password".to_string(), "nope".to_string()));
    match local.check(&wrong) {
        AuthResult::Reject { reason, .. } => assert_eq!(reason, "Invalid password"),
        _ => panic!("expected reject"),
    }
    let mut unknown = request();
    unknown.add_attribute(Attribute::String("User-Name".to_string(), "carol".to_string()));
    match local.check(&unknown) {
        AuthResult::Reject { reason, .. } => assert_eq!(reason, "User carol not found"),
        _ => panic!("expected reject"),
    }
    let mut no_password = Packet::new(PacketCode::AccessRequest, 1, [0u8; 16]);
    no_password.add_attribute(Attribute::String("User-Name".to_string(), "alice".to_string()));
    match local.check(&no_password) {
        AuthResult::Reject { reason, .. } => assert_eq!(reason, "Missing or invalid password"),
        _ => panic!("expected reject"),
    }
    match local.check(&Packet::new(PacketCode::AccessRequest, 1, [0u8; 16])) {
        AuthResult::Reject { reason, .. } => assert_eq!(reason, "Missing or invalid username"),
        _ => panic!("expected reject"),
    }
}

#[test]
fn local_backend_keeps_table_on_bad_reload() {
    let cfg = config("local", vec![("users_file".to_string(), Setting::Text("u.json".to_string()))]);
    let mut local = LocalAuthBackend::new("local".to_string(), &cfg).unwrap();
    local.replace_users(UserTable::parse("{\"alice\": \"pw\"}").unwrap());
    assert_eq!(local.reload_users("not json"), Err(ConfigError::InvalidUserTable));
    assert_eq!(local.reload_users("{\"alice\": 3}"), Err(ConfigError::InvalidUserTable));
    assert!(matches!(local.check(&request()), AuthResult::Accept { .. }));
}

#[test]
fn local_backend_requires_users_file() {
    let cfg = config("local", vec![]);
    assert_eq!(LocalAuthBackend::new("local".to_string(), &cfg).unwrap_err(), ConfigError::MissingUsersFile);
}

#[test]
fn mac_backend_accepts_known_and_redirects_unknown() {
    let strict = config("mac", vec![]);
    let mut mac = MacAuthBackend::new("mac".to_string(), &strict).unwrap();
    mac.add_mac("alice".to_string(), vec![Attribute::Integer("Session-Timeout".to_string(), 60)]);
    match mac.check(&request()) {
        AuthResult::Accept { attributes } => {
            assert_eq!(attributes, vec![Attribute::Integer("Session-Timeout".to_string(), 60)])
        },
        _ => panic!("expected accept"),
    }
    let mut other = request();
    other.add_attribute(Attribute::String("User-Name".to_string(), "aa:bb".to_string()));
    match mac.check(&other) {
        AuthResult::Reject { reason, .. } => assert_eq!(reason, "Unknown MAC address: aa:bb"),
        _ => panic!("expected reject"),
    }
    let open = config("mac", vec![("accept_unknown".to_string(), Setting::Flag(true))]);
    let guest = MacAuthBackend::new("mac".to_string(), &open).unwrap();
    match guest.check(&other) {
        AuthResult::Accept { attributes } => {
            assert_eq!(attributes.len(), 4);
            assert_eq!(
                attributes[3],
                Attribute::String(
                    "WISPr-Redirection-URL".to_string(),
                    "http://portal.example.com/login?mac=aa:bb".to_string()
                )
            );
            assert_eq!(attributes[2], Attribute::Integer("Tunnel-Private-Group-Id".to_string(), 99));
        },
        _ => panic!("expected accept"),
    }
}

#[test]
fn directory_backends_reject() {
    let ldap = LdapAuthBackend::new("ldap".to_string(), &config("ldap", vec![])).unwrap();
    let oauth = OAuthAuthBackend::new("oauth".to_string(), &config("oauth", vec![])).unwrap();
    assert!(matches!(ldap.check(&request()), AuthResult::Reject { ref reason, .. } if reason == "LDAP authentication not implemented"));
    assert!(matches!(oauth.check(&request()), AuthResult::Reject { ref reason, .. } if reason == "OAuth authentication not implemented"));
    assert_eq!(ldap.priority(), 30);
    assert_eq!(oauth.priority(), 40);
}

#[test]
fn chain_is_built_from_configuration() {
    let configs = vec![
        ("ldap".to_string(), config("ldap", vec![])),
        ("mac".to_string(), config("mac", vec![("accept_unknown".to_string(), Setting::Flag(true))])),
        ("off".to_string(), AuthBackendConfig { backend_type: "bogus".to_string(), enabled: false, settings: vec![] }),
    ];
    let manager = build_auth_manager(&lax(), &configs, &vec![]).unwrap();
    assert_eq!(manager.evaluation_order(), vec!["mac".to_string(), "ldap".to_string()]);
    let response = manager.authenticate(&request());
    assert_eq!(response.code(), PacketCode::AccessAccept);
    let bad = vec![("x".to_string(), config("radius", vec![]))];
    assert_eq!(build_auth_manager(&lax(), &bad, &vec![]).err(), Some(ConfigError::UnknownBackendType));
    let local = Backend::from_config("l".to_string(), &config("local", vec![]));
    assert_eq!(local.err().map(|_| ()), Some(()));
}

#[test]
fn chain_loads_local_users_from_supplied_texts() {
    let configs = vec![
        ("vouchers".to_string(), config("local", vec![("users_file".to_string(), Setting::Text("v.json".to_string()))])),
        ("mac".to_string(), config("mac", vec![])),
    ];
    assert_eq!(users_files(&configs), vec!["v.json".to_string()]);
    assert_eq!(build_auth_manager(&lax(), &configs, &vec![]).err(), Some(ConfigError::UsersFileMissing));
    let bad = vec![("v.json".to_string(), "[1]".to_string())];
    assert_eq!(build_auth_manager(&lax(), &configs, &bad).err(), Some(ConfigError::InvalidUserTable));
    let tables = vec![("v.json".to_string(), "{\"alice\": \"pw\"}".to_string())];
    let manager = build_auth_manager(&lax(), &configs, &tables).unwrap();
    assert_eq!(manager.evaluation_order(), vec!["vouchers".to_string(), "mac".to_string()]);
    let response = manager.authenticate(&request());
    assert_eq!(response.code(), PacketCode::AccessAccept);
    assert_eq!(reply_message(&response), Some("Welcome, alice!".to_string()));
}
