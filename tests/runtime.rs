use rust_radius::auth::AuthManager;
use rust_radius::backends::{Backend, LdapAuthBackend};
use rust_radius::captive_portal::CaptivePortal;
use rust_radius::codec::PacketProcessor;
use rust_radius::config::{AuthBackendConfig, Config, DeploymentTemplate, ValidationError};
use rust_radius::metrics::{SimpleCounter, SimpleCounterVec, SimpleGauge, SimpleHistogram, SimpleRegistry};
use rust_radius::protocol::{Attribute, Packet, PacketCode, SocketAddress};
use rust_radius::runtime::{drain_step, process_datagram, DrainAction, DRAIN_POLL_INTERVAL_MS};

fn source() -> SocketAddress {
    SocketAddress::V6([0u8; 16], 1812)
}

fn ldap_manager(require: bool) -> AuthManager<Backend> {
    let mut security = Config::default().security;
    security.require_message_authenticator = require;
    let cfg = AuthBackendConfig { backend_type: "ldap".to_string(), enabled: true, settings: vec![] };
    AuthManager::new(&security, vec![Backend::Ldap(LdapAuthBackend::new("ldap".to_string(), &cfg).unwrap())])
}

#[test]
fn accounting_request_is_acknowledged() {
    let security = Config::default().security;
    let processor = PacketProcessor::new(&security);
    let manager = ldap_manager(true);
    let mut data = vec![4u8, 33, 0, 20];
    data.extend_from_slice(&[1u8; 16]);
    let reply = process_datagram(&processor, &manager, &data, source()).unwrap();
    let mut expected = vec![5u8, 33, 0, 20];
    expected.extend_from_slice(&[1u8; 16]);
    assert_eq!(reply, expected);
}

#[test]
fn coa_request_is_refused() {
    let processor = PacketProcessor::new(&Config::default().security);
    let manager = ldap_manager(true);
    let mut data = vec![43u8, 2, 0, 20];
    data.extend_from_slice(&[0u8; 16]);
    let reply = process_datagram(&processor, &manager, &data, source()).unwrap();
    assert_eq!(reply[0], 45);
    assert_eq!(reply[1], 2);
}

#[test]
fn malformed_and_unanswered_datagrams_are_dropped() {
    let processor = PacketProcessor::new(&Config::default().security);
    let manager = ldap_manager(true);
    assert_eq!(process_datagram(&processor, &manager, &[1u8, 2, 3], source()), None);
    let mut status = vec![12u8, 2, 0, 20];
    status.extend_from_slice(&[0u8; 16]);
    assert_eq!(process_datagram(&processor, &manager, &status, source()), None);
}

#[test]
fn access_request_without_authenticator_is_dropped() {
    let processor = PacketProcessor::new(&Config::default().security);
    let manager = ldap_manager(true);
    let mut data = vec![1u8, 9, 0, 25];
    data.extend_from_slice(&[0u8; 16]);
    data.extend_from_slice(&[1, 5, b'b', b'o', b'b']);
    assert_eq!(process_datagram(&processor, &manager, &data, source()), None);
}

#[test]
fn access_request_is_answered_by_chain() {
    let processor = PacketProcessor::new(&Config::default().security);
    let manager = ldap_manager(true);
    let mut request = Packet::new(PacketCode::AccessRequest, 77, [4u8; 16]);
    request.add_attribute(Attribute::String("User-Name".to_string(), "bob".to_string()));
    request.add_attribute(Attribute::Binary("Message-Authenticator".to_string(), vec![0u8; 16]));
    let data = processor.encode(&request).unwrap();
    let reply = process_datagram(&processor, &manager, &data, source()).unwrap();
    let response = processor.parse(&reply, source()).unwrap();
    assert_eq!(response.code(), PacketCode::AccessReject);
    assert_eq!(response.identifier(), 77);
    assert_eq!(
        response.get_attribute("Reply-Message"),
        Some(&Attribute::String("Reply-Message".to_string(), "LDAP authentication not implemented".to_string()))
    );
}

#[test]
fn drain_waits_for_in_flight_requests_or_timeout() {
    assert_eq!(drain_step(3, 0, 30000), DrainAction::Wait);
    assert_eq!(drain_step(3, 30000, 30000), DrainAction::Wait);
    assert_eq!(drain_step(3, 30001, 30000), DrainAction::TimedOut);
    assert_eq!(drain_step(0, 0, 30000), DrainAction::Finished);
    assert_eq!(drain_step(0, 99999, 30000), DrainAction::Finished);
    assert_eq!(DRAIN_POLL_INTERVAL_MS, 100);
}

#[test]
fn configuration_validation() {
    let mut config = Config::from_template(DeploymentTemplate::Basic, "0123456789abcdef".to_string());
    assert_eq!(config.validate(), Ok(()));
    config.server.secret = "short".to_string();
    assert_eq!(config.validate(), Err(ValidationError::SecretTooShort));
    config.server.secret = "0123456789abcdef".to_string();
    config.security.radsec_enabled = true;
    assert_eq!(config.validate(), Err(ValidationError::MissingRadsecCertificate));
    config.security.radsec_cert_path = Some("cert.pem".to_string());
    assert_eq!(config.validate(), Err(ValidationError::MissingRadsecKey));
    config.security.radsec_enabled = false;
    config.auth_backends[0].1.enabled = false;
    assert_eq!(config.validate(), Err(ValidationError::NoEnabledBackend));
}

#[test]
fn default_configuration_values() {
    let config = Config::default();
    assert_eq!(config.server.auth_port, 1812);
    assert_eq!(config.server.acct_port, 1813);
    assert_eq!(config.server.shutdown_timeout_secs, 30);
    assert!(config.security.require_message_authenticator);
    assert_eq!(config.security.auth_protocols, vec!["pap", "chap", "mschap", "peap"]);
    assert_eq!(config.metrics.port, 9090);
}

#[test]
fn hospitality_templates_brand_the_portal() {
    let hotel = Config::from_template(DeploymentTemplate::HotelGuest, "s".to_string());
    assert_eq!(hotel.auth_backends.len(), 2);
    let portal = hotel.captive_portal.unwrap();
    assert_eq!(portal.template_dir, "templates/hotel");
    assert_eq!(portal.branding.title, "Hotel WiFi Access");
    assert_eq!(portal.branding.primary_color, "#8a2be2");
    assert_eq!(portal.branding.logo, Some("assets/hotel-logo.png".to_string()));
    let cafe = Config::from_template(DeploymentTemplate::CafeGuest, "s".to_string());
    let portal = cafe.captive_portal.unwrap();
    assert_eq!(portal.branding.primary_color, "#4caf50");
    assert_eq!(portal.branding.background_image, Some("assets/cafe-background.jpg".to_string()));
    let enterprise = Config::from_template(DeploymentTemplate::Enterprise, "s".to_string());
    assert!(enterprise.captive_portal.is_none());
    assert_eq!(enterprise.auth_backends[0].1.backend_type, "ldap");
}

#[test]
fn metric_primitives_count() {
    let mut counter = SimpleCounter::new("requests", "all requests");
    counter.inc();
    counter.inc();
    assert_eq!(counter.get(), 2);
    let mut gauge = SimpleGauge::new("active", "in flight");
    gauge.set(5);
    assert_eq!(gauge.get(), 5);
    let mut latency = SimpleHistogram::new("latency", "ms");
    latency.observe(10);
    latency.observe(u64::MAX);
    assert_eq!(latency.count(), 2);
    assert_eq!(latency.sum(), 9);
    let mut results = SimpleCounterVec::new("results", "by outcome");
    let accept = vec!["auth".to_string(), "accept".to_string()];
    results.inc_with_labels(&accept);
    results.inc_with_labels(&accept);
    assert_eq!(results.count_with_labels(&accept), 2);
    assert_eq!(results.count_with_labels(&vec!["auth".to_string(), "reject".to_string()]), 0);
    let mut registry = SimpleRegistry::new();
    assert_eq!(registry.register("requests"), Ok(()));
}

#[test]
fn login_page_is_served() {
    let page = CaptivePortal::new().get_login_page();
    assert!(page.starts_with("<!DOCTYPE html>"));
    assert!(page.contains("Continue as Guest"));
    assert_eq!(rust_radius::init(), Ok(()));
}
