use gen_mcp::auth::{resolve_ws_auth, WsAuth};
use gen_mcp::config::WebSocketAuth;
use gen_mcp::oidc::{check_discovered_issuer, normalize_issuer, well_known_url};
use gen_mcp::error::TransportError;

#[test]
fn ws_auth_none_when_config_absent() {
    assert!(matches!(resolve_ws_auth(None, None, None), WsAuth::NoAuth));
}

#[test]
fn ws_auth_none_when_disabled() {
    let auth = WebSocketAuth {
        enabled: false,
        secret: Some("s".into()),
        oidc_issuer: None,
        jwks_url: None,
    };
    assert!(matches!(resolve_ws_auth(Some(&auth), None, None), WsAuth::NoAuth));
}

#[test]
fn ws_auth_secret_from_config() {
    let auth = WebSocketAuth {
        enabled: true,
        secret: Some("topsecret".into()),
        oidc_issuer: None,
        jwks_url: None,
    };
    match resolve_ws_auth(Some(&auth), None, None) {
        WsAuth::Secret(s) => assert_eq!(s, "topsecret"),
        other => panic!("expected Secret, got {other:?}"),
    }
}

#[test]
fn ws_auth_oidc_from_config() {
    let auth = WebSocketAuth {
        enabled: true,
        secret: None,
        oidc_issuer: Some("https://issuer.example".into()),
        jwks_url: None,
    };
    match resolve_ws_auth(Some(&auth), None, None) {
        WsAuth::OidcIssuer(u) => assert_eq!(u, "https://issuer.example"),
        other => panic!("expected OidcIssuer, got {other:?}"),
    }
}

#[test]
fn ws_auth_jwks_from_config() {
    let auth = WebSocketAuth {
        enabled: true,
        secret: None,
        oidc_issuer: None,
        jwks_url: Some("https://issuer.example/jwks.json".into()),
    };
    match resolve_ws_auth(Some(&auth), None, None) {
        WsAuth::Jwks(u) => assert_eq!(u, "https://issuer.example/jwks.json"),
        other => panic!("expected Jwks, got {other:?}"),
    }
}

#[test]
fn cli_secret_override_wins_over_config() {
    let auth = WebSocketAuth {
        enabled: true,
        secret: None,
        oidc_issuer: Some("https://issuer.example".into()),
        jwks_url: None,
    };
    match resolve_ws_auth(Some(&auth), Some("override".into()), None) {
        WsAuth::Secret(s) => assert_eq!(s, "override"),
        other => panic!("expected Secret override, got {other:?}"),
    }
}

#[test]
fn cli_oidc_override_wins_over_secret() {
    match resolve_ws_auth(None, Some("s".into()), Some("https://issuer.example".into())) {
        WsAuth::OidcIssuer(u) => assert_eq!(u, "https://issuer.example"),
        other => panic!("expected OidcIssuer override, got {other:?}"),
    }
}

#[test]
fn enabled_section_without_a_method_fails_closed_to_none_only_when_invalid() {
    // Validation refuses this section; resolution alone gives no method.
    let auth = WebSocketAuth { enabled: true, secret: None, oidc_issuer: None, jwks_url: None };
    assert!(matches!(resolve_ws_auth(Some(&auth), None, None), WsAuth::NoAuth));
}

#[test]
fn oidc_discovery_urls_and_issuer_check() {
    assert_eq!(normalize_issuer("https://issuer.example///"), "https://issuer.example");
    assert_eq!(
        well_known_url("https://issuer.example/"),
        "https://issuer.example/.well-known/openid-configuration"
    );
    assert!(check_discovered_issuer("https://issuer.example", "https://issuer.example/").is_ok());
    match check_discovered_issuer("https://a.example/", "https://b.example") {
        Err(TransportError::Authentication(m)) => assert_eq!(
            m,
            "Issuer mismatch: expected https://a.example, got https://b.example"
        ),
        other => panic!("unexpected {other:?}"),
    }
}
