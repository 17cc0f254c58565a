//! Which authentication the websocket transport demands, from the
//! `[websocket_auth]` section and the command-line overrides.

use vstd::prelude::*;
use crate::config::{
    auth_method_count, clone_opt_string, opt_str_view, websocket_auth_ok, WebSocketAuth,
};

verus! {

/// The authentication demanded of websocket clients.
#[derive(Debug)]
pub enum WsAuth {
    /// No authentication.
    NoAuth,
    /// JWTs checked against the keys an OIDC issuer publishes.
    OidcIssuer(String),
    /// JWTs checked against the keys at a JWKS URL.
    Jwks(String),
    /// JWTs signed with a shared secret.
    Secret(String),
}

/// The content of a [`WsAuth`].
pub enum WsAuthView {
    NoAuth,
    OidcIssuer(Seq<char>),
    Jwks(Seq<char>),
    Secret(Seq<char>),
}

impl View for WsAuth {
    type V = WsAuthView;

    open spec fn view(&self) -> WsAuthView {
        match self {
            WsAuth::NoAuth => WsAuthView::NoAuth,
            WsAuth::OidcIssuer(s) => WsAuthView::OidcIssuer(s@),
            WsAuth::Jwks(s) => WsAuthView::Jwks(s@),
            WsAuth::Secret(s) => WsAuthView::Secret(s@),
        }
    }
}

/// The authentication for a configuration section and the two overrides: an
/// OIDC issuer given on the command line wins, then a secret given there;
/// otherwise an absent or disabled section means none, and an enabled one its
/// OIDC issuer, else its JWKS URL, else its secret (none if it names none).
pub open spec fn spec_resolve_ws_auth(
    config_auth: Option<&WebSocketAuth>,
    jwt_secret_override: Option<Seq<char>>,
    oidc_issuer_override: Option<Seq<char>>,
) -> WsAuthView {
    if oidc_issuer_override is Some {
        WsAuthView::OidcIssuer(oidc_issuer_override->0)
    } else if jwt_secret_override is Some {
        WsAuthView::Secret(jwt_secret_override->0)
    } else {
        match config_auth {
            None => WsAuthView::NoAuth,
            Some(auth) => if !auth.enabled {
                WsAuthView::NoAuth
            } else if auth.oidc_issuer is Some {
                WsAuthView::OidcIssuer(auth.oidc_issuer->0@)
            } else if auth.jwks_url is Some {
                WsAuthView::Jwks(auth.jwks_url->0@)
            } else if auth.secret is Some {
                WsAuthView::Secret(auth.secret->0@)
            } else {
                WsAuthView::NoAuth
            },
        }
    }
}

/// Map the `[websocket_auth]` section and the `--jwt-secret` /
/// `--oidc-issuer` overrides onto the authentication to demand (see
/// [`spec_resolve_ws_auth`]).
pub fn resolve_ws_auth(
    config_auth: Option<&WebSocketAuth>,
    jwt_secret_override: Option<String>,
    oidc_issuer_override: Option<String>,
) -> (r: WsAuth)
    ensures
        r@ == spec_resolve_ws_auth(
            config_auth,
            opt_str_view(jwt_secret_override),
            opt_str_view(oidc_issuer_override),
        ),
{
    if let Some(issuer) = oidc_issuer_override {
        return WsAuth::OidcIssuer(issuer);
    }
    if let Some(secret) = jwt_secret_override {
        return WsAuth::Secret(secret);
    }
    match config_auth {
        None => WsAuth::NoAuth,
        Some(auth) => {
            if !auth.enabled {
                WsAuth::NoAuth
            } else if let Some(issuer) = clone_opt_string(&auth.oidc_issuer) {
                WsAuth::OidcIssuer(issuer)
            } else if let Some(jwks_url) = clone_opt_string(&auth.jwks_url) {
                WsAuth::Jwks(jwks_url)
            } else if let Some(secret) = clone_opt_string(&auth.secret) {
                WsAuth::Secret(secret)
            } else {
                WsAuth::NoAuth
            }
        },
    }
}

/// A section that passed validation and is enabled never leaves the
/// websocket open: without overrides it demands its one method.
pub proof fn lemma_enabled_section_demands_auth(auth: WebSocketAuth)
    requires
        websocket_auth_ok(Some(auth)),
        auth.enabled,
    ensures
        !(spec_resolve_ws_auth(Some(&auth), None, None) is NoAuth),
        auth.oidc_issuer is Some ==> spec_resolve_ws_auth(Some(&auth), None, None)
            == WsAuthView::OidcIssuer(auth.oidc_issuer->0@),
        auth.jwks_url is Some ==> spec_resolve_ws_auth(Some(&auth), None, None) == WsAuthView::Jwks(
            auth.jwks_url->0@,
        ),
        auth.secret is Some ==> spec_resolve_ws_auth(Some(&auth), None, None) == WsAuthView::Secret(
            auth.secret->0@,
        ),
{
    assert(auth_method_count(auth) == 1);
}


/// A command-line override decides the authentication whatever the
/// `[websocket_auth]` section says, absent, disabled or enabled: an OIDC
/// issuer given there is used, else a secret given there. Two sections give
/// the same result under the same override.
pub proof fn lemma_cli_override_decides(
    config_auth: Option<&WebSocketAuth>,
    other_config_auth: Option<&WebSocketAuth>,
    jwt_secret_override: Option<Seq<char>>,
    oidc_issuer_override: Option<Seq<char>>,
)
    ensures
        oidc_issuer_override is Some ==> spec_resolve_ws_auth(
            config_auth,
            jwt_secret_override,
            oidc_issuer_override,
        ) == WsAuthView::OidcIssuer(oidc_issuer_override->0),
        (oidc_issuer_override is None && jwt_secret_override is Some) ==> spec_resolve_ws_auth(
            config_auth,
            jwt_secret_override,
            oidc_issuer_override,
        ) == WsAuthView::Secret(jwt_secret_override->0),
        (oidc_issuer_override is Some || jwt_secret_override is Some) ==> spec_resolve_ws_auth(
            config_auth,
            jwt_secret_override,
            oidc_issuer_override,
        ) == spec_resolve_ws_auth(other_config_auth, jwt_secret_override, oidc_issuer_override),
{
}

} // verus!
