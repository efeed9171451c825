use aegis_auth::claims::{Claims, UserType};
use aegis_auth::error::{AuthError, TokenError};
use aegis_auth::permissions::{check_permission, get_path_permissions, path_matches, PermissionTable};
use aegis_auth::rate_limit::RateLimiter;
use aegis_auth::request::{cookie_token, extract_token_from_request};
use aegis_auth::session::SessionStore;
use aegis_auth::token::{decode_token, encode_token};

fn claims(user_type: UserType, verified: bool) -> Claims {
    Claims {
        sub: "u-1".to_string(),
        user_type,
        role: None,
        session_id: "s-1".to_string(),
        verified,
        exp: 2_000,
        iat: 1_000,
    }
}

#[test]
fn path_matching_rules() {
    assert!(path_matches("/admin/anything", "/admin/*"));
    assert!(path_matches("/admin/", "/admin/*"));
    assert!(!path_matches("/admin", "/admin/*"));
    assert!(path_matches("/admins/x", "/admin*"));
    assert!(path_matches("/players", "/players"));
    assert!(!path_matches("/players/1", "/players"));
    assert!(path_matches("", "*"));
}

#[test]
fn admin_path_resolves_to_admin_rule_and_refuses_player() {
    let table = PermissionTable::new();
    let i = table.resolve("/admin/anything").unwrap();
    assert_eq!(table.rules[i].path, "/admin/*");
    assert_eq!(check_permission("/admin/anything", &claims(UserType::Player, true)), Err(AuthError::Forbidden));
    assert_eq!(check_permission("/admin/anything", &claims(UserType::Admin, true)), Ok(()));
}

#[test]
fn longest_pattern_wins() {
    let table = PermissionTable::new();
    let i = table.resolve("/players/me").unwrap();
    assert_eq!(table.rules[i].path, "/players/me");
    assert_eq!(check_permission("/players/me", &claims(UserType::Admin, true)), Err(AuthError::Forbidden));
    assert_eq!(check_permission("/players/me", &claims(UserType::Player, true)), Ok(()));
    let j = table.resolve("/players/42").unwrap();
    assert_eq!(table.rules[j].path, "/players/*");
    assert_eq!(check_permission("/players/42", &claims(UserType::Admin, true)), Ok(()));
}

#[test]
fn public_and_unmatched_paths() {
    assert_eq!(check_permission("/auth/login", &claims(UserType::Organization, false)), Ok(()));
    assert_eq!(check_permission("/nowhere", &claims(UserType::Admin, true)), Err(AuthError::Forbidden));
    assert!(PermissionTable::new().resolve("/nowhere").is_none());
}

#[test]
fn verification_requirement() {
    assert_eq!(check_permission("/tournaments/1", &claims(UserType::Player, false)), Err(AuthError::Forbidden));
    assert_eq!(check_permission("/tournaments/1", &claims(UserType::Player, true)), Ok(()));
    assert_eq!(check_permission("/communities/1", &claims(UserType::Player, false)), Ok(()));
    assert_eq!(check_permission("/organizations/1", &claims(UserType::Player, true)), Err(AuthError::Forbidden));
}

#[test]
fn shipped_table_shape() {
    let rules = get_path_permissions();
    assert_eq!(rules.len(), 11);
    assert_eq!(rules[0].path, "/auth/login");
    assert_eq!(rules[0].access, vec!["public".to_string()]);
    assert_eq!(rules[9].require_verified, Some(false));
    assert_eq!(rules[10].description, Some("File uploads".to_string()));
}

#[test]
fn token_round_trip_keeps_every_field() {
    let mut c = claims(UserType::Admin, true);
    c.role = Some("super".to_string());
    c.exp = 1_700_086_400;
    c.iat = 1_700_000_000;
    let t = encode_token(&c, "k");
    assert_eq!(t.split('.').count(), 3);
    let d = decode_token(&t, "k", 1_700_000_001).unwrap();
    assert_eq!(d.sub, c.sub);
    assert_eq!(d.user_type, c.user_type);
    assert_eq!(d.role, c.role);
    assert_eq!(d.session_id, c.session_id);
    assert_eq!(d.verified, c.verified);
    assert_eq!(d.exp, c.exp);
    assert_eq!(d.iat, c.iat);
    let plain = claims(UserType::Organization, false);
    let d2 = decode_token(&encode_token(&plain, "k"), "k", 0).unwrap();
    assert_eq!(d2.role, None);
    assert_eq!(d2.user_type, UserType::Organization);
    assert!(!d2.verified);
}

#[test]
fn expired_token_is_rejected() {
    let c = claims(UserType::Player, true);
    let t = encode_token(&c, "k");
    assert_eq!(decode_token(&t, "k", 2_000).unwrap_err(), TokenError::Expired);
    assert!(decode_token(&t, "k", 1_999).is_ok());
}

#[test]
fn forged_signature_is_invalid() {
    let c = claims(UserType::Player, true);
    let t = encode_token(&c, "k");
    assert_eq!(decode_token(&t, "other", 1_500).unwrap_err(), TokenError::InvalidToken);
    let mut parts: Vec<String> = t.split('.').map(|s| s.to_string()).collect();
    let sig = parts[2].clone();
    let first = if sig.starts_with('A') { "B" } else { "A" };
    parts[2] = format!("{}{}", first, &sig[1..]);
    let forged = parts.join(".");
    assert_eq!(decode_token(&forged, "k", 1_500).unwrap_err(), TokenError::InvalidToken);
}

#[test]
fn garbage_token_is_malformed() {
    assert_eq!(decode_token("not a token", "k", 0).unwrap_err(), TokenError::Malformed);
}

#[test]
fn cookie_and_header_extraction() {
    assert_eq!(extract_token_from_request(Some("Bearer abc"), Some("token=def")), Some("abc"));
    assert_eq!(extract_token_from_request(Some("bearer abc"), Some("token=def")), Some("def"));
    assert_eq!(extract_token_from_request(None, Some("a=1;  token=xyz  ; b=2")), Some("xyz"));
    assert_eq!(extract_token_from_request(None, Some("a=1; b=2")), None);
    assert_eq!(extract_token_from_request(None, None), None);
    assert_eq!(cookie_token("token="), Some(""));
    assert_eq!(cookie_token("mytoken=1; token=2"), Some("2"));
}

#[test]
fn rate_limiter_window() {
    let mut r = RateLimiter::new();
    for k in 0..3u64 {
        assert_eq!(r.check_rate_limit("ip", "register", 3, 60, 100 + k), Ok(()));
    }
    assert_eq!(r.check_rate_limit("ip", "register", 3, 60, 200), Err(AuthError::RateLimited));
    assert_eq!(r.check_rate_limit("ip", "login", 3, 60, 200), Ok(()));
    assert_eq!(r.check_rate_limit("other", "register", 3, 60, 200), Ok(()));
    assert_eq!(r.check_rate_limit("ip", "register", 3, 60, 100 + 3600), Ok(()));
    assert_eq!(r.attempts.len(), 5);
    assert!(r.attempts.iter().all(|a| a.at != 100));
}

#[test]
fn session_store_lifecycle() {
    let mut st = SessionStore::new(100);
    let s = st
        .create_session("s1".to_string(), "r1".to_string(), "u1".to_string(), UserType::Player, None, None, 10)
        .unwrap();
    assert_eq!(s.expires_at, 110);
    assert_eq!(
        st.create_session("s1".to_string(), "r2".to_string(), "u1".to_string(), UserType::Player, None, None, 10)
            .unwrap_err(),
        AuthError::Internal
    );
    st.create_session("s2".to_string(), "r2".to_string(), "u1".to_string(), UserType::Player, None, None, 10).unwrap();
    st.create_session("s3".to_string(), "r3".to_string(), "u2".to_string(), UserType::Admin, None, None, 10).unwrap();
    assert!(st.validate_session("s1", 109).is_some());
    assert!(st.validate_session("s1", 110).is_none());
    assert_eq!(st.refresh_session("r2", 50).unwrap().id, "s2");
    st.revoke_session("s1");
    st.revoke_session("s1");
    assert!(st.validate_session("s1", 20).is_none());
    assert!(st.validate_session("s2", 20).is_some());
    st.revoke_all_user_sessions("u1");
    assert!(st.validate_session("s2", 20).is_none());
    assert!(st.validate_session("s3", 20).is_some());
}

#[test]
fn user_type_names() {
    assert_eq!(UserType::Player.as_str(), "player");
    assert_eq!(UserType::Admin.as_str(), "admin");
    assert_eq!(UserType::Organization.as_str(), "organization");
    assert_eq!(UserType::from_name("admin"), Some(UserType::Admin));
    assert_eq!(UserType::from_name("root"), None);
}

#[test]
fn api_response_envelopes() {
    let ok = aegis_auth::response::ApiResponse::success(7u32);
    assert!(ok.success);
    assert_eq!(ok.data, Some(7));
    assert!(ok.message.is_none());
    let err: aegis_auth::response::ApiResponse<u32> = aegis_auth::response::ApiResponse::error("boom".to_string());
    assert!(!err.success);
    assert!(err.data.is_none());
    assert_eq!(err.message, Some("boom".to_string()));
}

#[test]
fn protected_route_list() {
    let r = aegis_auth::permissions::protected_routes();
    assert_eq!(r.len(), 14);
    assert_eq!(r[0], "/api/v1/players/me");
    assert_eq!(r[13], "/api/v1/uploads/chat/:chat_id");
}

#[test]
fn jwt_expiration_days() {
    let c = aegis_auth::config::JwtConfig { secret: "s".to_string(), expiration: 7 };
    assert_eq!(c.expiration_days(), 7);
    let n = aegis_auth::config::JwtConfig { secret: "s".to_string(), expiration: -3 };
    assert_eq!(n.expiration_days(), 0);
}

#[test]
fn auth_cookies() {
    assert_eq!(
        aegis_auth::request::create_auth_cookie("abc"),
        "token=abc; HttpOnly; SameSite=Lax; Max-Age=604800; Path=/; Secure"
    );
    assert_eq!(aegis_auth::request::cleared_auth_cookie(), "token=; HttpOnly; SameSite=Lax; Max-Age=0; Path=/; Secure");
}

#[test]
fn empty_and_short_tokens_are_malformed() {
    assert_eq!(decode_token("", "k", 0).unwrap_err(), TokenError::Malformed);
    assert_eq!(decode_token("abc", "k", 0).unwrap_err(), TokenError::Malformed);
    assert_eq!(decode_token("a.b.c", "k", 0).unwrap_err(), TokenError::Malformed);
}
