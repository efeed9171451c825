use aegis_auth::accounts::ApprovalStatus;
use aegis_auth::claims::UserType;
use aegis_auth::error::{AuthError, Field};
use aegis_auth::service::{AuthService, RegisterRequest};

const T0: u64 = 1_700_000_000;

fn service() -> AuthService {
    AuthService::new("test-secret".to_string(), 7, 4)
}

fn player_request(email: &str, username: Option<&str>, password: &str) -> RegisterRequest {
    RegisterRequest {
        email: email.to_string(),
        password: password.to_string(),
        user_type: "player".to_string(),
        username: username.map(|s| s.to_string()),
        org_name: None,
        owner_name: None,
        country: None,
        description: None,
    }
}

fn org_request(email: &str) -> RegisterRequest {
    RegisterRequest {
        email: email.to_string(),
        password: "org-pass".to_string(),
        user_type: "organization".to_string(),
        username: None,
        org_name: Some("Team Aegis".to_string()),
        owner_name: Some("Owner".to_string()),
        country: Some("IN".to_string()),
        description: Some("Esports org".to_string()),
    }
}

#[test]
fn player_login_token_names_player() {
    let mut s = service();
    let reg = s.register(player_request("p@x.io", Some("pl"), "hunter22"), None, None, T0).unwrap();
    let resp = s.login("p@x.io", "hunter22", Some("1.1.1.1".to_string()), None, T0 + 5).unwrap();
    assert_eq!(resp.user.id, reg.user.id);
    assert_eq!(resp.user.user_type, UserType::Player);
    let claims = s.authenticate_token(&resp.token, T0 + 6).unwrap();
    assert_eq!(claims.sub, reg.user.id);
    assert_eq!(claims.session_id, resp.session_id);
    assert_eq!(claims.user_type, UserType::Player);
    assert!(!claims.verified);
    assert_eq!(claims.iat, T0 + 5);
    assert_eq!(claims.exp, T0 + 5 + 7 * 86400);
}

#[test]
fn admin_login_token_carries_role() {
    let mut s = service();
    let id = s.create_admin("root".to_string(), "a@x.io".to_string(), "adminpw", "super".to_string()).unwrap();
    let resp = s.login("a@x.io", "adminpw", None, None, T0).unwrap();
    assert_eq!(resp.user.id, id);
    assert_eq!(resp.user.user_type, UserType::Admin);
    assert_eq!(resp.message, "Admin login successful.");
    let claims = s.authenticate_token(&resp.token, T0 + 1).unwrap();
    assert_eq!(claims.sub, id);
    assert_eq!(claims.role, Some("super".to_string()));
    assert!(claims.verified);
}

#[test]
fn organization_login_succeeds_while_pending() {
    let mut s = service();
    let reg = s.register(org_request("o@x.io"), None, None, T0).unwrap();
    let resp = s.login("o@x.io", "org-pass", None, None, T0 + 1).unwrap();
    assert_eq!(resp.user.id, reg.user.id);
    assert_eq!(resp.user.approval_status, Some("pending".to_string()));
    let claims = s.authenticate_token(&resp.token, T0 + 2).unwrap();
    assert_eq!(claims.sub, reg.user.id);
    assert_eq!(claims.user_type, UserType::Organization);
}

#[test]
fn wrong_password_and_unknown_email_are_unauthorized() {
    let mut s = service();
    s.register(player_request("p@x.io", Some("pl"), "hunter22"), None, None, T0).unwrap();
    let audit_before = s.audit.len();
    assert_eq!(s.login("p@x.io", "wrong", None, None, T0).unwrap_err(), AuthError::Unauthorized);
    assert_eq!(s.login("nobody@x.io", "hunter22", None, None, T0).unwrap_err(), AuthError::Unauthorized);
    assert_eq!(s.audit.len(), audit_before + 2);
    assert!(!s.audit[audit_before].success);
    assert!(s.audit[audit_before].actor_id.is_none());
}

#[test]
fn player_is_tried_before_admin_with_same_email() {
    let mut s = service();
    let reg = s.register(player_request("same@x.io", Some("pl"), "shared"), None, None, T0).unwrap();
    s.create_admin("adm".to_string(), "same@x.io".to_string(), "shared", "super".to_string()).unwrap();
    let resp = s.login("same@x.io", "shared", None, None, T0).unwrap();
    assert_eq!(resp.user.id, reg.user.id);
    assert_eq!(resp.user.user_type, UserType::Player);
}

#[test]
fn admin_locked_after_five_failures_then_unlocked_after_an_hour() {
    let mut s = service();
    s.create_admin("root".to_string(), "a@x.io".to_string(), "adminpw", "super".to_string()).unwrap();
    for k in 0..5u64 {
        assert_eq!(s.login("a@x.io", "bad", None, None, T0 + k).unwrap_err(), AuthError::Unauthorized);
    }
    assert_eq!(s.accounts.admins[0].login_attempts, 5);
    assert_eq!(s.accounts.admins[0].lock_until, Some(T0 + 4 + 3600));
    assert_eq!(s.login("a@x.io", "adminpw", None, None, T0 + 10).unwrap_err(), AuthError::Unauthorized);
    assert_eq!(s.login("a@x.io", "adminpw", None, None, T0 + 4 + 3599).unwrap_err(), AuthError::Unauthorized);
    let resp = s.login("a@x.io", "adminpw", None, None, T0 + 4 + 3600).unwrap();
    assert_eq!(resp.user.user_type, UserType::Admin);
}

#[test]
fn inactive_admin_cannot_log_in() {
    let mut s = service();
    s.create_admin("root".to_string(), "a@x.io".to_string(), "adminpw", "super".to_string()).unwrap();
    s.accounts.admins[0].is_active = false;
    assert_eq!(s.login("a@x.io", "adminpw", None, None, T0).unwrap_err(), AuthError::Unauthorized);
    assert_eq!(s.accounts.admins[0].login_attempts, 0);
}

#[test]
fn revoke_all_invalidates_every_session_of_user() {
    let mut s = service();
    s.register(player_request("p@x.io", Some("pl"), "hunter22"), None, None, T0).unwrap();
    let a = s.login("p@x.io", "hunter22", None, None, T0 + 1).unwrap();
    let b = s.login("p@x.io", "hunter22", None, None, T0 + 2).unwrap();
    let claims = s.authenticate_token(&a.token, T0 + 3).unwrap();
    s.revoke_all_sessions(&claims);
    assert_eq!(s.authenticate_token(&a.token, T0 + 4).unwrap_err(), AuthError::Unauthorized);
    assert_eq!(s.authenticate_token(&b.token, T0 + 4).unwrap_err(), AuthError::Unauthorized);
    assert!(s.sessions.validate_session(&a.session_id, T0 + 4).is_none());
    assert!(s.sessions.validate_session(&b.session_id, T0 + 4).is_none());
}

#[test]
fn revoke_all_keeps_other_users_sessions() {
    let mut s = service();
    s.register(player_request("p@x.io", Some("pl"), "hunter22"), None, None, T0).unwrap();
    s.register(player_request("q@x.io", Some("ql"), "hunter33"), None, None, T0).unwrap();
    let a = s.login("p@x.io", "hunter22", None, None, T0 + 1).unwrap();
    let b = s.login("q@x.io", "hunter33", None, None, T0 + 1).unwrap();
    let claims = s.authenticate_token(&a.token, T0 + 2).unwrap();
    s.revoke_all_sessions(&claims);
    assert!(s.authenticate_token(&b.token, T0 + 3).is_ok());
}

#[test]
fn logout_ends_only_that_session() {
    let mut s = service();
    s.register(player_request("p@x.io", Some("pl"), "hunter22"), None, None, T0).unwrap();
    let a = s.login("p@x.io", "hunter22", None, None, T0 + 1).unwrap();
    let b = s.login("p@x.io", "hunter22", None, None, T0 + 2).unwrap();
    let claims = s.authenticate_token(&a.token, T0 + 3).unwrap();
    s.logout(&claims);
    assert_eq!(s.authenticate_token(&a.token, T0 + 4).unwrap_err(), AuthError::Unauthorized);
    assert!(s.authenticate_token(&b.token, T0 + 4).is_ok());
    assert_eq!(s.refresh(&a.refresh_token, None, None, T0 + 5).unwrap_err(), AuthError::Unauthorized);
}

#[test]
fn register_organization_is_pending_and_gated_until_approved() {
    let mut s = service();
    let resp = s.register(org_request("o@x.io"), None, None, T0).unwrap();
    assert_eq!(resp.user.user_type, UserType::Organization);
    assert_eq!(resp.user.user_type.as_str(), "organization");
    assert_eq!(resp.user.approval_status, Some("pending".to_string()));
    assert_eq!(resp.user.org_name, Some("Team Aegis".to_string()));
    let claims = s.authenticate_token(&resp.token, T0 + 1).unwrap();
    assert_eq!(s.require_approved_organization(&claims).unwrap_err(), AuthError::Forbidden);
    s.set_approval_status(&resp.user.id, ApprovalStatus::Rejected).unwrap();
    assert_eq!(s.require_approved_organization(&claims).unwrap_err(), AuthError::Forbidden);
    s.set_approval_status(&resp.user.id, ApprovalStatus::Approved).unwrap();
    assert!(s.require_approved_organization(&claims).is_ok());
    assert_eq!(s.set_approval_status("no-such-id", ApprovalStatus::Approved).unwrap_err(), AuthError::NotFound);
}

#[test]
fn organization_gate_refuses_other_kinds() {
    let mut s = service();
    let resp = s.register(player_request("p@x.io", Some("pl"), "hunter22"), None, None, T0).unwrap();
    let claims = s.authenticate_token(&resp.token, T0 + 1).unwrap();
    assert_eq!(s.require_approved_organization(&claims).unwrap_err(), AuthError::Forbidden);
    assert_eq!(s.require_active_admin(&claims).unwrap_err(), AuthError::Forbidden);
}

#[test]
fn admin_gate_needs_active_admin() {
    let mut s = service();
    s.create_admin("root".to_string(), "a@x.io".to_string(), "adminpw", "super".to_string()).unwrap();
    let resp = s.login("a@x.io", "adminpw", None, None, T0).unwrap();
    let claims = s.authenticate_token(&resp.token, T0 + 1).unwrap();
    assert!(s.require_active_admin(&claims).is_ok());
    s.accounts.admins[0].is_active = false;
    assert_eq!(s.require_active_admin(&claims).unwrap_err(), AuthError::Unauthorized);
}

#[test]
fn sixth_login_from_same_ip_is_rate_limited() {
    let mut s = service();
    s.register(player_request("p@x.io", Some("pl"), "hunter22"), None, None, T0).unwrap();
    let ip = Some("10.0.0.1".to_string());
    for k in 0..5u64 {
        let pw = if k % 2 == 0 { "wrong" } else { "hunter22" };
        assert_ne!(s.login("p@x.io", pw, ip.clone(), None, T0 + k * 60).err(), Some(AuthError::RateLimited));
    }
    let sessions_before = s.sessions.sessions.len();
    let audit_before = s.audit.len();
    assert_eq!(s.login("p@x.io", "hunter22", ip.clone(), None, T0 + 3000).unwrap_err(), AuthError::RateLimited);
    assert_eq!(s.sessions.sessions.len(), sessions_before);
    assert_eq!(s.audit.len(), audit_before);
    assert!(s.login("p@x.io", "hunter22", Some("10.0.0.2".to_string()), None, T0 + 3000).is_ok());
    assert!(s.login("p@x.io", "hunter22", ip, None, T0 + 3600 + 60).is_ok());
}

#[test]
fn rate_limited_login_does_not_count_admin_failures() {
    let mut s = service();
    s.create_admin("root".to_string(), "a@x.io".to_string(), "adminpw", "super".to_string()).unwrap();
    let ip = Some("10.0.0.9".to_string());
    for k in 0..5u64 {
        let _ = s.login("a@x.io", "bad", ip.clone(), None, T0 + k);
    }
    assert_eq!(s.accounts.admins[0].login_attempts, 5);
    assert_eq!(s.login("a@x.io", "bad", ip, None, T0 + 6).unwrap_err(), AuthError::RateLimited);
    assert_eq!(s.accounts.admins[0].login_attempts, 5);
}

#[test]
fn fourth_registration_from_same_ip_is_rate_limited() {
    let mut s = service();
    let ip = Some("10.0.0.3".to_string());
    for k in 0..3 {
        let email = format!("p{}@x.io", k);
        let name = format!("pl{}", k);
        assert!(s.register(player_request(&email, Some(&name), "pw"), ip.clone(), None, T0).is_ok());
    }
    assert_eq!(
        s.register(player_request("p9@x.io", Some("pl9"), "pw"), ip, None, T0 + 1).unwrap_err(),
        AuthError::RateLimited
    );
}

#[test]
fn registration_validation_errors() {
    let mut s = service();
    assert_eq!(
        s.register(player_request("p@x.io", None, "pw"), None, None, T0).unwrap_err(),
        AuthError::Validation(Field::Username)
    );
    let mut bad = player_request("p@x.io", Some("pl"), "pw");
    bad.user_type = "admin".to_string();
    assert_eq!(s.register(bad, None, None, T0).unwrap_err(), AuthError::Validation(Field::UserType));
    s.register(player_request("p@x.io", Some("pl"), "pw"), None, None, T0).unwrap();
    assert_eq!(
        s.register(player_request("p@x.io", Some("other"), "pw"), None, None, T0).unwrap_err(),
        AuthError::Validation(Field::Email)
    );
    assert_eq!(
        s.register(player_request("q@x.io", Some("pl"), "pw"), None, None, T0).unwrap_err(),
        AuthError::Validation(Field::Username)
    );
    let mut o = org_request("o@x.io");
    o.org_name = None;
    o.country = None;
    assert_eq!(s.register(o, None, None, T0).unwrap_err(), AuthError::Validation(Field::OrgName));
    let mut o = org_request("o@x.io");
    o.owner_name = None;
    assert_eq!(s.register(o, None, None, T0).unwrap_err(), AuthError::Validation(Field::OwnerName));
    let mut o = org_request("o@x.io");
    o.country = None;
    assert_eq!(s.register(o, None, None, T0).unwrap_err(), AuthError::Validation(Field::Country));
    let mut o = org_request("o@x.io");
    o.description = None;
    assert_eq!(s.register(o, None, None, T0).unwrap_err(), AuthError::Validation(Field::Description));
    s.register(org_request("o@x.io"), None, None, T0).unwrap();
    assert_eq!(s.register(org_request("o@x.io"), None, None, T0).unwrap_err(), AuthError::Validation(Field::Email));
    assert_eq!(
        s.create_admin("x".to_string(), "a@x.io".to_string(), "pw", "r".to_string()).map(|_| ()),
        Ok(())
    );
    assert_eq!(
        s.create_admin("y".to_string(), "a@x.io".to_string(), "pw", "r".to_string()).unwrap_err(),
        AuthError::Validation(Field::Email)
    );
}

#[test]
fn refresh_mints_token_for_same_session_with_current_state() {
    let mut s = service();
    let reg = s.register(player_request("p@x.io", Some("pl"), "hunter22"), None, None, T0).unwrap();
    let token = s.pending_verification_token(&reg.user.id).unwrap();
    assert!(s.verify_email(&token));
    assert!(!s.verify_email(&token));
    let out = s.refresh(&reg.refresh_token, None, None, T0 + 100).unwrap();
    assert_eq!(out.session_id, reg.session_id);
    assert_eq!(out.refresh_token, reg.refresh_token);
    let claims = s.authenticate_token(&out.token, T0 + 101).unwrap();
    assert!(claims.verified);
    assert_eq!(claims.iat, T0 + 100);
    assert_eq!(claims.session_id, reg.session_id);
    assert_eq!(s.refresh("not-a-token", None, None, T0).unwrap_err(), AuthError::Unauthorized);
    assert_eq!(s.refresh(&reg.refresh_token, None, None, T0 + 8 * 86400).unwrap_err(), AuthError::Unauthorized);
}

#[test]
fn new_sessions_get_distinct_ids() {
    let mut s = service();
    let a = s.register(player_request("p@x.io", Some("pl"), "hunter22"), None, None, T0).unwrap();
    let b = s.login("p@x.io", "hunter22", None, None, T0).unwrap();
    assert_eq!(a.session_id.len(), 36);
    assert_ne!(a.session_id, b.session_id);
    assert_ne!(a.refresh_token, b.refresh_token);
    assert_ne!(a.session_id, a.refresh_token);
}

#[test]
fn stored_password_is_hashed() {
    let mut s = service();
    s.register(player_request("p@x.io", Some("pl"), "hunter22"), None, None, T0).unwrap();
    assert_ne!(s.accounts.players[0].password_hash, "hunter22");
    assert!(s.accounts.players[0].password_hash.starts_with("$2"));
}

#[test]
fn corrupt_hash_is_internal_error() {
    let mut s = service();
    s.register(player_request("p@x.io", Some("pl"), "hunter22"), None, None, T0).unwrap();
    s.accounts.players[0].password_hash = "not-a-hash".to_string();
    assert_eq!(s.login("p@x.io", "hunter22", None, None, T0).unwrap_err(), AuthError::Internal);
}

#[test]
fn request_authentication_prefers_header_then_cookie() {
    let mut s = service();
    let reg = s.register(player_request("p@x.io", Some("pl"), "hunter22"), None, None, T0).unwrap();
    let header = format!("Bearer {}", reg.token);
    let cookie = format!("theme=dark; token={}; lang=en", reg.token);
    assert!(s.authenticate_request(Some(&header), None, T0 + 1).is_ok());
    assert!(s.authenticate_request(None, Some(&cookie), T0 + 1).is_ok());
    assert!(s.authenticate_request(Some("Basic abc"), Some(&cookie), T0 + 1).is_ok());
    assert_eq!(s.authenticate_request(Some("Bearer junk"), Some(&cookie), T0 + 1).unwrap_err(), AuthError::Unauthorized);
    assert_eq!(s.authenticate_request(None, None, T0 + 1).unwrap_err(), AuthError::Unauthorized);
    assert_eq!(s.authenticate_request(Some(&header), None, T0 + 7 * 86400).unwrap_err(), AuthError::Unauthorized);
}

#[test]
fn error_status_codes() {
    assert_eq!(AuthError::Unauthorized.status(), 401);
    assert_eq!(AuthError::Forbidden.status(), 403);
    assert_eq!(AuthError::Validation(Field::Email).status(), 400);
    assert_eq!(AuthError::NotFound.status(), 404);
    assert_eq!(AuthError::RateLimited.status(), 429);
    assert_eq!(AuthError::Internal.status(), 500);
}

#[test]
fn password_reset_flow() {
    let mut s = service();
    s.register(player_request("p@x.io", Some("pl"), "old-pass"), None, None, T0).unwrap();
    assert!(s.request_password_reset("nobody@x.io", T0).is_none());
    let token = s.request_password_reset("p@x.io", T0).unwrap();
    assert_eq!(s.reset_password("wrong-token", "new-pass", T0 + 1), Ok(false));
    assert_eq!(s.reset_password(&token, "new-pass", T0 + 3600), Ok(false));
    assert_eq!(s.reset_password(&token, "new-pass", T0 + 10), Ok(true));
    assert_eq!(s.reset_password(&token, "again", T0 + 11), Ok(false));
    assert_eq!(s.login("p@x.io", "old-pass", None, None, T0 + 20).unwrap_err(), AuthError::Unauthorized);
    assert!(s.login("p@x.io", "new-pass", None, None, T0 + 20).is_ok());
}

#[test]
fn verification_mail_token_flow() {
    let mut s = service();
    let reg = s.register(player_request("p@x.io", Some("pl"), "pw"), None, None, T0).unwrap();
    let first = s.pending_verification_token(&reg.user.id).unwrap();
    let second = s.send_verification_email(&reg.user.id).unwrap();
    assert_ne!(first, second);
    assert!(!s.verify_email(&first));
    assert!(s.verify_email(&second));
    assert_eq!(s.send_verification_email(&reg.user.id).unwrap_err(), AuthError::Validation(Field::Email));
    assert_eq!(s.send_verification_email("missing").unwrap_err(), AuthError::NotFound);
    let resp = s.login("p@x.io", "pw", None, None, T0 + 1).unwrap();
    assert!(resp.user.verified);
}

#[test]
fn refresh_with_missing_owner_is_not_found() {
    let mut s = service();
    let reg = s.register(player_request("p@x.io", Some("pl"), "pw"), None, None, T0).unwrap();
    s.accounts.players.clear();
    assert_eq!(s.refresh(&reg.refresh_token, None, None, T0 + 1).unwrap_err(), AuthError::NotFound);
}

#[test]
fn failed_login_audit_entry() {
    let mut s = service();
    let ip = Some("9.9.9.9".to_string());
    assert_eq!(s.login("x@x.io", "pw", ip.clone(), Some("ua".to_string()), T0).unwrap_err(), AuthError::Unauthorized);
    let e = s.audit.last().unwrap();
    assert!(e.actor_id.is_none() && e.actor_type.is_none() && e.session_id.is_none());
    assert_eq!(e.action, aegis_auth::service::AuditAction::Login);
    assert_eq!(e.error_message, Some("Invalid credentials".to_string()));
    assert_eq!(e.ip_address, ip);
    assert!(!e.success);
}

#[test]
fn two_logins_give_two_live_sessions() {
    let mut s = service();
    let reg = s.register(player_request("p@x.io", Some("pl"), "pw"), None, None, T0).unwrap();
    let a = s.login("p@x.io", "pw", Some("1.2.3.4".to_string()), Some("agent".to_string()), T0 + 1).unwrap();
    let b = s.login("p@x.io", "pw", None, None, T0 + 2).unwrap();
    assert_ne!(a.refresh_token, b.refresh_token);
    let sa = s.sessions.validate_session(&a.session_id, T0 + 3).unwrap();
    let sb = s.sessions.validate_session(&b.session_id, T0 + 3).unwrap();
    assert_eq!(sa.user_id, reg.user.id);
    assert_eq!(sb.user_id, reg.user.id);
    assert_eq!(sa.refresh_token, a.refresh_token);
    assert_eq!(sa.ip_address, Some("1.2.3.4".to_string()));
    assert_eq!(sa.user_agent, Some("agent".to_string()));
    assert_eq!(sa.expires_at, T0 + 1 + 7 * 86400);
}

#[test]
fn completing_registration_with_used_session_id_changes_nothing() {
    let mut s = service();
    let reg = s.register(player_request("p@x.io", Some("pl"), "pw"), None, None, T0).unwrap();
    let audit = s.audit.len();
    let r = s.complete_player_registration(
        "q@x.io".to_string(),
        "ql".to_string(),
        "hash".to_string(),
        "id-2".to_string(),
        "vt".to_string(),
        reg.session_id.clone(),
        "fresh-refresh".to_string(),
        &None,
        &None,
        T0,
    );
    assert_eq!(r.unwrap_err(), AuthError::Internal);
    assert_eq!(s.accounts.players.len(), 1);
    assert_eq!(s.audit.len(), audit);
    let ok = s
        .complete_player_registration(
            "q@x.io".to_string(),
            "ql".to_string(),
            "hash".to_string(),
            "id-2".to_string(),
            "vt".to_string(),
            "sid-2".to_string(),
            "rt-2".to_string(),
            &None,
            &None,
            T0,
        )
        .unwrap();
    assert_eq!(ok.user.id, "id-2");
    assert_eq!(ok.session_id, "sid-2");
    assert_eq!(ok.refresh_token, "rt-2");
}

#[test]
fn organization_registration_response_names_org() {
    let mut s = service();
    let r = s.register(org_request("o@x.io"), None, None, T0).unwrap();
    assert_eq!(r.user.org_name, Some("Team Aegis".to_string()));
    assert!(!r.user.verified);
}
