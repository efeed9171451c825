use vstd::prelude::*;
use crate::accounts::{
    AccountStore, Admin, ApprovalStatus, Organization, Player, admin_login_spec, admin_may_try,
    admin_with_email, admin_with_id, admins_after_attempt, email_taken_by_admin, email_taken_by_org,
    email_taken_by_player, index_opt, opt_view_eq, org_login_spec, org_with_email, org_with_id,
    player_login_spec, player_with_email, player_with_id, reset_pending, username_taken,
};
use crate::claims::{Claims, ClaimsView, UserType, opt_view};
use crate::error::{AuthError, Field, TokenError};
use crate::ids::new_uuid;
use crate::password::bcrypt_verdict;
use crate::rate_limit::{RateLimiter, recent_count, window_seconds};
use crate::request::{extract_token_from_request, request_token, view_opt};
use crate::session::{Session, SessionStore, SessionView, copy_opt, live_with_id};
use crate::token::{
    claims_payload, decode_token, encode_token, lemma_token_round_trip, payload_ok, signed_token, token_grants,
    verified_payload,
};

verus! {

/// Login attempts allowed per client address within the window.
pub const LOGIN_LIMIT: u64 = 5;

/// Registrations allowed per client address within the window.
pub const REGISTER_LIMIT: u64 = 3;

/// The rate-limit window, in minutes.
pub const LIMIT_WINDOW_MINUTES: u64 = 60;

pub const SECONDS_PER_DAY: u64 = 86400;

/// How long a password-reset token stays good, in seconds.
pub const RESET_SECONDS: u64 = 3600;

/// What the audit log records an entry for.
#[derive(Clone, Copy, Debug, PartialEq, Eq, Structural)]
pub enum AuditAction {
    Login,
    Register,
    RefreshToken,
    Logout,
    RevokeAllSessions,
}

/// The kind of thing an audit record is about.
#[derive(Clone, Copy, Debug, PartialEq, Eq, Structural)]
pub enum AuditTarget {
    Player,
    Admin,
    Organization,
    Session,
}

/// One audit record. The actor is absent on a failed anonymous attempt.
#[derive(Debug)]
pub struct AuditEntry {
    pub actor_id: Option<String>,
    pub actor_type: Option<UserType>,
    pub session_id: Option<String>,
    pub action: AuditAction,
    pub target_type: Option<AuditTarget>,
    pub target_id: Option<String>,
    pub ip_address: Option<String>,
    pub user_agent: Option<String>,
    pub success: bool,
    pub error_message: Option<String>,
}

/// The audit target that stands for an account kind.
pub open spec fn target_of(kind: UserType) -> AuditTarget {
    match kind {
        UserType::Player => AuditTarget::Player,
        UserType::Admin => AuditTarget::Admin,
        UserType::Organization => AuditTarget::Organization,
    }
}

fn target_for(kind: UserType) -> (r: AuditTarget)
    ensures
        r == target_of(kind),
{
    match kind {
        UserType::Player => AuditTarget::Player,
        UserType::Admin => AuditTarget::Admin,
        UserType::Organization => AuditTarget::Organization,
    }
}

pub open spec fn invalid_credentials() -> Seq<char> {
    "Invalid credentials"@
}

/// The entry for a login that reached no account: no actor, kind, session or target,
/// the client's address and agent, a failure, and the message "Invalid credentials".
pub open spec fn failed_login_entry(e: AuditEntry, ip: Option<String>, ua: Option<String>) -> bool {
    &&& e.actor_id is None
    &&& e.actor_type is None
    &&& e.session_id is None
    &&& e.action == AuditAction::Login
    &&& e.target_type is None
    &&& e.target_id is None
    &&& opt_view(e.ip_address) == opt_view(ip)
    &&& opt_view(e.user_agent) == opt_view(ua)
    &&& !e.success
    &&& opt_view(e.error_message) == Some(invalid_credentials())
}

/// The entry for a successful login or registration of the principal `id` of kind
/// `kind` under session `session_id`.
pub open spec fn granted_entry(e: AuditEntry, id: Seq<char>, kind: UserType, session_id: Seq<char>, action: AuditAction, ip: Option<String>, ua: Option<String>) -> bool {
    &&& opt_view(e.actor_id) == Some(id)
    &&& e.actor_type == Some(kind)
    &&& opt_view(e.session_id) == Some(session_id)
    &&& e.action == action
    &&& e.target_type == Some(target_of(kind))
    &&& opt_view(e.target_id) == Some(id)
    &&& opt_view(e.ip_address) == opt_view(ip)
    &&& opt_view(e.user_agent) == opt_view(ua)
    &&& e.success
    &&& e.error_message is None
}

/// No session holds `id` as its id or `refresh` as its refresh token.
pub open spec fn fresh_ids(sessions: Seq<SessionView>, id: Seq<char>, refresh: Seq<char>) -> bool {
    forall|j: int| 0 <= j < sessions.len() ==> (#[trigger] sessions[j]).id != id && sessions[j].refresh_token != refresh
}

/// The expiry of a session created at `now` in a store whose sessions live `ttl`
/// seconds, capped at the largest time.
pub open spec fn session_expiry(now: u64, ttl: u64) -> u64 {
    if now as int + ttl as int <= u64::MAX {
        (now + ttl) as u64
    } else {
        u64::MAX
    }
}

/// The settings of the service.
pub struct AuthConfig {
    pub jwt_secret: String,
    /// How long a token lives, in days.
    pub jwt_expiration_days: u64,
    /// The bcrypt cost for new password hashes.
    pub hash_cost: u32,
}

/// The public view of an account, returned with a new token.
#[derive(Debug)]
pub struct UserInfo {
    pub id: String,
    pub email: String,
    pub username: Option<String>,
    pub org_name: Option<String>,
    pub user_type: UserType,
    pub verified: bool,
    pub approval_status: Option<String>,
}

#[derive(Debug)]
pub struct AuthResponse {
    pub message: String,
    pub token: String,
    pub refresh_token: String,
    pub session_id: String,
    pub user: UserInfo,
}

#[derive(Debug)]
pub struct TokenResponse {
    pub token: String,
    pub refresh_token: String,
    pub session_id: String,
}

/// A login request.
pub struct LoginRequest {
    pub email: String,
    pub password: String,
}

/// A request for a new token by refresh token.
pub struct RefreshTokenRequest {
    pub refresh_token: String,
}

/// A request to start a password reset.
pub struct ForgotPasswordRequest {
    pub email: String,
}

/// The new password for a reset, whose token comes with the request path.
pub struct ResetPasswordRequest {
    pub new_password: String,
}

/// What an organization registers with besides its email and password.
pub struct OrganizationDetails {
    pub org_name: String,
    pub owner_name: String,
    pub country: String,
    pub description: String,
}

/// A registration request. `user_type` is "player" or "organization"; players need a
/// username, organizations a name, an owner, a country and a description.
pub struct RegisterRequest {
    pub email: String,
    pub password: String,
    pub user_type: String,
    pub username: Option<String>,
    pub org_name: Option<String>,
    pub owner_name: Option<String>,
    pub country: Option<String>,
    pub description: Option<String>,
}

/// The expiry of a token issued at `now`, capped at the largest time.
pub open spec fn token_exp(now: u64, days: u64) -> u64 {
    if days as int * SECONDS_PER_DAY as int + now as int <= u64::MAX {
        (days * SECONDS_PER_DAY + now) as u64
    } else {
        u64::MAX
    }
}

/// The claims issued at `now` for a principal under a session.
pub open spec fn issued_claims(sub: Seq<char>, user_type: UserType, role: Option<Seq<char>>, session_id: Seq<char>, verified: bool, now: u64, days: u64) -> ClaimsView {
    ClaimsView { sub, user_type, role, session_id, verified, exp: token_exp(now, days), iat: now }
}

/// Which account a login attempt reaches: players first, then admins, then
/// organizations; the first kind whose check succeeds wins.
pub open spec fn login_choice(acc: AccountStore, email: Seq<char>, password: Seq<char>, now: u64) -> Result<Option<(UserType, int)>, AuthError> {
    match player_login_spec(acc.players@, email, password) {
        Err(e) => Err(e),
        Ok(Some(i)) => Ok(Some((UserType::Player, i))),
        Ok(None) => match admin_login_spec(acc.admins@, email, password, now) {
            Err(e) => Err(e),
            Ok(Some(i)) => Ok(Some((UserType::Admin, i))),
            Ok(None) => match org_login_spec(acc.organizations@, email, password) {
                Err(e) => Err(e),
                Ok(Some(i)) => Ok(Some((UserType::Organization, i))),
                Ok(None) => Ok(None),
            },
        },
    }
}

pub open spec fn principal_id(acc: AccountStore, kind: UserType, i: int) -> Seq<char> {
    match kind {
        UserType::Player => acc.players@[i].id@,
        UserType::Admin => acc.admins@[i].id@,
        UserType::Organization => acc.organizations@[i].id@,
    }
}

pub open spec fn principal_with_id(acc: AccountStore, kind: UserType, id: Seq<char>) -> Option<int> {
    match kind {
        UserType::Player => player_with_id(acc.players@, id),
        UserType::Admin => admin_with_id(acc.admins@, id),
        UserType::Organization => org_with_id(acc.organizations@, id),
    }
}

/// The role a token carries: the admin's role, nothing for the other kinds.
pub open spec fn principal_role(acc: AccountStore, kind: UserType, i: int) -> Option<Seq<char>> {
    match kind {
        UserType::Admin => Some(acc.admins@[i].role@),
        _ => None,
    }
}

/// The verified flag a token carries: admins always count as verified.
pub open spec fn principal_verified(acc: AccountStore, kind: UserType, i: int) -> bool {
    match kind {
        UserType::Player => acc.players@[i].verified,
        UserType::Admin => true,
        UserType::Organization => acc.organizations@[i].email_verified,
    }
}

/// The session alive at `now` that holds `refresh`, if any (there is at most one).
pub open spec fn live_refresh(sessions: Seq<SessionView>, refresh: Seq<char>, now: u64) -> Option<SessionView> {
    if exists|x: SessionView| #[trigger] sessions.contains(x) && x.refresh_token == refresh && now < x.expires_at {
        Some(choose|x: SessionView| #[trigger] sessions.contains(x) && x.refresh_token == refresh && now < x.expires_at)
    } else {
        None
    }
}

/// A live session found by its refresh token is the one that `live_refresh` names.
pub proof fn lemma_live_refresh_unique(sessions: Seq<SessionView>, refresh: Seq<char>, now: u64, s: SessionView)
    requires
        crate::session::sessions_wf(sessions),
        sessions.contains(s),
        s.refresh_token == refresh,
        now < s.expires_at,
    ensures
        live_refresh(sessions, refresh, now) == Some(s),
{
    let x = choose|x: SessionView| #[trigger] sessions.contains(x) && x.refresh_token == refresh && now < x.expires_at;
    let a = choose|a: int| 0 <= a < sessions.len() && sessions[a] == x;
    let b = choose|b: int| 0 <= b < sessions.len() && sessions[b] == s;
    if a != b {
        assert(sessions[a].refresh_token != sessions[b].refresh_token);
    }
}

/// Whether the client at `ip` is over the limit for `action`.
pub open spec fn over_limit(limiter: RateLimiter, ip: Option<String>, action: Seq<char>, limit: u64, now: u64) -> bool {
    match ip {
        Some(ip) => recent_count(limiter.view(), ip@, action, now, window_seconds(LIMIT_WINDOW_MINUTES)) >= limit,
        None => false,
    }
}

pub open spec fn login_action() -> Seq<char> {
    seq!['l', 'o', 'g', 'i', 'n']
}

pub open spec fn register_action() -> Seq<char> {
    seq!['r', 'e', 'g', 'i', 's', 't', 'e', 'r']
}

/// A token and a session issued together for a principal: the session is the one
/// added last, it records the client's address and agent and lives `ttl` seconds,
/// and the token signs the claims that name it.
pub open spec fn issued(
    before: Seq<SessionView>,
    after: Seq<SessionView>,
    token: Seq<char>,
    s: SessionView,
    secret: Seq<char>,
    sub: Seq<char>,
    kind: UserType,
    role: Option<Seq<char>>,
    verified: bool,
    ip: Option<String>,
    ua: Option<String>,
    now: u64,
    days: u64,
    ttl: u64,
) -> bool {
    let c = issued_claims(sub, kind, role, s.id, verified, now, days);
    &&& after == before.push(s)
    &&& s.user_id == sub
    &&& s.user_type == kind
    &&& s.ip_address == opt_view(ip)
    &&& s.user_agent == opt_view(ua)
    &&& s.created_at == now
    &&& s.expires_at == session_expiry(now, ttl)
    &&& token == signed_token(claims_payload(c), secret)
    &&& verified_payload(token, secret) == payload_ok(claims_payload(c))
}

/// What a successful registration of the new account `id` of kind `kind` gives:
/// the response names it, unverified; one session is added for it with the
/// response's id and refresh token; the token is bound to that session; and one
/// success entry is logged.
pub open spec fn registered(pre: AuthService, post: AuthService, resp: AuthResponse, id: Seq<char>, kind: UserType, ip: Option<String>, ua: Option<String>, now: u64) -> bool {
    let s = post.sessions.view().last();
    &&& resp.user.id@ == id
    &&& resp.user.user_type == kind
    &&& !resp.user.verified
    &&& issued(pre.sessions.view(), post.sessions.view(), resp.token@, s, pre.config.jwt_secret@, id, kind, None, false,
        ip, ua, now, pre.config.jwt_expiration_days, pre.sessions.ttl)
    &&& s.id == resp.session_id@
    &&& s.refresh_token == resp.refresh_token@
    &&& post.audit@.len() == pre.audit@.len() + 1
    &&& post.audit@.drop_last() == pre.audit@
    &&& granted_entry(post.audit@.last(), id, kind, s.id, AuditAction::Register, ip, ua)
}

/// Nothing but the rate limiter changed.
pub open spec fn unchanged(pre: AuthService, post: AuthService) -> bool {
    post.accounts == pre.accounts && post.sessions == pre.sessions && post.audit == pre.audit
}

/// What a player registration does: the first missing or taken field is a
/// validation error and changes nothing; otherwise a new unverified player with the
/// request's email and username and a hash of its password is added, and on success
/// it holds a new session and a token bound to it. Every failure changes nothing.
pub open spec fn player_registration(pre: AuthService, post: AuthService, req: RegisterRequest, r: Result<AuthResponse, AuthError>, ip: Option<String>, ua: Option<String>, now: u64) -> bool {
    match req.username {
        None => r == Err::<AuthResponse, AuthError>(AuthError::Validation(Field::Username)) && unchanged(pre, post),
        Some(username) => if email_taken_by_player(pre.accounts.players@, req.email@) {
            r == Err::<AuthResponse, AuthError>(AuthError::Validation(Field::Email)) && unchanged(pre, post)
        } else if username_taken(pre.accounts.players@, username@) {
            r == Err::<AuthResponse, AuthError>(AuthError::Validation(Field::Username)) && unchanged(pre, post)
        } else {
            match r {
                Ok(resp) => {
                    let p = post.accounts.players@.last();
                    &&& post.accounts.players@ == pre.accounts.players@.push(p)
                    &&& post.accounts.admins@ == pre.accounts.admins@
                    &&& post.accounts.organizations@ == pre.accounts.organizations@
                    &&& p.email@ == req.email@
                    &&& p.username@ == username@
                    &&& !p.verified
                    &&& p.verification_token is Some
                    &&& bcrypt_verdict(req.password@, p.password_hash@) == Some(true)
                    &&& opt_view(resp.user.username) == Some(username@)
                    &&& registered(pre, post, resp, p.id@, UserType::Player, ip, ua, now)
                },
                Err(e) => e == AuthError::Internal && unchanged(pre, post),
            }
        },
    }
}

/// What an organization registration does: the first missing field, or a taken
/// email, is a validation error and changes nothing; otherwise a new organization
/// pending approval is added, and on success it holds a new session and a token.
/// Every failure changes nothing.
pub open spec fn org_registration(pre: AuthService, post: AuthService, req: RegisterRequest, r: Result<AuthResponse, AuthError>, ip: Option<String>, ua: Option<String>, now: u64) -> bool {
    if req.org_name is None {
        r == Err::<AuthResponse, AuthError>(AuthError::Validation(Field::OrgName)) && unchanged(pre, post)
    } else if req.owner_name is None {
        r == Err::<AuthResponse, AuthError>(AuthError::Validation(Field::OwnerName)) && unchanged(pre, post)
    } else if req.country is None {
        r == Err::<AuthResponse, AuthError>(AuthError::Validation(Field::Country)) && unchanged(pre, post)
    } else if req.description is None {
        r == Err::<AuthResponse, AuthError>(AuthError::Validation(Field::Description)) && unchanged(pre, post)
    } else if email_taken_by_org(pre.accounts.organizations@, req.email@) {
        r == Err::<AuthResponse, AuthError>(AuthError::Validation(Field::Email)) && unchanged(pre, post)
    } else {
        match r {
            Ok(resp) => {
                let o = post.accounts.organizations@.last();
                &&& post.accounts.organizations@ == pre.accounts.organizations@.push(o)
                &&& post.accounts.players@ == pre.accounts.players@
                &&& post.accounts.admins@ == pre.accounts.admins@
                &&& o.email@ == req.email@
                &&& o.org_name@ == req.org_name->0@
                &&& o.owner_name@ == req.owner_name->0@
                &&& o.country@ == req.country->0@
                &&& o.description@ == req.description->0@
                &&& o.approval_status == ApprovalStatus::Pending
                &&& !o.email_verified
                &&& bcrypt_verdict(req.password@, o.password_hash@) == Some(true)
                &&& opt_view(resp.user.approval_status) == Some(ApprovalStatus::Pending.name())
                &&& opt_view(resp.user.org_name) == Some(req.org_name->0@)
                &&& registered(pre, post, resp, o.id@, UserType::Organization, ip, ua, now)
            },
            Err(e) => e == AuthError::Internal && unchanged(pre, post),
        }
    }
}

/// What a successful grant to account `i` of kind `kind` gives: the response names
/// the account, one session is added for it with the response's id and refresh
/// token, the token is bound to that session, and one success entry is logged.
pub open spec fn granted(pre: AuthService, post: AuthService, resp: AuthResponse, kind: UserType, i: int, action: AuditAction, ip: Option<String>, ua: Option<String>, now: u64) -> bool {
    let id = principal_id(pre.accounts, kind, i);
    let s = post.sessions.view().last();
    &&& resp.user.id@ == id
    &&& resp.user.user_type == kind
    &&& resp.user.verified == principal_verified(pre.accounts, kind, i)
    &&& kind == UserType::Organization ==> opt_view(resp.user.approval_status) == Some(
        pre.accounts.organizations@[i].approval_status.name())
    &&& kind == UserType::Organization ==> opt_view(resp.user.org_name) == Some(pre.accounts.organizations@[i].org_name@)
    &&& kind == UserType::Player ==> opt_view(resp.user.username) == Some(pre.accounts.players@[i].username@)
    &&& issued(pre.sessions.view(), post.sessions.view(), resp.token@, s, pre.config.jwt_secret@, id, kind,
        principal_role(pre.accounts, kind, i), principal_verified(pre.accounts, kind, i), ip, ua, now,
        pre.config.jwt_expiration_days, pre.sessions.ttl)
    &&& s.id == resp.session_id@
    &&& s.refresh_token == resp.refresh_token@
    &&& post.audit@.len() == pre.audit@.len() + 1
    &&& post.audit@.drop_last() == pre.audit@
    &&& granted_entry(post.audit@.last(), id, kind, s.id, action, ip, ua)
}

/// The authentication service: accounts, sessions, rate limits and the audit log.
pub struct AuthService {
    pub config: AuthConfig,
    pub accounts: AccountStore,
    pub sessions: SessionStore,
    pub limiter: RateLimiter,
    pub audit: Vec<AuditEntry>,
}

impl AuthService {
    pub open spec fn wf(&self) -> bool {
        self.accounts.wf() && self.sessions.wf()
    }

    /// A service with no accounts, no sessions and the given settings; sessions live
    /// as long as tokens.
    pub fn new(jwt_secret: String, jwt_expiration_days: u64, hash_cost: u32) -> (r: AuthService)
        ensures
            r.wf(),
            r.config.jwt_secret@ == jwt_secret@,
            r.config.jwt_expiration_days == jwt_expiration_days,
            r.config.hash_cost == hash_cost,
            r.accounts.players@.len() == 0,
            r.accounts.admins@.len() == 0,
            r.accounts.organizations@.len() == 0,
            r.sessions.view().len() == 0,
            r.limiter.view().len() == 0,
    {
        let ttl = if jwt_expiration_days <= u64::MAX / SECONDS_PER_DAY {
            jwt_expiration_days * SECONDS_PER_DAY
        } else {
            u64::MAX
        };
        AuthService {
            config: AuthConfig { jwt_secret, jwt_expiration_days, hash_cost },
            accounts: AccountStore::new(),
            sessions: SessionStore::new(ttl),
            limiter: RateLimiter::new(),
            audit: Vec::new(),
        }
    }

    fn record(&mut self, entry: AuditEntry)
        ensures
            final(self).config == old(self).config,
            final(self).accounts == old(self).accounts,
            final(self).sessions == old(self).sessions,
            final(self).limiter == old(self).limiter,
            final(self).audit@ == old(self).audit@.push(entry),
    {
        self.audit.push(entry);
    }

    /// Opens the session `session_id` with refresh token `refresh_token` for a
    /// principal and signs a token bound to it. It succeeds exactly when neither value
    /// is in use; otherwise it is `Internal` and the store is as it was.
    fn open_session(&mut self, sub: &String, kind: UserType, role: Option<String>, verified: bool, session_id: String, refresh_token: String, ip_address: &Option<String>, user_agent: &Option<String>, now: u64) -> (r: Result<(String, Session), AuthError>)
        requires
            old(self).wf(),
        ensures
            final(self).wf(),
            final(self).config == old(self).config,
            final(self).accounts == old(self).accounts,
            final(self).limiter == old(self).limiter,
            final(self).audit == old(self).audit,
            final(self).sessions.ttl == old(self).sessions.ttl,
            fresh_ids(old(self).sessions.view(), session_id@, refresh_token@) <==> r is Ok,
            match r {
                Ok((t, s)) => issued(old(self).sessions.view(), final(self).sessions.view(), t@, s@,
                    old(self).config.jwt_secret@, sub@, kind, opt_view(role), verified, *ip_address, *user_agent, now,
                    old(self).config.jwt_expiration_days, old(self).sessions.ttl)
                    && s@.id == session_id@ && s@.refresh_token == refresh_token@,
                Err(e) => e == AuthError::Internal && final(self).sessions.view() == old(self).sessions.view(),
            },
    {
        let exp = if self.config.jwt_expiration_days <= (u64::MAX - now) / SECONDS_PER_DAY {
            self.config.jwt_expiration_days * SECONDS_PER_DAY + now
        } else {
            u64::MAX
        };
        let claims = Claims {
            sub: sub.clone(),
            user_type: kind,
            role,
            session_id: session_id.clone(),
            verified,
            exp,
            iat: now,
        };
        let token = encode_token(&claims, self.config.jwt_secret.as_str());
        let ghost sid = session_id@;
        let ghost rt = refresh_token@;
        let session = match self.sessions.create_session(
            session_id,
            refresh_token,
            sub.clone(),
            kind,
            copy_opt(ip_address),
            copy_opt(user_agent),
            now,
        ) {
            Ok(s) => s,
            Err(_) => {
                proof {
                    let v = old(self).sessions.view();
                    if fresh_ids(v, sid, rt) {
                        assert forall|j: int| 0 <= j < v.len() implies (#[trigger] v[j]).id != sid && v[j].refresh_token != rt by {}
                    }
                }
                return Err(AuthError::Internal);
            },
        };
        proof {
            let v = old(self).sessions.view();
            assert forall|j: int| 0 <= j < v.len() implies (#[trigger] v[j]).id != sid && v[j].refresh_token != rt by {
                if v[j].id == sid {
                    assert(exists|k: int| 0 <= k < v.len() && (#[trigger] v[k]).id == sid);
                }
                if v[j].refresh_token == rt {
                    assert(exists|k: int| 0 <= k < v.len() && (#[trigger] v[k]).refresh_token == rt);
                }
            }
        }
        assert(claims@ == issued_claims(sub@, kind, claims@.role, session@.id, verified, now, self.config.jwt_expiration_days));
        Ok((token, session))
    }

    /// The message that accompanies a new token for each kind.
    fn welcome(kind: UserType) -> (r: String) {
        match kind {
            UserType::Player => String::from_str("Player registration successful. Please verify your email."),
            UserType::Organization => String::from_str("Organization registration successful. Pending admin approval."),
            UserType::Admin => String::from_str("Admin login successful."),
        }
    }

    /// The public view of the account `i` of kind `kind`.
    fn user_info(&self, kind: UserType, i: usize) -> (r: UserInfo)
        requires
            match kind {
                UserType::Player => i < self.accounts.players@.len(),
                UserType::Admin => i < self.accounts.admins@.len(),
                UserType::Organization => i < self.accounts.organizations@.len(),
            },
        ensures
            r.id@ == principal_id(self.accounts, kind, i as int),
            r.user_type == kind,
            r.verified == principal_verified(self.accounts, kind, i as int),
            kind == UserType::Organization ==> opt_view(r.approval_status) == Some(
                self.accounts.organizations@[i as int].approval_status.name()),
            kind == UserType::Organization ==> opt_view(r.org_name) == Some(self.accounts.organizations@[i as int].org_name@),
            kind == UserType::Player ==> opt_view(r.username) == Some(self.accounts.players@[i as int].username@),
            kind == UserType::Player ==> r.approval_status is None,
    {
        match kind {
            UserType::Player => {
                let p = &self.accounts.players[i];
                UserInfo {
                    id: p.id.clone(),
                    email: p.email.clone(),
                    username: Some(p.username.clone()),
                    org_name: None,
                    user_type: kind,
                    verified: p.verified,
                    approval_status: None,
                }
            },
            UserType::Admin => {
                let a = &self.accounts.admins[i];
                UserInfo {
                    id: a.id.clone(),
                    email: a.email.clone(),
                    username: Some(a.username.clone()),
                    org_name: None,
                    user_type: kind,
                    verified: true,
                    approval_status: Some(
                        if a.is_active {
                            String::from_str("active")
                        } else {
                            String::from_str("inactive")
                        },
                    ),
                }
            },
            UserType::Organization => {
                let o = &self.accounts.organizations[i];
                UserInfo {
                    id: o.id.clone(),
                    email: o.email.clone(),
                    username: None,
                    org_name: Some(o.org_name.clone()),
                    user_type: kind,
                    verified: o.email_verified,
                    approval_status: Some(String::from_str(o.approval_status.as_str())),
                }
            },
        }
    }

    /// Opens the session `session_id` for account `i` of kind `kind`, signs its
    /// token, records the success under `action` and builds the response. It
    /// succeeds exactly when the session id and refresh token are unused; otherwise
    /// it is `Internal` and nothing changes.
    fn grant(&mut self, kind: UserType, i: usize, action: AuditAction, session_id: String, refresh_token: String, ip_address: &Option<String>, user_agent: &Option<String>, now: u64) -> (r: Result<AuthResponse, AuthError>)
        requires
            old(self).wf(),
            match kind {
                UserType::Player => i < old(self).accounts.players@.len(),
                UserType::Admin => i < old(self).accounts.admins@.len(),
                UserType::Organization => i < old(self).accounts.organizations@.len(),
            },
        ensures
            final(self).wf(),
            final(self).config == old(self).config,
            final(self).accounts == old(self).accounts,
            final(self).limiter == old(self).limiter,
            final(self).sessions.ttl == old(self).sessions.ttl,
            fresh_ids(old(self).sessions.view(), session_id@, refresh_token@) <==> r is Ok,
            match r {
                Ok(resp) => granted(*old(self), *final(self), resp, kind, i as int, action, *ip_address, *user_agent, now)
                    && resp.session_id@ == session_id@ && resp.refresh_token@ == refresh_token@,
                Err(e) => e == AuthError::Internal && final(self).sessions.view() == old(self).sessions.view()
                    && final(self).audit@ == old(self).audit@,
            },
    {
        let user = self.user_info(kind, i);
        let role = match kind {
            UserType::Admin => Some(self.accounts.admins[i].role.clone()),
            _ => None,
        };
        assert(opt_view(role) == principal_role(self.accounts, kind, i as int));
        let (token, session) = match self.open_session(&user.id, kind, role, user.verified, session_id, refresh_token, ip_address, user_agent, now) {
            Ok(pair) => pair,
            Err(e) => {
                return Err(e);
            },
        };
        let ghost s = session@;
        let entry = AuditEntry {
            actor_id: Some(user.id.clone()),
            actor_type: Some(kind),
            session_id: Some(session.id.clone()),
            action,
            target_type: Some(target_for(kind)),
            target_id: Some(user.id.clone()),
            ip_address: copy_opt(ip_address),
            user_agent: copy_opt(user_agent),
            success: true,
            error_message: None,
        };
        self.record(entry);
        assert(self.audit@.drop_last() =~= old(self).audit@);
        let resp = AuthResponse {
            message: Self::welcome(kind),
            token,
            refresh_token: session.refresh_token,
            session_id: session.id,
            user,
        };
        assert(self.sessions.view().last() == s);
        Ok(resp)
    }

    /// Like `grant`, under a fresh random session id and refresh token. It fails,
    /// with `Internal` and nothing changed, only when one of those values is already
    /// in use, which needs a session to be stored.
    fn grant_fresh(&mut self, kind: UserType, i: usize, action: AuditAction, ip_address: &Option<String>, user_agent: &Option<String>, now: u64) -> (r: Result<AuthResponse, AuthError>)
        requires
            old(self).wf(),
            match kind {
                UserType::Player => i < old(self).accounts.players@.len(),
                UserType::Admin => i < old(self).accounts.admins@.len(),
                UserType::Organization => i < old(self).accounts.organizations@.len(),
            },
        ensures
            final(self).wf(),
            final(self).config == old(self).config,
            final(self).accounts == old(self).accounts,
            final(self).limiter == old(self).limiter,
            final(self).sessions.ttl == old(self).sessions.ttl,
            match r {
                Ok(resp) => granted(*old(self), *final(self), resp, kind, i as int, action, *ip_address, *user_agent, now),
                Err(e) => e == AuthError::Internal && final(self).sessions.view() == old(self).sessions.view()
                    && final(self).audit@ == old(self).audit@ && old(self).sessions.view().len() > 0,
            },
    {
        let session_id = new_uuid();
        let refresh_token = new_uuid();
        self.grant(kind, i, action, session_id, refresh_token, ip_address, user_agent, now)
    }

    /// Logs in with an email and a password. A client over five attempts within the
    /// hour is refused before any account is looked at. Players are tried first, then
    /// admins, then organizations; the first kind whose check succeeds gets a new
    /// session and a token bound to it. When none does, the failure is recorded and
    /// the result is `Unauthorized`.
    pub fn login(&mut self, email: &str, password: &str, ip_address: Option<String>, user_agent: Option<String>, now: u64) -> (r: Result<AuthResponse, AuthError>)
        requires
            old(self).wf(),
        ensures
            final(self).wf(),
            final(self).config == old(self).config,
            over_limit(old(self).limiter, ip_address, login_action(), LOGIN_LIMIT, now) ==> {
                &&& r == Err::<AuthResponse, AuthError>(AuthError::RateLimited)
                &&& final(self).accounts == old(self).accounts
                &&& final(self).sessions == old(self).sessions
                &&& final(self).audit == old(self).audit
            },
            !over_limit(old(self).limiter, ip_address, login_action(), LOGIN_LIMIT, now) ==> {
                &&& final(self).accounts.players@ == old(self).accounts.players@
                &&& final(self).accounts.organizations@ == old(self).accounts.organizations@
                &&& player_login_spec(old(self).accounts.players@, email@, password@) == Ok::<Option<int>, AuthError>(None)
                    ==> final(self).accounts.admins@ == admins_after_attempt(old(self).accounts.admins@, email@, password@, now)
                &&& player_login_spec(old(self).accounts.players@, email@, password@) != Ok::<Option<int>, AuthError>(None)
                    ==> final(self).accounts.admins@ == old(self).accounts.admins@
                &&& match login_choice(old(self).accounts, email@, password@, now) {
                    Err(e) => r == Err::<AuthResponse, AuthError>(e) && final(self).sessions == old(self).sessions
                        && final(self).audit == old(self).audit,
                    Ok(None) => {
                        &&& r == Err::<AuthResponse, AuthError>(AuthError::Unauthorized)
                        &&& final(self).sessions == old(self).sessions
                        &&& final(self).audit@.len() == old(self).audit@.len() + 1
                        &&& final(self).audit@.drop_last() == old(self).audit@
                        &&& failed_login_entry(final(self).audit@.last(), ip_address, user_agent)
                    },
                    Ok(Some((kind, i))) => match r {
                        Ok(resp) => granted(*old(self), *final(self), resp, kind, i, AuditAction::Login, ip_address, user_agent, now),
                        Err(e) => e == AuthError::Internal && final(self).sessions.view() == old(self).sessions.view()
                            && final(self).audit@ == old(self).audit@ && old(self).sessions.view().len() > 0,
                    },
                }
            },
    {
        proof {
            reveal_strlit("login");
            assert("login"@ =~= login_action());
        }
        if let Some(ip) = &ip_address {
            if let Err(e) = self.limiter.check_rate_limit(ip.as_str(), "login", LOGIN_LIMIT, LIMIT_WINDOW_MINUTES, now) {
                return Err(e);
            }
        }
        match self.accounts.authenticate_player(email, password) {
            Err(e) => {
                return Err(e);
            },
            Ok(Some(i)) => {
                return self.grant_fresh(UserType::Player, i, AuditAction::Login, &ip_address, &user_agent, now);
            },
            Ok(None) => {},
        }
        match self.accounts.authenticate_admin(email, password, now) {
            Err(e) => {
                return Err(e);
            },
            Ok(Some(i)) => {
                proof {
                    assert(self.accounts.admins@ == old(self).accounts.admins@);
                    assert(principal_id(self.accounts, UserType::Admin, i as int) == principal_id(old(self).accounts, UserType::Admin, i as int));
                    assert(principal_role(self.accounts, UserType::Admin, i as int) == principal_role(old(self).accounts, UserType::Admin, i as int));
                }
                return self.grant_fresh(UserType::Admin, i, AuditAction::Login, &ip_address, &user_agent, now);
            },
            Ok(None) => {},
        }
        match self.accounts.authenticate_organization(email, password) {
            Err(e) => {
                return Err(e);
            },
            Ok(Some(i)) => {
                proof {
                    assert(principal_id(self.accounts, UserType::Organization, i as int) == principal_id(old(self).accounts, UserType::Organization, i as int));
                    assert(principal_verified(self.accounts, UserType::Organization, i as int) == principal_verified(old(self).accounts, UserType::Organization, i as int));
                }
                return self.grant_fresh(UserType::Organization, i, AuditAction::Login, &ip_address, &user_agent, now);
            },
            Ok(None) => {},
        }
        let message = String::from_str("Invalid credentials");
        let entry = AuditEntry {
            actor_id: None,
            actor_type: None,
            session_id: None,
            action: AuditAction::Login,
            target_type: None,
            target_id: None,
            ip_address: copy_opt(&ip_address),
            user_agent: copy_opt(&user_agent),
            success: false,
            error_message: Some(message),
        };
        self.record(entry);
        assert(self.audit@.drop_last() =~= old(self).audit@);
        Err(AuthError::Unauthorized)
    }

    /// Registers an account of the kind that `req.user_type` names and logs it in.
    /// A client over three registrations within the hour is refused first. Players
    /// need a username; organizations need a name, an owner, a country and a
    /// description, asked for in that order. An email (or a player username) that is
    /// already taken is a validation error; admins cannot register.
    pub fn register(&mut self, req: RegisterRequest, ip_address: Option<String>, user_agent: Option<String>, now: u64) -> (r: Result<AuthResponse, AuthError>)
        requires
            old(self).wf(),
        ensures
            final(self).wf(),
            final(self).config == old(self).config,
            over_limit(old(self).limiter, ip_address, register_action(), REGISTER_LIMIT, now) ==> {
                &&& r == Err::<AuthResponse, AuthError>(AuthError::RateLimited)
                &&& unchanged(*old(self), *final(self))
            },
            !over_limit(old(self).limiter, ip_address, register_action(), REGISTER_LIMIT, now) ==> {
                &&& final(self).accounts.admins@ == old(self).accounts.admins@
                &&& match UserType::spec_from_name(req.user_type@) {
                    Some(UserType::Player) => player_registration(*old(self), *final(self), req, r, ip_address, user_agent, now),
                    Some(UserType::Organization) => org_registration(*old(self), *final(self), req, r, ip_address, user_agent, now),
                    _ => r == Err::<AuthResponse, AuthError>(AuthError::Validation(Field::UserType))
                        && unchanged(*old(self), *final(self)),
                }
            },
    {
        proof {
            reveal_strlit("register");
            assert("register"@ =~= register_action());
        }
        if let Some(ip) = &ip_address {
            if let Err(e) = self.limiter.check_rate_limit(ip.as_str(), "register", REGISTER_LIMIT, LIMIT_WINDOW_MINUTES, now) {
                return Err(e);
            }
        }
        match UserType::from_name(req.user_type.as_str()) {
            Some(UserType::Player) => self.register_player(req, &ip_address, &user_agent, now),
            Some(UserType::Organization) => self.register_organization(req, &ip_address, &user_agent, now),
            _ => Err(AuthError::Validation(Field::UserType)),
        }
    }

    fn register_player(&mut self, req: RegisterRequest, ip_address: &Option<String>, user_agent: &Option<String>, now: u64) -> (r: Result<AuthResponse, AuthError>)
        requires
            old(self).wf(),
        ensures
            final(self).wf(),
            final(self).config == old(self).config,
            final(self).accounts.admins@ == old(self).accounts.admins@,
            player_registration(*old(self), *final(self), req, r, *ip_address, *user_agent, now),
    {
        let username = match &req.username {
            Some(u) => u,
            None => {
                return Err(AuthError::Validation(Field::Username));
            },
        };
        if self.accounts.find_player_by_email(req.email.as_str()).is_some() {
            return Err(AuthError::Validation(Field::Email));
        }
        if self.accounts.player_username_taken(username.as_str()) {
            return Err(AuthError::Validation(Field::Username));
        }
        let hash = match crate::password::hash_password(req.password.as_str(), self.config.hash_cost) {
            Some(h) => h,
            None => {
                return Err(AuthError::Internal);
            },
        };
        let id = new_uuid();
        let verification_token = new_uuid();
        let session_id = new_uuid();
        let refresh_token = new_uuid();
        let name = username.clone();
        self.complete_player_registration(req.email, name, hash, id, verification_token, session_id, refresh_token, ip_address, user_agent, now)
    }

    /// Adds a player with an already hashed password and the given id and
    /// verification token, then opens its first session. A taken email or username is
    /// a validation error; an id, session id or refresh token already in use is
    /// `Internal`; either way nothing changes. Otherwise it succeeds.
    pub fn complete_player_registration(
        &mut self,
        email: String,
        username: String,
        password_hash: String,
        id: String,
        verification_token: String,
        session_id: String,
        refresh_token: String,
        ip_address: &Option<String>,
        user_agent: &Option<String>,
        now: u64,
    ) -> (r: Result<AuthResponse, AuthError>)
        requires
            old(self).wf(),
        ensures
            final(self).wf(),
            final(self).config == old(self).config,
            final(self).limiter == old(self).limiter,
            if email_taken_by_player(old(self).accounts.players@, email@) {
                r == Err::<AuthResponse, AuthError>(AuthError::Validation(Field::Email)) && unchanged(*old(self), *final(self))
            } else if username_taken(old(self).accounts.players@, username@) {
                r == Err::<AuthResponse, AuthError>(AuthError::Validation(Field::Username)) && unchanged(*old(self), *final(self))
            } else if (exists|j: int| 0 <= j < old(self).accounts.players@.len() && (#[trigger] old(self).accounts.players@[j]).id@ == id@)
                || !fresh_ids(old(self).sessions.view(), session_id@, refresh_token@) {
                r == Err::<AuthResponse, AuthError>(AuthError::Internal) && unchanged(*old(self), *final(self))
            } else {
                r matches Ok(resp) && {
                    &&& final(self).accounts.players@ == old(self).accounts.players@.push(Player {
                        id,
                        email,
                        username,
                        password_hash,
                        verified: false,
                        verification_token: Some(verification_token),
                        reset_token: None,
                        reset_expiry: None,
                    })
                    &&& final(self).accounts.admins@ == old(self).accounts.admins@
                    &&& final(self).accounts.organizations@ == old(self).accounts.organizations@
                    &&& opt_view(resp.user.username) == Some(username@)
                    &&& resp.session_id@ == session_id@
                    &&& resp.refresh_token@ == refresh_token@
                    &&& registered(*old(self), *final(self), resp, id@, UserType::Player, *ip_address, *user_agent, now)
                }
            },
    {
        if self.accounts.find_player_by_email(email.as_str()).is_some() {
            return Err(AuthError::Validation(Field::Email));
        }
        if self.accounts.player_username_taken(username.as_str()) {
            return Err(AuthError::Validation(Field::Username));
        }
        if self.accounts.player_id_taken(id.as_str()) {
            return Err(AuthError::Internal);
        }
        if !self.sessions_fresh(session_id.as_str(), refresh_token.as_str()) {
            return Err(AuthError::Internal);
        }
        let player = Player {
            id,
            email,
            username,
            password_hash,
            verified: false,
            verification_token: Some(verification_token),
            reset_token: None,
            reset_expiry: None,
        };
        let ghost added = player;
        self.accounts.add_player(player);
        let i = self.accounts.players.len() - 1;
        let ghost mid = *self;
        let r = self.grant(UserType::Player, i, AuditAction::Register, session_id, refresh_token, ip_address, user_agent, now);
        assert(mid.accounts.players@[i as int] == added);
        r
    }

    /// Whether no session holds `id` as its id or `refresh` as its refresh token.
    fn sessions_fresh(&self, id: &str, refresh: &str) -> (r: bool)
        ensures
            r == fresh_ids(self.sessions.view(), id@, refresh@),
    {
        let v = &self.sessions.sessions;
        let mut i: usize = 0;
        while i < v.len()
            invariant
                v@ == self.sessions.sessions@,
                i <= v@.len(),
                forall|j: int| 0 <= j < i ==> (#[trigger] self.sessions.view()[j]).id != id@
                    && self.sessions.view()[j].refresh_token != refresh@,
            decreases v@.len() - i,
        {
            if crate::text::str_eq(v[i].id.as_str(), id) || crate::text::str_eq(v[i].refresh_token.as_str(), refresh) {
                assert(self.sessions.view()[i as int] == v@[i as int]@);
                return false;
            }
            i = i + 1;
        }
        true
    }

    fn register_organization(&mut self, req: RegisterRequest, ip_address: &Option<String>, user_agent: &Option<String>, now: u64) -> (r: Result<AuthResponse, AuthError>)
        requires
            old(self).wf(),
        ensures
            final(self).wf(),
            final(self).config == old(self).config,
            final(self).accounts.admins@ == old(self).accounts.admins@,
            org_registration(*old(self), *final(self), req, r, *ip_address, *user_agent, now),
    {
        let org_name = match &req.org_name {
            Some(v) => v,
            None => {
                return Err(AuthError::Validation(Field::OrgName));
            },
        };
        let owner_name = match &req.owner_name {
            Some(v) => v,
            None => {
                return Err(AuthError::Validation(Field::OwnerName));
            },
        };
        let country = match &req.country {
            Some(v) => v,
            None => {
                return Err(AuthError::Validation(Field::Country));
            },
        };
        let description = match &req.description {
            Some(v) => v,
            None => {
                return Err(AuthError::Validation(Field::Description));
            },
        };
        if self.accounts.find_organization_by_email(req.email.as_str()).is_some() {
            return Err(AuthError::Validation(Field::Email));
        }
        let hash = match crate::password::hash_password(req.password.as_str(), self.config.hash_cost) {
            Some(h) => h,
            None => {
                return Err(AuthError::Internal);
            },
        };
        let id = new_uuid();
        let session_id = new_uuid();
        let refresh_token = new_uuid();
        let details = OrganizationDetails {
            org_name: org_name.clone(),
            owner_name: owner_name.clone(),
            country: country.clone(),
            description: description.clone(),
        };
        self.complete_organization_registration(req.email, details, hash, id, session_id, refresh_token, ip_address, user_agent, now)
    }

    /// Adds an organization, pending approval, with an already hashed password and
    /// the given id, then opens its first session. A taken email is a validation
    /// error; an id, session id or refresh token already in use is `Internal`; either
    /// way nothing changes. Otherwise it succeeds.
    pub fn complete_organization_registration(
        &mut self,
        email: String,
        details: OrganizationDetails,
        password_hash: String,
        id: String,
        session_id: String,
        refresh_token: String,
        ip_address: &Option<String>,
        user_agent: &Option<String>,
        now: u64,
    ) -> (r: Result<AuthResponse, AuthError>)
        requires
            old(self).wf(),
        ensures
            final(self).wf(),
            final(self).config == old(self).config,
            final(self).limiter == old(self).limiter,
            if email_taken_by_org(old(self).accounts.organizations@, email@) {
                r == Err::<AuthResponse, AuthError>(AuthError::Validation(Field::Email)) && unchanged(*old(self), *final(self))
            } else if (exists|j: int| 0 <= j < old(self).accounts.organizations@.len() && (#[trigger] old(self).accounts.organizations@[j]).id@ == id@)
                || !fresh_ids(old(self).sessions.view(), session_id@, refresh_token@) {
                r == Err::<AuthResponse, AuthError>(AuthError::Internal) && unchanged(*old(self), *final(self))
            } else {
                r matches Ok(resp) && {
                    &&& final(self).accounts.organizations@ == old(self).accounts.organizations@.push(Organization {
                        id,
                        email,
                        org_name: details.org_name,
                        owner_name: details.owner_name,
                        country: details.country,
                        description: details.description,
                        password_hash,
                        approval_status: ApprovalStatus::Pending,
                        email_verified: false,
                    })
                    &&& final(self).accounts.players@ == old(self).accounts.players@
                    &&& final(self).accounts.admins@ == old(self).accounts.admins@
                    &&& opt_view(resp.user.approval_status) == Some(ApprovalStatus::Pending.name())
                    &&& opt_view(resp.user.org_name) == Some(details.org_name@)
                    &&& resp.session_id@ == session_id@
                    &&& resp.refresh_token@ == refresh_token@
                    &&& registered(*old(self), *final(self), resp, id@, UserType::Organization, *ip_address, *user_agent, now)
                }
            },
    {
        if self.accounts.find_organization_by_email(email.as_str()).is_some() {
            return Err(AuthError::Validation(Field::Email));
        }
        if self.accounts.organization_id_taken(id.as_str()) {
            return Err(AuthError::Internal);
        }
        if !self.sessions_fresh(session_id.as_str(), refresh_token.as_str()) {
            return Err(AuthError::Internal);
        }
        let org = Organization {
            id,
            email,
            org_name: details.org_name,
            owner_name: details.owner_name,
            country: details.country,
            description: details.description,
            password_hash,
            approval_status: ApprovalStatus::Pending,
            email_verified: false,
        };
        let ghost added = org;
        self.accounts.add_organization(org);
        let i = self.accounts.organizations.len() - 1;
        let ghost mid = *self;
        let r = self.grant(UserType::Organization, i, AuditAction::Register, session_id, refresh_token, ip_address, user_agent, now);
        assert(mid.accounts.organizations@[i as int] == added);
        r
    }

    /// The index of the account of kind `kind` with id `id`.
    fn find_principal(&self, kind: UserType, id: &str) -> (r: Option<usize>)
        requires
            self.wf(),
        ensures
            index_opt(r) == principal_with_id(self.accounts, kind, id@),
            r matches Some(i) ==> principal_id(self.accounts, kind, i as int) == id@,
    {
        match kind {
            UserType::Player => self.accounts.find_player_by_id(id),
            UserType::Admin => self.accounts.find_admin_by_id(id),
            UserType::Organization => self.accounts.find_organization_by_id(id),
        }
    }

    /// Mints a new token for the session that holds `refresh_token`. No live
    /// session is `Unauthorized`; a session whose owner no longer exists is
    /// `NotFound`. Otherwise it succeeds: the owner's current role and verified flag
    /// go into a token bound to the same session, and the refresh token is not
    /// rotated. A failure changes nothing.
    pub fn refresh(&mut self, refresh_token: &str, ip_address: Option<String>, user_agent: Option<String>, now: u64) -> (r: Result<TokenResponse, AuthError>)
        requires
            old(self).wf(),
        ensures
            final(self).wf(),
            final(self).config == old(self).config,
            final(self).accounts == old(self).accounts,
            final(self).sessions == old(self).sessions,
            match live_refresh(old(self).sessions.view(), refresh_token@, now) {
                None => r == Err::<TokenResponse, AuthError>(AuthError::Unauthorized) && final(self).audit == old(self).audit,
                Some(x) => match principal_with_id(old(self).accounts, x.user_type, x.user_id) {
                    None => r == Err::<TokenResponse, AuthError>(AuthError::NotFound) && final(self).audit == old(self).audit,
                    Some(i) => r matches Ok(resp) && {
                        &&& resp.refresh_token@ == x.refresh_token
                        &&& resp.session_id@ == x.id
                        &&& resp.token@ == signed_token(claims_payload(issued_claims(x.user_id, x.user_type,
                            principal_role(old(self).accounts, x.user_type, i), x.id,
                            principal_verified(old(self).accounts, x.user_type, i), now, old(self).config.jwt_expiration_days)),
                            old(self).config.jwt_secret@)
                        &&& verified_payload(resp.token@, old(self).config.jwt_secret@) == payload_ok(claims_payload(
                            issued_claims(x.user_id, x.user_type, principal_role(old(self).accounts, x.user_type, i), x.id,
                                principal_verified(old(self).accounts, x.user_type, i), now, old(self).config.jwt_expiration_days)))
                        &&& final(self).audit@.len() == old(self).audit@.len() + 1
                        &&& final(self).audit@.drop_last() == old(self).audit@
                        &&& final(self).audit@.last().action == AuditAction::RefreshToken
                        &&& opt_view(final(self).audit@.last().actor_id) == Some(x.user_id)
                        &&& final(self).audit@.last().success
                    },
                },
            },
    {
        let session = match self.sessions.refresh_session(refresh_token, now) {
            Some(s) => s,
            None => {
                return Err(AuthError::Unauthorized);
            },
        };
        let kind = session.user_type;
        proof {
            lemma_live_refresh_unique(self.sessions.view(), refresh_token@, now, session@);
        }
        let i = match self.find_principal(kind, session.user_id.as_str()) {
            Some(i) => i,
            None => {
                return Err(AuthError::NotFound);
            },
        };
        let user = self.user_info(kind, i);
        let role = match kind {
            UserType::Admin => Some(self.accounts.admins[i].role.clone()),
            _ => None,
        };
        let exp = if self.config.jwt_expiration_days <= (u64::MAX - now) / SECONDS_PER_DAY {
            self.config.jwt_expiration_days * SECONDS_PER_DAY + now
        } else {
            u64::MAX
        };
        let claims = Claims {
            sub: session.user_id.clone(),
            user_type: kind,
            role,
            session_id: session.id.clone(),
            verified: user.verified,
            exp,
            iat: now,
        };
        let token = encode_token(&claims, self.config.jwt_secret.as_str());
        let ghost x = session@;
        assert(claims@ == issued_claims(x.user_id, x.user_type, principal_role(self.accounts, kind, i as int), x.id,
            principal_verified(self.accounts, kind, i as int), now, self.config.jwt_expiration_days));
        self.record(AuditEntry {
            actor_id: Some(session.user_id.clone()),
            actor_type: Some(kind),
            session_id: Some(session.id.clone()),
            action: AuditAction::RefreshToken,
            target_type: Some(AuditTarget::Session),
            target_id: Some(session.id.clone()),
            ip_address: copy_opt(&ip_address),
            user_agent: copy_opt(&user_agent),
            success: true,
            error_message: None,
        });
        let resp = TokenResponse { token, refresh_token: session.refresh_token, session_id: session.id };
        assert(self.audit@.drop_last() =~= old(self).audit@);
        Ok(resp)
    }

    /// Ends the session that `claims` names; nothing else changes but the audit log.
    pub fn logout(&mut self, claims: &Claims)
        requires
            old(self).wf(),
        ensures
            final(self).wf(),
            final(self).config == old(self).config,
            final(self).accounts == old(self).accounts,
            forall|x: SessionView| #[trigger] final(self).sessions.view().contains(x) <==> old(self).sessions.view().contains(x)
                && x.id != claims.session_id@,
    {
        self.sessions.revoke_session(claims.session_id.as_str());
        self.record(AuditEntry {
            actor_id: Some(claims.sub.clone()),
            actor_type: Some(claims.user_type),
            session_id: Some(claims.session_id.clone()),
            action: AuditAction::Logout,
            target_type: Some(AuditTarget::Session),
            target_id: Some(claims.session_id.clone()),
            ip_address: None,
            user_agent: None,
            success: true,
            error_message: None,
        });
    }

    /// Ends every session of the principal that `claims` names.
    pub fn revoke_all_sessions(&mut self, claims: &Claims)
        requires
            old(self).wf(),
        ensures
            final(self).wf(),
            final(self).config == old(self).config,
            final(self).accounts == old(self).accounts,
            forall|x: SessionView| #[trigger] final(self).sessions.view().contains(x) <==> old(self).sessions.view().contains(x)
                && x.user_id != claims.sub@,
    {
        self.sessions.revoke_all_user_sessions(claims.sub.as_str());
        self.record(AuditEntry {
            actor_id: Some(claims.sub.clone()),
            actor_type: Some(claims.user_type),
            session_id: Some(claims.session_id.clone()),
            action: AuditAction::RevokeAllSessions,
            target_type: Some(AuditTarget::Session),
            target_id: Some(claims.sub.clone()),
            ip_address: None,
            user_agent: None,
            success: true,
            error_message: None,
        });
    }

    /// Lets an organization act only once it is approved: another kind is
    /// `Forbidden`, an organization that no longer exists is `Unauthorized`, and one
    /// that is pending or rejected is `Forbidden`.
    pub fn require_approved_organization(&self, claims: &Claims) -> (r: Result<(), AuthError>)
        requires
            self.wf(),
        ensures
            r == (if claims.user_type != UserType::Organization {
                Err(AuthError::Forbidden)
            } else {
                match org_with_id(self.accounts.organizations@, claims.sub@) {
                    None => Err(AuthError::Unauthorized),
                    Some(i) => if self.accounts.organizations@[i].approval_status == ApprovalStatus::Approved {
                        Ok(())
                    } else {
                        Err(AuthError::Forbidden)
                    },
                }
            }),
    {
        if claims.user_type != UserType::Organization {
            return Err(AuthError::Forbidden);
        }
        match self.accounts.find_organization_by_id(claims.sub.as_str()) {
            None => Err(AuthError::Unauthorized),
            Some(i) => if self.accounts.organizations[i].approval_status == ApprovalStatus::Approved {
                Ok(())
            } else {
                Err(AuthError::Forbidden)
            },
        }
    }

    /// Lets only an admin that still exists and is active through: another kind is
    /// `Forbidden`; a missing or inactive admin is `Unauthorized`.
    pub fn require_active_admin(&self, claims: &Claims) -> (r: Result<(), AuthError>)
        requires
            self.wf(),
        ensures
            r == (if claims.user_type != UserType::Admin {
                Err(AuthError::Forbidden)
            } else {
                match admin_with_id(self.accounts.admins@, claims.sub@) {
                    None => Err(AuthError::Unauthorized),
                    Some(i) => if self.accounts.admins@[i].is_active {
                        Ok(())
                    } else {
                        Err(AuthError::Unauthorized)
                    },
                }
            }),
    {
        if claims.user_type != UserType::Admin {
            return Err(AuthError::Forbidden);
        }
        match self.accounts.find_admin_by_id(claims.sub.as_str()) {
            None => Err(AuthError::Unauthorized),
            Some(i) => if self.accounts.admins[i].is_active {
                Ok(())
            } else {
                Err(AuthError::Unauthorized)
            },
        }
    }

    /// Sets the approval status of organization `id`.
    pub fn set_approval_status(&mut self, id: &str, status: ApprovalStatus) -> (r: Result<(), AuthError>)
        requires
            old(self).wf(),
        ensures
            final(self).wf(),
            final(self).config == old(self).config,
            final(self).sessions == old(self).sessions,
            final(self).accounts.players@ == old(self).accounts.players@,
            final(self).accounts.admins@ == old(self).accounts.admins@,
            match org_with_id(old(self).accounts.organizations@, id@) {
                None => r == Err::<(), AuthError>(AuthError::NotFound),
                Some(i) => r == Ok::<(), AuthError>(()) && final(self).accounts.organizations@[i].approval_status == status
                    && final(self).accounts.organizations@[i].id == old(self).accounts.organizations@[i].id
                    && final(self).accounts.organizations@.len() == old(self).accounts.organizations@.len(),
            },
    {
        self.accounts.set_approval_status(id, status)
    }

    /// Checks a request's bearer token: it must verify and be unexpired, and the
    /// session it names must be alive and belong to the token's subject.
    pub fn authenticate_token(&self, token: &str, now: u64) -> (r: Result<Claims, AuthError>)
        requires
            self.wf(),
        ensures
            match r {
                Ok(c) => token_grants(token@, self.config.jwt_secret@, now) == Some(c@)
                    && exists|x: SessionView| #[trigger] live_with_id(self.sessions.view(), c@.session_id, now, x)
                        && x.user_id == c@.sub,
                Err(e) => e == AuthError::Unauthorized,
            },
            (token_grants(token@, self.config.jwt_secret@, now) matches Some(c) && exists|x: SessionView|
                #[trigger] live_with_id(self.sessions.view(), c.session_id, now, x) && x.user_id == c.sub) ==> r is Ok,
    {
        let claims = match decode_token(token, self.config.jwt_secret.as_str(), now) {
            Ok(c) => c,
            Err(_) => {
                return Err(AuthError::Unauthorized);
            },
        };
        let session = match self.sessions.validate_session(claims.session_id.as_str(), now) {
            Some(s) => s,
            None => {
                return Err(AuthError::Unauthorized);
            },
        };
        if !crate::text::str_eq(session.user_id.as_str(), claims.sub.as_str()) {
            proof {
                assert forall|x: SessionView| #[trigger] live_with_id(self.sessions.view(), claims@.session_id, now, x)
                    implies x.user_id != claims@.sub by {
                    let a = choose|a: int| 0 <= a < self.sessions.view().len() && self.sessions.view()[a] == x;
                    let b = choose|b: int| 0 <= b < self.sessions.view().len() && self.sessions.view()[b] == session@;
                    if a != b {
                        assert(self.sessions.view()[a].id != self.sessions.view()[b].id);
                    }
                }
            }
            return Err(AuthError::Unauthorized);
        }
        assert(live_with_id(self.sessions.view(), claims@.session_id, now, session@));
        Ok(claims)
    }

    /// Authenticates a request by its `Authorization` and `Cookie` headers: the
    /// header's bearer token comes first, the `token` cookie second; a request with
    /// neither is `Unauthorized`.
    pub fn authenticate_request(&self, authorization: Option<&str>, cookie: Option<&str>, now: u64) -> (r: Result<Claims, AuthError>)
        requires
            self.wf(),
        ensures
            match request_token(view_opt(authorization), view_opt(cookie)) {
                None => r == Err::<Claims, AuthError>(AuthError::Unauthorized),
                Some(t) => match r {
                    Ok(c) => token_grants(t, self.config.jwt_secret@, now) == Some(c@)
                        && exists|x: SessionView| #[trigger] live_with_id(self.sessions.view(), c@.session_id, now, x)
                            && x.user_id == c@.sub,
                    Err(e) => e == AuthError::Unauthorized && !(token_grants(t, self.config.jwt_secret@, now) matches Some(c)
                        && exists|x: SessionView| #[trigger] live_with_id(self.sessions.view(), c.session_id, now, x)
                            && x.user_id == c.sub),
                },
            },
    {
        match extract_token_from_request(authorization, cookie) {
            None => Err(AuthError::Unauthorized),
            Some(t) => self.authenticate_token(t, now),
        }
    }

    /// Creates an active admin with no failed attempts. A taken email is a
    /// validation error; hashing or id failures are `Internal`.
    pub fn create_admin(&mut self, username: String, email: String, password: &str, role: String) -> (r: Result<String, AuthError>)
        requires
            old(self).wf(),
        ensures
            final(self).wf(),
            final(self).config == old(self).config,
            final(self).sessions == old(self).sessions,
            final(self).accounts.players@ == old(self).accounts.players@,
            final(self).accounts.organizations@ == old(self).accounts.organizations@,
            email_taken_by_admin(old(self).accounts.admins@, email@) ==> r == Err::<String, AuthError>(AuthError::Validation(Field::Email)),
            match r {
                Ok(id) => {
                    let a = final(self).accounts.admins@.last();
                    &&& final(self).accounts.admins@ == old(self).accounts.admins@.push(a)
                    &&& a.id@ == id@
                    &&& a.email@ == email@
                    &&& a.username@ == username@
                    &&& a.role@ == role@
                    &&& a.is_active
                    &&& a.login_attempts == 0
                    &&& a.lock_until is None
                    &&& bcrypt_verdict(password@, a.password_hash@) == Some(true)
                },
                Err(e) => final(self).accounts.admins@ == old(self).accounts.admins@
                    && (e == AuthError::Internal || e == AuthError::Validation(Field::Email)),
            },
    {
        if self.accounts.find_admin_by_email(email.as_str()).is_some() {
            return Err(AuthError::Validation(Field::Email));
        }
        let hash = match crate::password::hash_password(password, self.config.hash_cost) {
            Some(h) => h,
            None => {
                return Err(AuthError::Internal);
            },
        };
        let id = new_uuid();
        if self.accounts.admin_id_taken(id.as_str()) {
            return Err(AuthError::Internal);
        }
        let out = id.clone();
        let admin = Admin {
            id,
            email,
            username,
            password_hash: hash,
            role,
            is_active: true,
            login_attempts: 0,
            lock_until: None,
        };
        self.accounts.add_admin(admin);
        Ok(out)
    }

    /// The pending verification token of player `player_id`, for the mail that asks
    /// the player to confirm the address.
    pub fn pending_verification_token(&self, player_id: &str) -> (r: Option<String>)
        requires
            self.wf(),
        ensures
            match player_with_id(self.accounts.players@, player_id@) {
                Some(i) => opt_view(r) == opt_view(self.accounts.players@[i].verification_token),
                None => r is None,
            },
    {
        match self.accounts.find_player_by_id(player_id) {
            Some(i) => copy_opt(&self.accounts.players[i].verification_token),
            None => None,
        }
    }

    /// Confirms a player's email by the token that the verification mail carried.
    pub fn verify_email(&mut self, token: &str) -> (r: bool)
        requires
            old(self).wf(),
        ensures
            final(self).wf(),
            final(self).config == old(self).config,
            final(self).sessions == old(self).sessions,
            r == exists|j: int| 0 <= j < old(self).accounts.players@.len()
                && opt_view_eq(#[trigger] old(self).accounts.players@[j].verification_token, token@),
            r ==> exists|j: int| 0 <= j < old(self).accounts.players@.len()
                && opt_view_eq(#[trigger] old(self).accounts.players@[j].verification_token, token@)
                && final(self).accounts.players@[j].verified,
    {
        self.accounts.verify_email_by_token(token)
    }

    /// Starts a password reset for the player with `email`: a fresh token, good for
    /// an hour from `now`, replaces any earlier one and is returned for the reset
    /// mail. `None` when no player has that email.
    pub fn request_password_reset(&mut self, email: &str, now: u64) -> (r: Option<String>)
        requires
            old(self).wf(),
        ensures
            final(self).wf(),
            final(self).config == old(self).config,
            final(self).sessions == old(self).sessions,
            final(self).accounts.admins@ == old(self).accounts.admins@,
            final(self).accounts.organizations@ == old(self).accounts.organizations@,
            match player_with_email(old(self).accounts.players@, email@) {
                None => r is None && final(self).accounts.players@ == old(self).accounts.players@,
                Some(i) => r matches Some(t) && final(self).accounts.players@ == old(self).accounts.players@.update(i,
                    Player {
                        reset_token: final(self).accounts.players@[i].reset_token,
                        reset_expiry: Some(if now as int + RESET_SECONDS <= u64::MAX { (now + RESET_SECONDS) as u64 } else { u64::MAX }),
                        ..old(self).accounts.players@[i]
                    }) && opt_view_eq(final(self).accounts.players@[i].reset_token, t@),
            },
    {
        let i = match self.accounts.find_player_by_email(email) {
            Some(i) => i,
            None => {
                return None;
            },
        };
        let token = new_uuid();
        let old_p = &self.accounts.players[i];
        let p = Player {
            id: old_p.id.clone(),
            email: old_p.email.clone(),
            username: old_p.username.clone(),
            password_hash: old_p.password_hash.clone(),
            verified: old_p.verified,
            verification_token: old_p.verification_token.clone(),
            reset_token: Some(token.clone()),
            reset_expiry: Some(now.saturating_add(RESET_SECONDS)),
        };
        self.accounts.replace_player(i, p);
        Some(token)
    }

    /// Sets a new password for the player whose reset token is `token` and has not
    /// lapsed at `now`, and clears the token. `Ok(false)` when no player holds such a
    /// token; `Internal` when hashing fails.
    pub fn reset_password(&mut self, token: &str, new_password: &str, now: u64) -> (r: Result<bool, AuthError>)
        requires
            old(self).wf(),
        ensures
            final(self).wf(),
            final(self).config == old(self).config,
            final(self).sessions == old(self).sessions,
            final(self).accounts.admins@ == old(self).accounts.admins@,
            final(self).accounts.organizations@ == old(self).accounts.organizations@,
            (forall|j: int| 0 <= j < old(self).accounts.players@.len()
                ==> !reset_pending(#[trigger] old(self).accounts.players@[j], token@, now))
                ==> r == Ok::<bool, AuthError>(false),
            r is Err ==> r == Err::<bool, AuthError>(AuthError::Internal),
            r != Ok::<bool, AuthError>(true) ==> final(self).accounts.players@ == old(self).accounts.players@,
            r == Ok::<bool, AuthError>(true) ==> exists|i: int| 0 <= i < old(self).accounts.players@.len()
                && reset_pending(#[trigger] old(self).accounts.players@[i], token@, now)
                && final(self).accounts.players@ == old(self).accounts.players@.update(i, Player {
                    password_hash: final(self).accounts.players@[i].password_hash,
                    reset_token: None,
                    reset_expiry: None,
                    ..old(self).accounts.players@[i]
                })
                && bcrypt_verdict(new_password@, final(self).accounts.players@[i].password_hash@) == Some(true),
    {
        let i = match self.accounts.find_player_by_reset_token(token, now) {
            Some(i) => i,
            None => {
                return Ok(false);
            },
        };
        let hash = match crate::password::hash_password(new_password, self.config.hash_cost) {
            Some(h) => h,
            None => {
                return Err(AuthError::Internal);
            },
        };
        let old_p = &self.accounts.players[i];
        let p = Player {
            id: old_p.id.clone(),
            email: old_p.email.clone(),
            username: old_p.username.clone(),
            password_hash: hash,
            verified: old_p.verified,
            verification_token: old_p.verification_token.clone(),
            reset_token: None,
            reset_expiry: None,
        };
        self.accounts.replace_player(i, p);
        Ok(true)
    }

    /// Issues a new email-verification token for player `player_id`, replacing any
    /// earlier one. `NotFound` when there is no such player; a validation error on
    /// the email when it is already verified.
    pub fn send_verification_email(&mut self, player_id: &str) -> (r: Result<String, AuthError>)
        requires
            old(self).wf(),
        ensures
            final(self).wf(),
            final(self).config == old(self).config,
            final(self).sessions == old(self).sessions,
            final(self).accounts.admins@ == old(self).accounts.admins@,
            final(self).accounts.organizations@ == old(self).accounts.organizations@,
            match player_with_id(old(self).accounts.players@, player_id@) {
                None => r == Err::<String, AuthError>(AuthError::NotFound)
                    && final(self).accounts.players@ == old(self).accounts.players@,
                Some(i) => if old(self).accounts.players@[i].verified {
                    r == Err::<String, AuthError>(AuthError::Validation(Field::Email))
                        && final(self).accounts.players@ == old(self).accounts.players@
                } else {
                    r matches Ok(t) && final(self).accounts.players@ == old(self).accounts.players@.update(i,
                        Player { verification_token: final(self).accounts.players@[i].verification_token, ..old(self).accounts.players@[i] })
                        && opt_view_eq(final(self).accounts.players@[i].verification_token, t@)
                },
            },
    {
        let i = match self.accounts.find_player_by_id(player_id) {
            Some(i) => i,
            None => {
                return Err(AuthError::NotFound);
            },
        };
        if self.accounts.players[i].verified {
            return Err(AuthError::Validation(Field::Email));
        }
        let token = new_uuid();
        let old_p = &self.accounts.players[i];
        let p = Player {
            id: old_p.id.clone(),
            email: old_p.email.clone(),
            username: old_p.username.clone(),
            password_hash: old_p.password_hash.clone(),
            verified: old_p.verified,
            verification_token: Some(token.clone()),
            reset_token: old_p.reset_token.clone(),
            reset_expiry: old_p.reset_expiry,
        };
        self.accounts.replace_player(i, p);
        Ok(token)
    }
}

} // verus!

verus! {

/// An email and password that match an account of exactly one kind reach that
/// account: no other kind is tried in its place.
pub proof fn lemma_login_reaches_single_account(acc: AccountStore, email: Seq<char>, password: Seq<char>, now: u64, kind: UserType, i: int)
    requires
        match kind {
            UserType::Player => {
                &&& player_with_email(acc.players@, email) == Some(i)
                &&& bcrypt_verdict(password, acc.players@[i].password_hash@) == Some(true)
                &&& admin_with_email(acc.admins@, email) is None
                &&& org_with_email(acc.organizations@, email) is None
            },
            UserType::Admin => {
                &&& player_with_email(acc.players@, email) is None
                &&& admin_with_email(acc.admins@, email) == Some(i)
                &&& admin_may_try(acc.admins@[i], now)
                &&& bcrypt_verdict(password, acc.admins@[i].password_hash@) == Some(true)
                &&& org_with_email(acc.organizations@, email) is None
            },
            UserType::Organization => {
                &&& player_with_email(acc.players@, email) is None
                &&& admin_with_email(acc.admins@, email) is None
                &&& org_with_email(acc.organizations@, email) == Some(i)
                &&& bcrypt_verdict(password, acc.organizations@[i].password_hash@) == Some(true)
            },
        },
    ensures
        login_choice(acc, email, password, now) == Ok::<Option<(UserType, int)>, AuthError>(Some((kind, i))),
{
}

/// A token issued with a session names its principal: checked with the same secret
/// before it expires, it grants claims whose subject is the principal's id and whose
/// session is the one opened with it.
pub proof fn lemma_issued_token_names_principal(
    before: Seq<SessionView>,
    after: Seq<SessionView>,
    token: Seq<char>,
    s: SessionView,
    secret: Seq<char>,
    sub: Seq<char>,
    kind: UserType,
    role: Option<Seq<char>>,
    verified: bool,
    ip: Option<String>,
    ua: Option<String>,
    now: u64,
    days: u64,
    ttl: u64,
    at: u64,
)
    requires
        issued(before, after, token, s, secret, sub, kind, role, verified, ip, ua, now, days, ttl),
        at < token_exp(now, days),
    ensures
        token_grants(token, secret, at) == Some(issued_claims(sub, kind, role, s.id, verified, now, days)),
        token_grants(token, secret, at)->0.sub == sub,
        token_grants(token, secret, at)->0.session_id == s.id,
{
    lemma_token_round_trip(issued_claims(sub, kind, role, s.id, verified, now, days), token, secret, at);
}

} // verus!
