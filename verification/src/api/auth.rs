//! Who may call the API: API keys, the administrator's login, the claims of
//! the tokens, and which role may reach which endpoint.

use vstd::prelude::*;
use crate::api::{UNAUTHORIZED, FORBIDDEN};
use crate::text::{str_eq, to_chars, starts_with_chars, slice_chars, from_chars, occurs_at};

verus! {

/// The claims that a token carries.
#[derive(Debug, Clone)]
pub struct Claims {
    /// The user.
    pub sub: String,
    /// When the token expires, in seconds since the epoch.
    pub exp: usize,
    /// When it was issued, in seconds since the epoch.
    pub iat: usize,
    pub role: UserRole,
}

/// The roles of users, from the most to the least allowed.
#[derive(Debug, Clone, Copy, PartialEq, Eq, Structural)]
pub enum UserRole {
    /// Everything.
    Admin,
    /// Managing existing arrays, not creating or deleting them.
    Operator,
    /// Reading only.
    ReadOnly,
}

/// The secret that signs tokens and how long they live.
#[derive(Debug, Clone)]
pub struct AuthConfig {
    pub jwt_secret: String,
    pub token_expiry_hours: u64,
}

impl AuthConfig {
    /// The configuration that the environment gives: its secret
    /// (`RMDADM_JWT_SECRET`) or the default one, and tokens of a day.
    pub fn from_env(secret: Option<String>) -> (c: AuthConfig)
        ensures
            c.jwt_secret@ == match secret {
                Some(s) => s@,
                None => "change-me-in-production"@,
            },
            c.token_expiry_hours == 24,
    {
        let jwt_secret = match secret {
            Some(s) => s,
            None => String::from_str("change-me-in-production"),
        };
        AuthConfig { jwt_secret, token_expiry_hours: 24 }
    }
}

/// A login attempt.
#[derive(Debug, Clone)]
pub struct LoginRequest {
    pub username: String,
    pub password: String,
}

/// The answer to a successful login.
#[derive(Debug, Clone)]
pub struct LoginResponse {
    pub token: String,
    /// Seconds before the token expires.
    pub expires_in: u64,
}

/// A key that grants a role.
#[derive(Debug, Clone)]
pub struct ApiKey {
    pub key: String,
    pub role: UserRole,
}

/// Whether API keys are accepted: a key is configured.
pub fn is_api_key_enabled(configured: &Option<String>) -> (r: bool)
    ensures
        r == configured is Some,
{
    configured.is_some()
}

/// The role that an API key grants: the administrator's, when it is the
/// configured key.
pub fn validate_api_key(key: &str, configured: &Option<String>) -> (r: Option<UserRole>)
    ensures
        r == (if configured matches Some(k) && k@ == key@ { Some(UserRole::Admin) } else { None::<UserRole> }),
{
    match configured {
        Some(k) => if str_eq(key, k.as_str()) { Some(UserRole::Admin) } else { None },
        None => None,
    }
}

/// The rank of a role: the higher, the more it may do.
pub open spec fn rank(r: UserRole) -> int {
    match r {
        UserRole::Admin => 2,
        UserRole::Operator => 1,
        UserRole::ReadOnly => 0,
    }
}

/// Whether a user of `role` may reach an endpoint that requires `required`.
pub open spec fn spec_permits(role: UserRole, required: UserRole) -> bool {
    match (role, required) {
        (UserRole::Admin, _) => true,
        (UserRole::Operator, UserRole::ReadOnly) => true,
        (UserRole::Operator, UserRole::Operator) => true,
        (UserRole::ReadOnly, UserRole::ReadOnly) => true,
        _ => false,
    }
}

/// Whether a user of `role` may reach an endpoint that requires `required`.
pub fn role_permits(role: UserRole, required: UserRole) -> (r: bool)
    ensures
        r == spec_permits(role, required),
{
    match (role, required) {
        (UserRole::Admin, _) => true,
        (UserRole::Operator, UserRole::ReadOnly) => true,
        (UserRole::Operator, UserRole::Operator) => true,
        (UserRole::ReadOnly, UserRole::ReadOnly) => true,
        _ => false,
    }
}

/// A role reaches exactly the endpoints that require no higher role: the
/// roles are ordered, each reaches its own endpoints, and reaching is
/// transitive.
pub proof fn lemma_roles_ordered(a: UserRole, b: UserRole, c: UserRole)
    ensures
        spec_permits(a, b) <==> rank(a) >= rank(b),
        spec_permits(a, a),
        spec_permits(a, b) && spec_permits(b, c) ==> spec_permits(a, c),
        spec_permits(UserRole::Admin, b),
{
}

/// Whether the request that carries these credentials may reach an endpoint
/// that requires `required`: the role of the token's claims, or else the role
/// that an API key granted; without either the request is unauthorized, with
/// a role too low it is forbidden.
pub fn require_role(claims: &Option<Claims>, key_role: Option<UserRole>, required: UserRole) -> (r: Result<(), u16>)
    ensures
        match (*claims, key_role) {
            (Some(c), _) => if spec_permits(c.role, required) { r is Ok } else { r == Err::<(), u16>(FORBIDDEN) },
            (None, Some(k)) => if spec_permits(k, required) { r is Ok } else { r == Err::<(), u16>(FORBIDDEN) },
            (None, None) => r == Err::<(), u16>(UNAUTHORIZED),
        },
{
    let role = match claims {
        Some(c) => c.role,
        None => match key_role {
            Some(k) => k,
            None => {
                return Err(UNAUTHORIZED);
            },
        },
    };
    if role_permits(role, required) {
        Ok(())
    } else {
        Err(FORBIDDEN)
    }
}

/// How a request is let in.
#[derive(Debug, Clone)]
pub enum AuthDecision {
    /// Authentication is switched off.
    Open,
    /// A valid API key granted this role.
    Key(UserRole),
    /// The bearer token to check.
    Token(String),
    /// No way in.
    Unauthorized,
}

/// The token of an `Authorization` header: what follows `Bearer `.
pub open spec fn bearer_token(header: Seq<char>) -> Option<Seq<char>> {
    if occurs_at(header, "Bearer "@, 0) { Some(header.subrange(7, header.len() as int)) } else { None }
}

/// How a request gets in: when authentication is off it does; an API key,
/// when keys are accepted and it is the configured one, grants its role;
/// otherwise the bearer token of the `Authorization` header is to be checked.
pub open spec fn spec_authenticate(
    disable_auth: bool,
    configured_key: Option<String>,
    key_header: Option<String>,
    authorization: Option<String>,
    r: AuthDecision,
) -> bool {
    if disable_auth {
        r is Open
    } else if configured_key matches Some(k) && key_header matches Some(h) && h@ == k@ {
        r == AuthDecision::Key(UserRole::Admin)
    } else {
        match authorization {
            Some(a) => match bearer_token(a@) {
                Some(t) => r matches AuthDecision::Token(s) && s@ == t,
                None => r is Unauthorized,
            },
            None => r is Unauthorized,
        }
    }
}

/// Decides how a request gets in, from its headers.
pub fn auth_middleware(
    disable_auth: bool,
    configured_key: &Option<String>,
    key_header: &Option<String>,
    authorization: &Option<String>,
) -> (r: AuthDecision)
    ensures
        spec_authenticate(disable_auth, *configured_key, *key_header, *authorization, r),
{
    if disable_auth {
        return AuthDecision::Open;
    }
    if is_api_key_enabled(configured_key) {
        if let Some(h) = key_header {
            if let Some(role) = validate_api_key(h.as_str(), configured_key) {
                return AuthDecision::Key(role);
            }
        }
    }
    match authorization {
        Some(a) => {
            let c = to_chars(a.as_str());
            proof {
                reveal_strlit("Bearer ");
            }
            if starts_with_chars(c.as_slice(), to_chars("Bearer ").as_slice()) {
                let t = slice_chars(c.as_slice(), 7, c.len());
                AuthDecision::Token(from_chars(t.as_slice()))
            } else {
                AuthDecision::Unauthorized
            }
        },
        None => AuthDecision::Unauthorized,
    }
}

/// Whether a login is accepted: the user and the password must be the
/// administrator's (`admin` and `changeme` unless configured otherwise).
pub open spec fn spec_login_ok(req: LoginRequest, admin_user: Option<String>, admin_password: Option<String>) -> bool {
    &&& req.username@ == match admin_user { Some(u) => u@, None => "admin"@ }
    &&& req.password@ == match admin_password { Some(p) => p@, None => "changeme"@ }
}

/// Checks a login attempt.
pub fn login(req: &LoginRequest, admin_user: &Option<String>, admin_password: &Option<String>) -> (r: Result<(), u16>)
    ensures
        spec_login_ok(*req, *admin_user, *admin_password) ==> r is Ok,
        !spec_login_ok(*req, *admin_user, *admin_password) ==> r == Err::<(), u16>(UNAUTHORIZED),
{
    let user_ok = match admin_user {
        Some(u) => str_eq(req.username.as_str(), u.as_str()),
        None => str_eq(req.username.as_str(), "admin"),
    };
    if !user_ok {
        return Err(UNAUTHORIZED);
    }
    let pass_ok = match admin_password {
        Some(p) => str_eq(req.password.as_str(), p.as_str()),
        None => str_eq(req.password.as_str(), "changeme"),
    };
    if !pass_ok {
        return Err(UNAUTHORIZED);
    }
    Ok(())
}

/// The answer to a login that got `token`: it lives the configured number of hours.
pub fn login_response(token: String, config: &AuthConfig) -> (r: LoginResponse)
    requires
        config.token_expiry_hours * 3600 <= u64::MAX,
    ensures
        r.token == token,
        r.expires_in == config.token_expiry_hours * 3600,
{
    LoginResponse { token, expires_in: config.token_expiry_hours * 3600 }
}

/// The claims of a token issued at `now` (seconds since the epoch) to
/// `username` with `role`: it expires after the configured hours.
pub fn generate_token(username: &str, role: UserRole, config: &AuthConfig, now: i64) -> (c: Claims)
    requires
        0 <= now,
        now + config.token_expiry_hours * 3600 <= i64::MAX,
    ensures
        c.sub@ == username@,
        c.exp == (now + config.token_expiry_hours * 3600) as usize,
        c.iat == now as usize,
        c.role == role,
{
    let expiry = now + (config.token_expiry_hours as i64) * 3600;
    Claims { sub: String::from_str(username), exp: expiry as usize, iat: now as usize, role }
}

/// The user and role a token is renewed for: those of the request's claims;
/// a request without claims is unauthorized.
pub fn refresh_token(claims: &Option<Claims>) -> (r: Result<(String, UserRole), u16>)
    ensures
        match *claims {
            Some(c) => r matches Ok((u, role)) && u@ == c.sub@ && role == c.role,
            None => r == Err::<(String, UserRole), u16>(UNAUTHORIZED),
        },
{
    match claims {
        Some(c) => Ok((String::from_str(c.sub.as_str()), c.role)),
        None => Err(UNAUTHORIZED),
    }
}

} // verus!
