use jsonwebtoken::{decode, encode, DecodingKey, EncodingKey, Header, Validation};
use rmdadm::api::auth::{
    auth_middleware, generate_token, login, login_response, require_role, AuthConfig, AuthDecision, Claims,
    LoginRequest, UserRole,
};
use rmdadm::api::handlers::{health_check, list_arrays, metrics, BlockEntry};
use rmdadm::api::rate_limit::{RateLimitConfig, RateLimiter};
use rmdadm::sysfs::ArrayState;
use rmdadm::api::handlers::create_chunk_size;
use rmdadm::error::MdError;

fn now_secs() -> i64 {
    std::time::SystemTime::now().duration_since(std::time::UNIX_EPOCH).unwrap().as_secs() as i64
}

fn role_name(r: UserRole) -> &'static str {
    match r {
        UserRole::Admin => "admin",
        UserRole::Operator => "operator",
        UserRole::ReadOnly => "readonly",
    }
}

fn role_of(name: &str) -> UserRole {
    match name {
        "admin" => UserRole::Admin,
        "operator" => UserRole::Operator,
        _ => UserRole::ReadOnly,
    }
}

fn sign(c: &Claims, secret: &str) -> String {
    let mut m = serde_json::Map::new();
    m.insert("sub".to_string(), serde_json::Value::String(c.sub.clone()));
    m.insert("exp".to_string(), serde_json::Value::from(c.exp as u64));
    m.insert("iat".to_string(), serde_json::Value::from(c.iat as u64));
    m.insert("role".to_string(), serde_json::Value::String(role_name(c.role).to_string()));
    encode(&Header::default(), &serde_json::Value::Object(m), &EncodingKey::from_secret(secret.as_bytes())).unwrap()
}

fn verify(token: &str, secret: &str) -> Result<Claims, jsonwebtoken::errors::Error> {
    let data = decode::<serde_json::Value>(token, &DecodingKey::from_secret(secret.as_bytes()), &Validation::default())?;
    let v = data.claims;
    Ok(Claims {
        sub: v["sub"].as_str().unwrap_or_default().to_string(),
        exp: v["exp"].as_u64().unwrap_or(0) as usize,
        iat: v["iat"].as_u64().unwrap_or(0) as usize,
        role: role_of(v["role"].as_str().unwrap_or_default()),
    })
}

fn test_user() -> (Option<String>, Option<String>) {
    (Some("testuser".to_string()), Some("testpass".to_string()))
}

#[test]
fn test_generate_and_validate_token() {
    let config = AuthConfig { jwt_secret: "test-secret".to_string(), token_expiry_hours: 1 };
    let claims = generate_token("testuser", UserRole::Admin, &config, now_secs());
    let token = sign(&claims, &config.jwt_secret);
    let back = verify(&token, &config.jwt_secret).unwrap();
    assert_eq!(back.sub, "testuser");
    assert_eq!(back.role, UserRole::Admin);
}

#[test]
fn test_invalid_token() {
    assert!(verify("invalid.token.here", "test-secret").is_err());
}

#[test]
fn test_health_endpoint() {
    let h = health_check("0.1.0", 0, &vec![]);
    assert_eq!(h.status, "healthy");
    assert!(!h.version.is_empty());
}

#[test]
fn test_metrics_endpoint() {
    let text = metrics(&vec![BlockEntry { name: "md0".to_string(), state: Some(ArrayState::Clean) }]);
    assert!(text.contains("# HELP md_array_state"));
    assert!(text.contains("# TYPE md_array_state gauge"));
}

#[test]
fn test_login_success() {
    let (user, pass) = test_user();
    let req = LoginRequest { username: "testuser".to_string(), password: "testpass".to_string() };
    assert!(login(&req, &user, &pass).is_ok());
    let config = AuthConfig { jwt_secret: "change-me-in-production".to_string(), token_expiry_hours: 24 };
    let claims = generate_token(&req.username, UserRole::Admin, &config, now_secs());
    let answer = login_response(sign(&claims, &config.jwt_secret), &config);
    assert!(!answer.token.is_empty());
    assert_eq!(answer.expires_in, 24 * 3600);
}

#[test]
fn test_login_failure() {
    let (user, pass) = test_user();
    let req = LoginRequest { username: "testuser".to_string(), password: "wrongpass".to_string() };
    assert_eq!(login(&req, &user, &pass), Err(401));
}

#[test]
fn test_api_key_authentication() {
    let key = Some("test-api-key-12345".to_string());
    match auth_middleware(false, &key, &Some("test-api-key-12345".to_string()), &None) {
        AuthDecision::Key(role) => assert_eq!(require_role(&None, Some(role), UserRole::ReadOnly), Ok(())),
        d => panic!("{:?}", d),
    }
}

#[test]
fn test_api_key_authentication_failure() {
    let key = Some("test-api-key-12345".to_string());
    assert!(matches!(auth_middleware(false, &key, &Some("wrong-key".to_string()), &None), AuthDecision::Unauthorized));
}

#[test]
fn test_jwt_authentication() {
    let (user, pass) = test_user();
    let req = LoginRequest { username: "testuser".to_string(), password: "testpass".to_string() };
    assert!(login(&req, &user, &pass).is_ok());
    let config = AuthConfig { jwt_secret: "change-me-in-production".to_string(), token_expiry_hours: 24 };
    let token = sign(&generate_token(&req.username, UserRole::Admin, &config, now_secs()), &config.jwt_secret);
    let header = Some(format!("Bearer {}", token));
    match auth_middleware(false, &None, &None, &header) {
        AuthDecision::Token(t) => {
            let claims = verify(&t, &config.jwt_secret).unwrap();
            assert_eq!(require_role(&Some(claims), None, UserRole::ReadOnly), Ok(()));
        }
        d => panic!("{:?}", d),
    }
}

#[test]
fn test_unauthorized_access() {
    assert!(matches!(auth_middleware(false, &None, &None, &None), AuthDecision::Unauthorized));
    assert_eq!(require_role(&None, None, UserRole::ReadOnly), Err(401));
}

#[test]
fn test_rate_limiting() {
    let config = RateLimitConfig::from_env(&Some("3".to_string()), &Some("60".to_string()), &None);
    let mut limiter = RateLimiter::new(config);
    for i in 0..3u64 {
        assert!(limiter.check_rate_limit("127.0.0.1", i).is_ok(), "Request {} should succeed", i + 1);
    }
    assert!(limiter.check_rate_limit("127.0.0.1", 3).is_err());
}

#[test]
fn test_list_arrays_empty() {
    let list = list_arrays(&vec![]);
    assert_eq!(list.total, 0);
    assert!(list.arrays.is_empty());
}

#[test]
fn the_device_of_an_array_name_names_it_again() {
    let dev = rmdadm::api::handlers::array_device("md127");
    assert_eq!(dev, "/dev/md127");
    assert_eq!(rmdadm::paths::device_name(&dev).as_deref(), Some("md127"));
    assert_eq!(rmdadm::ops::manage::array_name(&dev), "md127");
}

#[test]
fn create_requests_give_the_chunk_size_in_kib() {
    assert_eq!(create_chunk_size(None).unwrap(), None);
    assert_eq!(create_chunk_size(Some(512)).unwrap(), Some(512 * 1024));
    match create_chunk_size(Some(-4)) {
        Err(MdError::ConfigValidation(m)) => assert_eq!(m, "Invalid chunk size: -4 KiB (must be a power of 2 between 4 and 32768 KiB)"),
        r => panic!("{:?}", r),
    }
    assert!(create_chunk_size(Some(100)).is_err());
}
