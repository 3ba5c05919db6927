use rmdadm::api::auth::{
    auth_middleware, generate_token, login, refresh_token, require_role, role_permits, validate_api_key, AuthConfig,
    AuthDecision, Claims, LoginRequest, UserRole, login_response,
};
use rmdadm::api::handlers::{array_health, get_array_detail, health_check, list_arrays, metrics, scrub_array, BlockEntry, InfoFailure};
use rmdadm::api::rate_limit::{RateLimitConfig, RateLimiter};
use rmdadm::api::ApiError;
use rmdadm::error::MdError;
use rmdadm::ioctl::MduArrayInfo;
use rmdadm::sysfs::ArrayState;

const SECOND: u64 = 1_000_000_000;

#[test]
fn test_rate_limiter() {
    let config = RateLimitConfig { max_requests: 5, window_nanos: SECOND, enabled: true };
    let mut limiter = RateLimiter::new(config);
    let ip = "127.0.0.1";

    for i in 0..5 {
        assert!(limiter.check_rate_limit(ip, i).is_ok());
    }

    assert!(limiter.check_rate_limit(ip, 10).is_err());

    assert!(limiter.check_rate_limit(ip, 2 * SECOND + 10).is_ok());
}

#[test]
fn test_rate_limiter_disabled() {
    let config = RateLimitConfig { max_requests: 1, window_nanos: SECOND, enabled: false };
    let mut limiter = RateLimiter::new(config);
    let ip = "127.0.0.1";

    for i in 0..100 {
        assert!(limiter.check_rate_limit(ip, i).is_ok());
    }
}

#[test]
fn refused_requests_say_when_to_retry() {
    let config = RateLimitConfig { max_requests: 1, window_nanos: 10 * SECOND, enabled: true };
    let mut limiter = RateLimiter::new(config);
    assert!(limiter.check_rate_limit("a", 0).is_ok());
    let e = limiter.check_rate_limit("a", 3 * SECOND + 1).unwrap_err();
    assert_eq!(e.retry_after, 6);
    assert_eq!(e.limit, 1);
    assert!(limiter.check_rate_limit("b", 3 * SECOND).is_ok());
    limiter.cleanup(30 * SECOND);
    assert!(limiter.trackers.is_empty());
}

#[test]
fn rate_limit_config_from_environment() {
    let c = RateLimitConfig::from_env(&Some("7".to_string()), &None, &None);
    assert_eq!(c.max_requests, 7);
    assert_eq!(c.window_nanos, 60 * SECOND);
    assert!(c.enabled);
    assert!(!RateLimitConfig::from_env(&None, &Some("x".to_string()), &Some(String::new())).enabled);
}

#[test]
fn roles_are_ordered() {
    assert!(role_permits(UserRole::Admin, UserRole::Admin));
    assert!(role_permits(UserRole::Operator, UserRole::ReadOnly));
    assert!(!role_permits(UserRole::Operator, UserRole::Admin));
    assert!(!role_permits(UserRole::ReadOnly, UserRole::Operator));
    let claims = Some(Claims { sub: "u".to_string(), exp: 0, iat: 0, role: UserRole::ReadOnly });
    assert_eq!(require_role(&claims, None, UserRole::Operator), Err(403));
    assert_eq!(require_role(&None, Some(UserRole::Admin), UserRole::Operator), Ok(()));
    assert_eq!(require_role(&None, None, UserRole::ReadOnly), Err(401));
}

#[test]
fn api_keys_and_bearer_tokens() {
    let key = Some("test-api-key-12345".to_string());
    assert_eq!(validate_api_key("test-api-key-12345", &key), Some(UserRole::Admin));
    assert_eq!(validate_api_key("wrong-key", &key), None);
    assert!(matches!(auth_middleware(false, &key, &Some("test-api-key-12345".to_string()), &None), AuthDecision::Key(UserRole::Admin)));
    assert!(matches!(auth_middleware(false, &key, &Some("wrong-key".to_string()), &None), AuthDecision::Unauthorized));
    match auth_middleware(false, &None, &None, &Some("Bearer abc.def".to_string())) {
        AuthDecision::Token(t) => assert_eq!(t, "abc.def"),
        d => panic!("{:?}", d),
    }
    assert!(matches!(auth_middleware(false, &None, &None, &Some("Basic x".to_string())), AuthDecision::Unauthorized));
    assert!(matches!(auth_middleware(true, &None, &None, &None), AuthDecision::Open));
}

#[test]
fn logins() {
    let req = LoginRequest { username: "testuser".to_string(), password: "testpass".to_string() };
    assert!(login(&req, &Some("testuser".to_string()), &Some("testpass".to_string())).is_ok());
    let bad = LoginRequest { username: "testuser".to_string(), password: "wrongpass".to_string() };
    assert_eq!(login(&bad, &Some("testuser".to_string()), &Some("testpass".to_string())), Err(401));
    let admin = LoginRequest { username: "admin".to_string(), password: "changeme".to_string() };
    assert!(login(&admin, &None, &None).is_ok());
    let config = AuthConfig { jwt_secret: "test-secret".to_string(), token_expiry_hours: 1 };
    let claims = generate_token("testuser", UserRole::Admin, &config, 1000);
    assert_eq!(claims.exp, 1000 + 3600);
    assert_eq!(claims.iat, 1000);
    assert_eq!(login_response("t".to_string(), &config).expires_in, 3600);
    let (u, r) = refresh_token(&Some(claims)).unwrap();
    assert_eq!((u.as_str(), r), ("testuser", UserRole::Admin));
    assert_eq!(AuthConfig::from_env(None).jwt_secret, "change-me-in-production");
}

#[test]
fn handler_answers() {
    assert_eq!(array_health("active-idle"), "healthy");
    assert_eq!(array_health("recovering"), "degraded");
    assert_eq!(array_health("inactive"), "failed");
    assert_eq!(array_health("clear"), "unknown");
    let entries = vec![
        BlockEntry { name: "md0".to_string(), state: Some(ArrayState::Active) },
        BlockEntry { name: "loop0".to_string(), state: None },
        BlockEntry { name: "md1".to_string(), state: Some(ArrayState::Inactive) },
    ];
    let list = list_arrays(&entries);
    assert_eq!(list.total, 2);
    assert_eq!(list.arrays[1].health, "failed");
    assert_eq!(list.arrays[0].device, "/dev/md0");
    assert_eq!(list_arrays(&vec![]).total, 0);
    let m = metrics(&entries);
    assert!(m.starts_with("# HELP md_array_state"));
    assert!(m.contains("# TYPE md_array_state gauge"));
    assert!(m.ends_with("md_array_state{device=\"md0\"} 1\nmd_array_state{device=\"md1\"} 0\n"));
    let h = health_check("0.1.0", 5, &vec!["md0".to_string(), "sda".to_string()]);
    assert_eq!(h.status, "healthy");
    assert_eq!(h.arrays_monitored, 1);
}

#[test]
fn array_detail_answers() {
    let e: ApiError = get_array_detail("md9", false, &None, &Err(InfoFailure::Open("x".to_string()))).unwrap_err();
    assert_eq!((e.status, e.message.as_str()), (404, "Array md9 not found"));
    let e = get_array_detail("md9", true, &None, &Err(InfoFailure::Ioctl("ENOTTY".to_string()))).unwrap_err();
    assert_eq!(e.message, "Failed to get array info: ENOTTY");
    let info = MduArrayInfo { level: 1, raid_disks: 2, ..Default::default() };
    let a = get_array_detail("md0", true, &Some(ArrayState::Clean), &Ok(info)).unwrap();
    assert_eq!(a.level, "raid1");
    assert_eq!(a.state, "clean");
    assert_eq!(a.uuid, "unknown");
    let e = scrub_array("md0", &Err(MdError::Sysfs("no".to_string())), false).unwrap_err();
    assert_eq!(e.message, "Array md0 not found or inactive: Sysfs Error: no");
    assert_eq!(scrub_array("md0", &Ok(ArrayState::Clean), false).unwrap().value, "check");
    assert_eq!(ApiError::from_md_error(&MdError::Api("x".to_string())).message, "API error: x");
}
