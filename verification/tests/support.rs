use auction_core::accounts::is_admin_role;
use auction_core::accounts::login_valid;
use auction_core::accounts::parse_role;
use auction_core::accounts::registration_valid;
use auction_core::accounts::role_payload_valid;
use auction_core::accounts::LoginPayload;
use auction_core::accounts::RegisterPayload;
use auction_core::accounts::Role;
use auction_core::accounts::UpdateProfilePayload;
use auction_core::accounts::UpdateUserRolePayload;
use auction_core::config::get;
use auction_core::config::Settings;
use auction_core::inquiries::UpdateInquiryStatusPayload;
use auction_core::jwt::check_claims;
use auction_core::jwt::claims_expired;
use auction_core::jwt::token_shape_valid;
use auction_core::jwt::Claims;
use auction_core::jwt::JwtError;
use auction_core::routing::route_is_public;

#[test]
fn registration_requires_all_fields_and_a_long_password() {
    assert!(registration_valid("ada", "ada@example.com", "longenough"));
    assert!(!registration_valid("", "ada@example.com", "longenough"));
    assert!(!registration_valid("ada", "", "longenough"));
    assert!(!registration_valid("ada", "ada@example.com", "short"));
    // Exactly eight bytes is the shortest accepted password.
    assert!(registration_valid("ada", "ada@example.com", "12345678"));
    assert!(!registration_valid("ada", "ada@example.com", "1234567"));
    // The length is counted in bytes of the encoding: seven two-byte
    // characters make fourteen bytes and pass, four make eight and pass,
    // three make only six and fail.
    assert!(registration_valid("ada", "ada@example.com", "äöüäöüä"));
    assert!(registration_valid("ada", "ada@example.com", "äöüä"));
    assert!(!registration_valid("ada", "ada@example.com", "äöü"));
}

#[test]
fn registration_payload_carries_its_fields() {
    let p = RegisterPayload {
        username: "ada".to_string(),
        email: "ada@example.com".to_string(),
        password: "longenough".to_string(),
    };
    assert!(registration_valid(&p.username, &p.email, &p.password));
}

#[test]
fn login_requires_both_fields() {
    let ok = LoginPayload { email: "ada@example.com".to_string(), password: "pw".to_string() };
    assert!(login_valid(&ok));
    let no_mail = LoginPayload { email: String::new(), password: "pw".to_string() };
    assert!(!login_valid(&no_mail));
    let no_pw = LoginPayload { email: "ada@example.com".to_string(), password: String::new() };
    assert!(!login_valid(&no_pw));
}

#[test]
fn roles_parse_from_their_exact_spellings() {
    assert_eq!(parse_role(&"admin".to_string()), Some(Role::Admin));
    assert_eq!(parse_role(&"user".to_string()), Some(Role::User));
    assert_eq!(parse_role(&"Admin".to_string()), None);
    assert_eq!(parse_role(&"moderator".to_string()), None);
    assert_eq!(parse_role(&String::new()), None);
}

#[test]
fn role_payload_accepts_only_known_roles() {
    let ok = UpdateUserRolePayload { role: "user".to_string() };
    assert!(role_payload_valid(&ok));
    let bad = UpdateUserRolePayload { role: "root".to_string() };
    assert!(!role_payload_valid(&bad));
}

#[test]
fn admin_gate_matches_only_admin() {
    assert!(is_admin_role(&"admin".to_string()));
    assert!(!is_admin_role(&"user".to_string()));
    assert!(!is_admin_role(&"ADMIN".to_string()));
    assert!(!is_admin_role(&String::new()));
}

#[test]
fn profile_payload_carries_optional_fields() {
    let p = UpdateProfilePayload { username: Some("ada".to_string()), email: None };
    assert_eq!(p.username.as_deref(), Some("ada"));
    assert!(p.email.is_none());
}

#[test]
fn inquiry_status_payload_carries_its_status() {
    let p = UpdateInquiryStatusPayload { status: "resolved".to_string() };
    assert_eq!(p.status, "resolved");
}

#[test]
fn token_shape_needs_exactly_three_segments() {
    assert!(token_shape_valid("aaa.bbb.ccc"));
    // Empty segments still count as segments, as the splitter sees them.
    assert!(token_shape_valid(".."));
    assert!(!token_shape_valid(""));
    assert!(!token_shape_valid("aaa.bbb"));
    assert!(!token_shape_valid("aaa.bbb.ccc.ddd"));
    assert!(!token_shape_valid("no dots at all"));
}

#[test]
fn claims_expire_strictly_after_their_deadline() {
    let c = Claims { sub: "42".to_string(), role: "user".to_string(), exp: 1000 };
    assert!(!claims_expired(&c, 999));
    assert!(!claims_expired(&c, 1000));
    assert!(claims_expired(&c, 1001));
    assert_eq!(check_claims(&c, 1000), Ok(()));
    assert_eq!(check_claims(&c, 1001), Err(JwtError::Expired));
}

#[test]
fn settings_hold_exactly_what_was_passed() {
    let s: Settings = get(
        "postgres://db".to_string(),
        "SECRET-REDACTED".to_string(),
        "8080".to_string(),
        "cloud".to_string(),
        "key".to_string(),
        "SECRET-REDACTED".to_string(),
        "preset".to_string(),
    );
    assert_eq!(s.database_url, "postgres://db");
    assert_eq!(s.jwt_secret, "SECRET-REDACTED");
    assert_eq!(s.port, "8080");
    assert_eq!(s.cloudinary_cloud_name, "cloud");
    assert_eq!(s.cloudinary_api_key, "key");
    assert_eq!(s.cloudinary_api_secret, "SECRET-REDACTED");
    assert_eq!(s.cloudinary_upload_preset, "preset");
}

#[test]
fn public_routes_bypass_authentication() {
    assert!(route_is_public("/auth/login", "POST"));
    assert!(route_is_public("/auth/register", "POST"));
    assert!(route_is_public("/vehicles", "GET"));
    assert!(route_is_public("/vehicles/7", "GET"));
    assert!(!route_is_public("/vehicles", "POST"));
    assert!(route_is_public("/auctions/3", "GET"));
    assert!(!route_is_public("/auctions/3/bids", "GET"));
    assert!(!route_is_public("/auctions", "PUT"));
    assert!(route_is_public("/inquiries", "POST"));
    assert!(!route_is_public("/inquiries", "GET"));
    assert!(!route_is_public("/users/me", "GET"));
}
