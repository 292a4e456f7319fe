use rust_server::auth::{authorize, collect_permissions, extract_token, has_permissions, user_id_from_subject, Claims};
use rust_server::errors::ApiError;
use rust_server::groups::Group;
use rust_server::ids::DocId;
use rust_server::users::User;

fn group(name: &str, perms: &[&str]) -> Group {
    Group { id: None, name: name.to_string(), permissions: perms.iter().map(|p| p.to_string()).collect() }
}

fn user_with(groups: Vec<Group>) -> User {
    User {
        id: None,
        username: "ann".to_string(),
        email: "ann@example.org".to_string(),
        password: String::new(),
        groups,
        last_login: None,
    }
}

#[test]
fn object_id_parses_24_hex_digits() {
    let id = DocId::parse("507f1f77bcf86cd799439011").unwrap();
    assert_eq!(id.bytes, [0x50, 0x7f, 0x1f, 0x77, 0xbc, 0xf8, 0x6c, 0xd7, 0x99, 0x43, 0x90, 0x11]);
    let upper = DocId::parse("507F1F77BCF86CD799439011").unwrap();
    assert_eq!(upper, id);
}

#[test]
fn object_id_rejects_other_text() {
    assert_eq!(DocId::parse("507f1f77bcf86cd79943901"), None);
    assert_eq!(DocId::parse("507f1f77bcf86cd7994390111"), None);
    assert_eq!(DocId::parse("507f1f77bcf86cd79943901g"), None);
    assert_eq!(DocId::parse(""), None);
    assert_eq!(DocId::parse("507f1f77bcf86cd79943901é"), None);
}

#[test]
fn object_id_hex_round_trip() {
    let id = DocId { bytes: [0, 1, 2, 0xab, 0xcd, 0xef, 0x10, 0x20, 0x30, 0xfe, 0xff, 0x7f] };
    let hex = id.to_hex();
    assert_eq!(hex, "000102abcdef102030feff7f");
    assert_eq!(DocId::parse(&hex), Some(id));
}

#[test]
fn parse_or_answers_the_given_refusal() {
    let err = ApiError::BadRequest("Invalid user id".to_string());
    assert_eq!(DocId::parse_or("zz", ApiError::BadRequest("Invalid user id".to_string())), Err(err));
    assert!(DocId::parse_or("507f1f77bcf86cd799439011", ApiError::TokenExpired).is_ok());
}

#[test]
fn token_comes_from_cookie_first() {
    assert_eq!(
        extract_token(Some("c1".to_string()), Some("Bearer h1".to_string())),
        Ok("c1".to_string())
    );
}

#[test]
fn token_comes_from_bearer_header() {
    assert_eq!(extract_token(None, Some("Bearer abc.def".to_string())), Ok("abc.def".to_string()));
    assert_eq!(extract_token(None, Some("Bearer ".to_string())), Ok(String::new()));
}

#[test]
fn token_missing_is_unauthorized() {
    let missing = Err(ApiError::Unauthorized("Missing token".to_string()));
    assert_eq!(extract_token(None, None), missing);
    assert_eq!(extract_token(None, Some("Basic abc".to_string())), missing);
    assert_eq!(extract_token(None, Some("bearer abc".to_string())), missing);
    assert_eq!(extract_token(None, Some("Bearer".to_string())), missing);
}

#[test]
fn claims_expire_a_quarter_hour_after_issue() {
    let id = DocId::parse("507f1f77bcf86cd799439011").unwrap();
    let c = Claims::issue("ann", "ann@example.org", &id, 1_700_000_000);
    assert_eq!(c.sub, "507f1f77bcf86cd799439011");
    assert_eq!(c.iat, 1_700_000_000);
    assert_eq!(c.exp, 1_700_000_900);
    assert_eq!(c.username, "ann");
    assert_eq!(c.email, "ann@example.org");
}

#[test]
fn token_subject_names_the_account() {
    let id = DocId::parse("65a1b2c3d4e5f60718293a4b").unwrap();
    let c = Claims::issue("ann", "a@b", &id, 0);
    assert_eq!(user_id_from_subject(&c.sub), Ok(id));
    assert_eq!(
        user_id_from_subject("not-an-id"),
        Err(ApiError::Unauthorized("Invalid user id in token".to_string()))
    );
}

#[test]
fn permissions_are_collected_group_by_group() {
    let groups = vec![group("a", &["list_users", "create_user"]), group("b", &[]), group("c", &["delete_user"])];
    assert_eq!(collect_permissions(&groups), vec!["list_users", "create_user", "delete_user"]);
}

#[test]
fn every_required_permission_must_be_granted() {
    let groups = vec![group("a", &["list_users"]), group("b", &["create_groups"])];
    assert!(has_permissions(&groups, &["list_users", "create_groups"]));
    assert!(has_permissions(&groups, &[]));
    assert!(!has_permissions(&groups, &["list_users", "delete_user"]));
    assert!(!has_permissions(&Vec::new(), &["list_users"]));
}

#[test]
fn authorize_decides_route_access() {
    let u = user_with(vec![group("admins", &["anime_create"])]);
    assert_eq!(authorize(Some(&u), &["anime_create"]), Ok(()));
    assert_eq!(
        authorize(Some(&u), &["patch_user"]),
        Err(ApiError::Forbidden("Insufficient permissions".to_string()))
    );
    assert_eq!(authorize(None, &["anime_create"]), Err(ApiError::Unauthorized("User not found".to_string())));
}

#[test]
fn joining_a_group_keeps_permissions() {
    let mut groups = vec![group("a", &["list_users"])];
    assert!(has_permissions(&groups, &["list_users"]));
    groups.push(group("b", &["other"]));
    assert!(has_permissions(&groups, &["list_users"]));
}
