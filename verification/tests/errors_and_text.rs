use rust_server::catalog::parse_id_list;
use rust_server::errors::{found_or, ApiError};
use rust_server::text::{parse_u32, push_decimal, trimmed};

#[test]
fn status_codes_follow_error_kinds() {
    assert_eq!(ApiError::InternalServer("x".to_string()).status_code(), 500);
    assert_eq!(ApiError::NotFound("x".to_string()).status_code(), 404);
    assert_eq!(ApiError::BadRequest("x".to_string()).status_code(), 400);
    assert_eq!(ApiError::Unauthorized("x".to_string()).status_code(), 401);
    assert_eq!(ApiError::Forbidden("x".to_string()).status_code(), 403);
    assert_eq!(ApiError::TokenExpired.status_code(), 401);
    assert_eq!(ApiError::ValidationError("x".to_string()).status_code(), 400);
    assert_eq!(ApiError::BadGateway("x".to_string()).status_code(), 502);
    assert_eq!(ApiError::TooManyRequests("x".to_string()).status_code(), 429);
    assert_eq!(ApiError::Conflict("x".to_string()).status_code(), 409);
}

#[test]
fn messages_carry_prefix_and_detail() {
    assert_eq!(
        ApiError::InternalServer("db down".to_string()).message(),
        "internal server error: db down"
    );
    assert_eq!(ApiError::NotFound("Group not found".to_string()).message(), "not found: Group not found");
    assert_eq!(ApiError::BadRequest("b".to_string()).message(), "bad request: b");
    assert_eq!(ApiError::Unauthorized("u".to_string()).message(), "unauthorized: u");
    assert_eq!(ApiError::Forbidden("f".to_string()).message(), "forbidden: f");
    assert_eq!(ApiError::TokenExpired.message(), "token expired");
    assert_eq!(ApiError::ValidationError("v".to_string()).message(), "validation error: v");
    assert_eq!(ApiError::BadGateway("g".to_string()).message(), "bad gateway: g");
    assert_eq!(ApiError::TooManyRequests("t".to_string()).message(), "too many requests: t");
    assert_eq!(ApiError::Conflict("c".to_string()).message(), "conflict: c");
}

#[test]
fn found_or_returns_value_or_refusal() {
    assert_eq!(found_or(Some(3), ApiError::NotFound("n".to_string())), Ok(3));
    assert_eq!(
        found_or::<u8>(None, ApiError::NotFound("User not found".to_string())),
        Err(ApiError::NotFound("User not found".to_string()))
    );
}

#[test]
fn decimal_text_of_integers() {
    let mut s = String::from("id=");
    push_decimal(&mut s, 0);
    assert_eq!(s, "id=0");
    let mut s = String::new();
    push_decimal(&mut s, 1234567);
    assert_eq!(s, "1234567");
    let mut s = String::new();
    push_decimal(&mut s, -45);
    assert_eq!(s, "-45");
    let mut s = String::new();
    push_decimal(&mut s, i64::MIN);
    assert_eq!(s, i64::MIN.to_string());
    let mut s = String::new();
    push_decimal(&mut s, i64::MAX);
    assert_eq!(s, i64::MAX.to_string());
}

#[test]
fn trimming_matches_str_trim() {
    for s in ["", "  ", " a b ", "\t\nx\r", "\u{3000}日本\u{a0}", "abc", " \u{2009}z\u{85}"] {
        assert_eq!(trimmed(s), s.trim());
    }
}

#[test]
fn u32_parsing_matches_std() {
    for s in ["0", "42", "+7", "+", "", "-1", "4294967295", "4294967296", "00012", "1a", " 1", "99999999999"] {
        assert_eq!(parse_u32(s), s.parse::<u32>().ok(), "input {:?}", s);
    }
}

#[test]
fn id_list_skips_pieces_that_are_not_ids() {
    assert_eq!(parse_id_list("1, 2,x,3"), Ok(vec![1, 2, 3]));
    assert_eq!(parse_id_list(" 20 "), Ok(vec![20]));
    assert_eq!(parse_id_list("5,,5"), Ok(vec![5, 5]));
    assert_eq!(parse_id_list("+9,-1,4294967296,7"), Ok(vec![9, 7]));
}

#[test]
fn id_list_without_ids_is_refused() {
    let refused = Err(ApiError::BadRequest("No valid ids provided".to_string()));
    assert_eq!(parse_id_list(""), refused);
    assert_eq!(parse_id_list("a,b, ,"), refused);
    assert_eq!(parse_id_list(","), refused);
}
