use vstd::prelude::*;

verus! {

/// Errors the service answers with; each carries the detail shown to the client.
#[derive(Debug, PartialEq, Eq)]
pub enum ApiError {
    InternalServer(String),
    NotFound(String),
    BadRequest(String),
    Unauthorized(String),
    Forbidden(String),
    TokenExpired,
    ValidationError(String),
    BadGateway(String),
    TooManyRequests(String),
    Conflict(String),
}

/// An error as the contracts see it: its kind and the text of its detail.
pub enum ApiErrorView {
    InternalServer(Seq<char>),
    NotFound(Seq<char>),
    BadRequest(Seq<char>),
    Unauthorized(Seq<char>),
    Forbidden(Seq<char>),
    TokenExpired,
    ValidationError(Seq<char>),
    BadGateway(Seq<char>),
    TooManyRequests(Seq<char>),
    Conflict(Seq<char>),
}

impl View for ApiError {
    type V = ApiErrorView;

    open spec fn view(&self) -> ApiErrorView {
        match self {
            ApiError::InternalServer(d) => ApiErrorView::InternalServer(d@),
            ApiError::NotFound(d) => ApiErrorView::NotFound(d@),
            ApiError::BadRequest(d) => ApiErrorView::BadRequest(d@),
            ApiError::Unauthorized(d) => ApiErrorView::Unauthorized(d@),
            ApiError::Forbidden(d) => ApiErrorView::Forbidden(d@),
            ApiError::TokenExpired => ApiErrorView::TokenExpired,
            ApiError::ValidationError(d) => ApiErrorView::ValidationError(d@),
            ApiError::BadGateway(d) => ApiErrorView::BadGateway(d@),
            ApiError::TooManyRequests(d) => ApiErrorView::TooManyRequests(d@),
            ApiError::Conflict(d) => ApiErrorView::Conflict(d@),
        }
    }
}

/// The view of a result whose error is an `ApiError`.
pub open spec fn result_view<T>(r: Result<T, ApiError>) -> Result<T, ApiErrorView> {
    match r {
        Ok(v) => Ok(v),
        Err(e) => Err(e@),
    }
}

/// The found value, or the refusal `err` when nothing was found.
pub fn found_or<T>(found: Option<T>, err: ApiError) -> (r: Result<T, ApiError>)
    ensures
        match r {
            Ok(v) => found == Some(v),
            Err(e) => found is None && e == err,
        },
{
    match found {
        Some(v) => Ok(v),
        None => Err(err),
    }
}

/// The HTTP status code that answers an error.
pub open spec fn spec_status_code(e: ApiError) -> u16 {
    match e {
        ApiError::InternalServer(_) => 500,
        ApiError::NotFound(_) => 404,
        ApiError::BadRequest(_) => 400,
        ApiError::Unauthorized(_) => 401,
        ApiError::Forbidden(_) => 403,
        ApiError::TokenExpired => 401,
        ApiError::ValidationError(_) => 400,
        ApiError::BadGateway(_) => 502,
        ApiError::TooManyRequests(_) => 429,
        ApiError::Conflict(_) => 409,
    }
}

/// The text shown for an error: a fixed prefix per kind followed by its detail.
pub open spec fn spec_message(e: ApiError) -> Seq<char> {
    match e {
        ApiError::InternalServer(d) => "internal server error: "@ + d@,
        ApiError::NotFound(d) => "not found: "@ + d@,
        ApiError::BadRequest(d) => "bad request: "@ + d@,
        ApiError::Unauthorized(d) => "unauthorized: "@ + d@,
        ApiError::Forbidden(d) => "forbidden: "@ + d@,
        ApiError::TokenExpired => "token expired"@,
        ApiError::ValidationError(d) => "validation error: "@ + d@,
        ApiError::BadGateway(d) => "bad gateway: "@ + d@,
        ApiError::TooManyRequests(d) => "too many requests: "@ + d@,
        ApiError::Conflict(d) => "conflict: "@ + d@,
    }
}

/// The status code of each kind of error: 500 for an internal fault, 404 when something is not
/// found, 400 for a bad request or a failed validation, 401 when the caller is not authenticated
/// or its token expired, 403 when it lacks a permission, 502 when the anime database failed,
/// 429 when it refused for load, and 409 for a conflict.
pub proof fn lemma_status_code_of_each_kind(e: ApiError)
    ensures
        e is InternalServer ==> spec_status_code(e) == 500,
        e is NotFound ==> spec_status_code(e) == 404,
        e is BadRequest ==> spec_status_code(e) == 400,
        e is Unauthorized ==> spec_status_code(e) == 401,
        e is Forbidden ==> spec_status_code(e) == 403,
        e is ValidationError ==> spec_status_code(e) == 400,
        e is BadGateway ==> spec_status_code(e) == 502,
        e is TooManyRequests ==> spec_status_code(e) == 429,
        e is Conflict ==> spec_status_code(e) == 409,
        e is TokenExpired ==> spec_status_code(e) == 401,
        e is InternalServer || e is BadGateway <==> spec_status_code(e) >= 500,
{
}

/// The text of each kind of error: the kind's prefix followed by the detail it carries; an
/// expired token is reported without detail.
pub proof fn lemma_message_of_each_kind(e: ApiError)
    ensures
        e matches ApiError::InternalServer(d) ==> spec_message(e) == "internal server error: "@ + d@,
        e matches ApiError::NotFound(d) ==> spec_message(e) == "not found: "@ + d@,
        e matches ApiError::BadRequest(d) ==> spec_message(e) == "bad request: "@ + d@,
        e matches ApiError::Unauthorized(d) ==> spec_message(e) == "unauthorized: "@ + d@,
        e matches ApiError::Forbidden(d) ==> spec_message(e) == "forbidden: "@ + d@,
        e matches ApiError::ValidationError(d) ==> spec_message(e) == "validation error: "@ + d@,
        e matches ApiError::BadGateway(d) ==> spec_message(e) == "bad gateway: "@ + d@,
        e matches ApiError::TooManyRequests(d) ==> spec_message(e) == "too many requests: "@ + d@,
        e matches ApiError::Conflict(d) ==> spec_message(e) == "conflict: "@ + d@,
        e is TokenExpired ==> spec_message(e) == "token expired"@,
{
}

/// The text of an error that carries a detail ends with that detail.
pub proof fn lemma_message_ends_with_detail(e: ApiError, d: String)
    requires
        e@ == ApiErrorView::InternalServer(d@) || e@ == ApiErrorView::NotFound(d@) || e@
            == ApiErrorView::BadRequest(d@) || e@ == ApiErrorView::Unauthorized(d@) || e@
            == ApiErrorView::Forbidden(d@) || e@ == ApiErrorView::ValidationError(d@) || e@
            == ApiErrorView::BadGateway(d@) || e@ == ApiErrorView::TooManyRequests(d@) || e@
            == ApiErrorView::Conflict(d@),
    ensures
        spec_message(e).len() >= d@.len(),
        spec_message(e).subrange(spec_message(e).len() - d@.len(), spec_message(e).len() as int)
            == d@,
{
    let m = spec_message(e);
    let pre = m.len() - d@.len();
    assert(m.subrange(pre, m.len() as int) =~= d@);
}

/// A string holding `prefix` followed by `detail`.
fn prefixed(prefix: &str, detail: &String) -> (r: String)
    ensures
        r@ == prefix@ + detail@,
{
    let mut r = String::from_str(prefix);
    r.append(detail.as_str());
    r
}

impl ApiError {
    /// The HTTP status code of the response that carries this error.
    pub fn status_code(&self) -> (code: u16)
        ensures
            code == spec_status_code(*self),
    {
        match self {
            ApiError::InternalServer(_) => 500,
            ApiError::NotFound(_) => 404,
            ApiError::BadRequest(_) => 400,
            ApiError::Unauthorized(_) => 401,
            ApiError::Forbidden(_) => 403,
            ApiError::TokenExpired => 401,
            ApiError::ValidationError(_) => 400,
            ApiError::BadGateway(_) => 502,
            ApiError::TooManyRequests(_) => 429,
            ApiError::Conflict(_) => 409,
        }
    }

    /// The text of the error, as written into the `error` field of a response body.
    pub fn message(&self) -> (m: String)
        ensures
            m@ == spec_message(*self),
    {
        match self {
            ApiError::InternalServer(d) => prefixed("internal server error: ", d),
            ApiError::NotFound(d) => prefixed("not found: ", d),
            ApiError::BadRequest(d) => prefixed("bad request: ", d),
            ApiError::Unauthorized(d) => prefixed("unauthorized: ", d),
            ApiError::Forbidden(d) => prefixed("forbidden: ", d),
            ApiError::TokenExpired => String::from_str("token expired"),
            ApiError::ValidationError(d) => prefixed("validation error: ", d),
            ApiError::BadGateway(d) => prefixed("bad gateway: ", d),
            ApiError::TooManyRequests(d) => prefixed("too many requests: ", d),
            ApiError::Conflict(d) => prefixed("conflict: ", d),
        }
    }
}

} // verus!
