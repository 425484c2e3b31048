//! Error enrichment: structured request and user context, correlation IDs and
//! optional stack traces, so that failures are debuggable without having to
//! cross-reference logs by timestamp alone.

use crate::clock::{fresh_id, Timestamp};
use crate::models::ApiError;
use crate::strmap::StrMap;
use crate::text;
use crate::text::{copied, split_list, trimmed};
use vstd::prelude::*;

verus! {

/// The header that carries a correlation id.
pub const CORRELATION_ID_HEADER: &'static str = "x-correlation-id";

/// Snapshot of the HTTP request an error occurred while handling.
#[derive(Debug)]
pub struct RequestContext {
    pub method: String,
    pub path: String,
    pub query: Option<String>,
}

impl Clone for RequestContext {
    fn clone(&self) -> (r: Self)
        ensures
            r == *self,
    {
        RequestContext {
            method: self.method.clone(),
            path: self.path.clone(),
            query: copied(&self.query),
        }
    }
}

impl RequestContext {
    /// Whether this is the snapshot of the given parts.
    pub open spec fn is_of(self, method: Seq<char>, path: Seq<char>, query: Option<&str>) -> bool {
        &&& self.method@ == method
        &&& self.path@ == path
        &&& self.query is Some == query is Some
        &&& query is Some ==> self.query->0@ == query->0@
    }

    /// The snapshot of a method, a path and a query.
    pub fn from_parts(method: &str, path: &str, query: Option<&str>) -> (r: Self)
        ensures
            r.is_of(method@, path@, query),
    {
        RequestContext {
            method: method.to_owned(),
            path: path.to_owned(),
            query: match query {
                Some(q) => Some(q.to_owned()),
                None => None,
            },
        }
    }
}

/// Who was making the request, when known.
#[derive(Debug)]
pub struct UserContext {
    pub user_id: Option<String>,
    pub tenant_id: Option<String>,
    pub roles: Vec<String>,
}

impl Default for UserContext {
    fn default() -> (r: Self)
        ensures
            r.user_id is None,
            r.tenant_id is None,
            r.roles@.len() == 0,
    {
        UserContext { user_id: None, tenant_id: None, roles: Vec::new() }
    }
}

/// The value of a header, where it is there.
pub open spec fn header_value(headers: Map<Seq<char>, String>, name: Seq<char>) -> Option<String> {
    if headers.contains_key(name) {
        Some(headers[name])
    } else {
        None
    }
}

/// The value of a header.
fn header_str(headers: &StrMap<String>, name: &str) -> (r: Option<String>)
    ensures
        r == header_value(headers@, name@),
{
    match headers.get(name) {
        Some(v) => Some(v.clone()),
        None => None,
    }
}

/// The roles in a header: what stands between commas, without the white space
/// around it.
pub open spec fn roles_of(v: Seq<char>) -> Seq<Seq<char>> {
    text::split_at_each(v, ',').map_values(|s: Seq<char>| text::trim(s))
}

impl UserContext {
    /// Whether this is what the headers say of a user.
    pub open spec fn is_from(self, headers: Map<Seq<char>, String>) -> bool {
        &&& self.user_id == header_value(headers, "x-user-id"@)
        &&& self.tenant_id == header_value(headers, "x-tenant-id"@)
        &&& text::texts(self.roles@) == match header_value(headers, "x-user-roles"@) {
            Some(v) => roles_of(v@),
            None => Seq::empty(),
        }
    }

    /// What the headers say of a user. Header names are in lower case.
    pub fn from_headers(headers: &StrMap<String>) -> (r: Self)
        ensures
            r.is_from(headers@),
    {
        let mut roles: Vec<String> = Vec::new();
        match headers.get("x-user-roles") {
            Some(v) => {
                let parts = split_list(v.as_str(), ',');
                let ghost split = text::split_at_each(v@, ',');
                let mut i: usize = 0;
                while i < parts.len()
                    invariant
                        i <= parts@.len(),
                        text::texts(parts@) == split,
                        roles@.len() == i,
                        forall|j: int|
                            0 <= j < i ==> (#[trigger] roles@[j])@ == text::trim(parts@[j]@),
                    decreases parts@.len() - i,
                {
                    roles.push(trimmed(parts[i].as_str()));
                    i += 1;
                }
                proof {
                    assert(split.len() == parts@.len());
                    assert forall|j: int| 0 <= j < roles@.len() implies text::texts(roles@)[j]
                        == #[trigger] roles_of(v@)[j] by {
                        assert(split[j] == parts@[j]@);
                        assert(roles@[j]@ == text::trim(parts@[j]@));
                    }
                    assert(text::texts(roles@) =~= roles_of(v@));
                }
            },
            None => {
                assert(text::texts(roles@) =~= Seq::<Seq<char>>::empty());
            },
        }
        UserContext {
            user_id: header_str(headers, "x-user-id"),
            tenant_id: header_str(headers, "x-tenant-id"),
            roles,
        }
    }
}

/// The full context attached to an enriched error: correlation id, timestamp,
/// request info, user info, and (optionally) a captured stack trace.
#[derive(Debug)]
pub struct ErrorContext {
    pub correlation_id: String,
    pub timestamp: Timestamp,
    pub request: Option<RequestContext>,
    pub user: Option<UserContext>,
    pub stack_trace: Option<String>,
}

impl Default for ErrorContext {
    fn default() -> (r: Self)
        ensures
            r.correlation_id@.len() == 36,
            r.request is None,
            r.user is None,
            r.stack_trace is None,
    {
        ErrorContext::new()
    }
}

impl ErrorContext {
    /// A context with a fresh correlation id and the present time.
    pub fn new() -> (r: Self)
        ensures
            r.correlation_id@.len() == 36,
            r.request is None,
            r.user is None,
            r.stack_trace is None,
    {
        ErrorContext {
            correlation_id: fresh_id(),
            timestamp: Timestamp::now(),
            request: None,
            user: None,
            stack_trace: None,
        }
    }

    /// The context with another correlation id.
    pub fn with_correlation_id(self, id: &str) -> (r: Self)
        ensures
            r.correlation_id@ == id@,
            r == (ErrorContext { correlation_id: r.correlation_id, ..self }),
    {
        let mut r = self;
        r.correlation_id = id.to_owned();
        r
    }

    /// The context with a request.
    pub fn with_request(self, request: RequestContext) -> (r: Self)
        ensures
            r == (ErrorContext { request: Some(request), ..self }),
    {
        let mut r = self;
        r.request = Some(request);
        r
    }

    /// The context with a user.
    pub fn with_user(self, user: UserContext) -> (r: Self)
        ensures
            r == (ErrorContext { user: Some(user), ..self }),
    {
        let mut r = self;
        r.user = Some(user);
        r
    }

    /// The context with a captured stack trace.
    pub fn capture_stack_trace(self, trace: String) -> (r: Self)
        ensures
            r == (ErrorContext { stack_trace: Some(trace), ..self }),
    {
        let mut r = self;
        r.stack_trace = Some(trace);
        r
    }

    /// Whether this is the context of a request under a correlation id.
    pub open spec fn is_of_request(
        self,
        id: Seq<char>,
        method: Seq<char>,
        path: Seq<char>,
        query: Option<&str>,
        headers: Map<Seq<char>, String>,
    ) -> bool {
        &&& self.correlation_id@ == id
        &&& self.request is Some && self.request->0.is_of(method, path, query)
        &&& self.user is Some && self.user->0.is_from(headers)
        &&& self.stack_trace is None
    }

    /// The context of a request. Its correlation id is the one that the request
    /// carries, or a fresh one.
    pub fn from_request(
        method: &str,
        path: &str,
        query: Option<&str>,
        headers: &StrMap<String>,
    ) -> (r: Self)
        ensures
            r.is_of_request(r.correlation_id@, method@, path@, query, headers@),
            headers@.contains_key(CORRELATION_ID_HEADER@) ==> r.correlation_id@
                == headers@[CORRELATION_ID_HEADER@]@,
            !headers@.contains_key(CORRELATION_ID_HEADER@) ==> r.correlation_id@.len() == 36,
    {
        let id = correlation_id(headers);
        ErrorContext::new().with_correlation_id(id.as_str()).with_request(
            RequestContext::from_parts(method, path, query),
        ).with_user(UserContext::from_headers(headers))
    }
}

/// The correlation id of a request: the one that it carries, or else `fresh`.
pub fn correlation_id_of(headers: &StrMap<String>, fresh: String) -> (r: String)
    ensures
        r == match header_value(headers@, CORRELATION_ID_HEADER@) {
            Some(v) => v,
            None => fresh,
        },
{
    match headers.get(CORRELATION_ID_HEADER) {
        Some(v) => v.clone(),
        None => fresh,
    }
}

/// The correlation id of a request: the one that it carries, or a fresh one.
pub fn correlation_id(headers: &StrMap<String>) -> (r: String)
    ensures
        match header_value(headers@, CORRELATION_ID_HEADER@) {
            Some(v) => r == v,
            None => r@.len() == 36,
        },
{
    let fresh = fresh_id();
    correlation_id_of(headers, fresh)
}

/// What can go wrong in a handler.
#[derive(Debug)]
pub enum AppError {
    NotFound,
    InvalidInput(String),
    /// The database failed, with its own words.
    Db(String),
    DatabaseError,
    TwoFactorRequired,
    TwoFactorNotEnabled,
    /// An error that carries its own status and code.
    Api(ApiError),
}

impl AppError {
    /// The HTTP status of an error.
    pub open spec fn spec_status(self) -> u16 {
        match self {
            AppError::NotFound => 404,
            AppError::InvalidInput(_) => 422,
            AppError::Db(_) => 500,
            AppError::DatabaseError => 500,
            AppError::TwoFactorRequired => 401,
            AppError::TwoFactorNotEnabled => 400,
            AppError::Api(api) => api.status,
        }
    }

    /// The code of an error.
    pub open spec fn spec_code(self) -> Seq<char> {
        match self {
            AppError::NotFound => "not_found"@,
            AppError::InvalidInput(_) => "invalid_input"@,
            AppError::Db(_) => "internal_error"@,
            AppError::DatabaseError => "internal_error"@,
            AppError::TwoFactorRequired => "two_factor_required"@,
            AppError::TwoFactorNotEnabled => "two_factor_not_enabled"@,
            AppError::Api(api) => api.code@,
        }
    }
}

/// The HTTP status and the code of an error.
pub fn classify(error: &AppError) -> (r: (u16, String))
    ensures
        r.0 == error.spec_status(),
        r.1@ == error.spec_code(),
{
    match error {
        AppError::NotFound => (404, "not_found".to_owned()),
        AppError::InvalidInput(_) => (422, "invalid_input".to_owned()),
        AppError::Db(_) => (500, "internal_error".to_owned()),
        AppError::DatabaseError => (500, "internal_error".to_owned()),
        AppError::TwoFactorRequired => (401, "two_factor_required".to_owned()),
        AppError::TwoFactorNotEnabled => (400, "two_factor_not_enabled".to_owned()),
        AppError::Api(api) => (api.status, api.code.clone()),
    }
}

/// An `AppError` enriched with request/user/correlation context, ready to be
/// returned directly from a handler.
#[derive(Debug)]
pub struct EnrichedError {
    pub code: String,
    pub message: String,
    pub context: ErrorContext,
    pub status: u16,
}

impl EnrichedError {
    /// Whether this is an error, in the given words, with a context.
    pub open spec fn enriches(self, error: AppError, message: String, context: ErrorContext) -> bool {
        &&& self.code@ == error.spec_code()
        &&& self.status == error.spec_status()
        &&& self.message == message
        &&& self.context == context
    }

    /// An error, in the given words, with its context.
    pub fn new(error: AppError, message: String, context: ErrorContext) -> (r: Self)
        ensures
            r.enriches(error, message, context),
    {
        let (status, code) = classify(&error);
        EnrichedError { code, message, context, status }
    }
}

/// Convenience extension for attaching context to any `AppError` at the point
/// it's returned from a handler.
pub trait EnrichExt: Sized {
    /// The error that is enriched.
    spec fn error(self) -> AppError;

    /// The error, in the given words, with a context.
    fn enrich(self, message: String, context: ErrorContext) -> (r: EnrichedError)
        ensures
            r.enriches(self.error(), message, context),
    ;
}

impl EnrichExt for AppError {
    open spec fn error(self) -> AppError {
        self
    }

    fn enrich(self, message: String, context: ErrorContext) -> (r: EnrichedError) {
        EnrichedError::new(self, message, context)
    }
}

/// Every error has its status and its code.
pub proof fn law_errors_have_their_status(s: String, api: ApiError)
    ensures
        AppError::NotFound.spec_status() == 404 && AppError::NotFound.spec_code() == "not_found"@,
        AppError::InvalidInput(s).spec_status() == 422 && AppError::InvalidInput(s).spec_code()
            == "invalid_input"@,
        AppError::Db(s).spec_status() == 500 && AppError::Db(s).spec_code() == "internal_error"@,
        AppError::DatabaseError.spec_status() == 500 && AppError::DatabaseError.spec_code()
            == "internal_error"@,
        AppError::TwoFactorRequired.spec_status() == 401 && AppError::TwoFactorRequired.spec_code()
            == "two_factor_required"@,
        AppError::TwoFactorNotEnabled.spec_status() == 400
            && AppError::TwoFactorNotEnabled.spec_code() == "two_factor_not_enabled"@,
        AppError::Api(api).spec_status() == api.status && AppError::Api(api).spec_code()
            == api.code@,
{
}

/// What went wrong inside is not told apart outside: errors of the database have
/// one status and one code.
pub proof fn law_inner_errors_look_alike(a: String, b: String)
    ensures
        AppError::Db(a).spec_status() == AppError::Db(b).spec_status(),
        AppError::Db(a).spec_code() == AppError::Db(b).spec_code(),
        AppError::Db(a).spec_code() == AppError::DatabaseError.spec_code(),
{
}

/// A user is known by the headers that name them, and has the roles that are
/// listed there with commas in between, without the space around them.
pub proof fn law_user_comes_from_the_headers(
    u: UserContext,
    headers: Map<Seq<char>, String>,
    i: int,
)
    requires
        u.is_from(headers),
    ensures
        headers.contains_key("x-user-id"@) ==> u.user_id == Some(headers["x-user-id"@]),
        !headers.contains_key("x-user-id"@) ==> u.user_id is None,
        headers.contains_key("x-tenant-id"@) ==> u.tenant_id == Some(headers["x-tenant-id"@]),
        !headers.contains_key("x-tenant-id"@) ==> u.tenant_id is None,
        !headers.contains_key("x-user-roles"@) ==> u.roles@.len() == 0,
        headers.contains_key("x-user-roles"@) ==> u.roles@.len() == text::split_at_each(
            headers["x-user-roles"@]@,
            ',',
        ).len(),
        headers.contains_key("x-user-roles"@) && 0 <= i < u.roles@.len() ==> u.roles@[i]@
            == text::trim(text::split_at_each(headers["x-user-roles"@]@, ',')[i]),
{
    let t = text::texts(u.roles@);
    assert(t.len() == u.roles@.len());
    if 0 <= i < u.roles@.len() {
        assert(t[i] == u.roles@[i]@);
    }
}

/// The context of a request carries its correlation, its method, path and query,
/// and its user, and no stack trace.
pub proof fn law_context_carries_the_request(
    c: ErrorContext,
    id: Seq<char>,
    method: Seq<char>,
    path: Seq<char>,
    query: Option<&str>,
    headers: Map<Seq<char>, String>,
)
    requires
        c.is_of_request(id, method, path, query, headers),
    ensures
        c.correlation_id@ == id,
        c.request is Some,
        c.request->0.method@ == method,
        c.request->0.path@ == path,
        query is None ==> c.request->0.query is None,
        query is Some ==> c.request->0.query is Some && c.request->0.query->0@ == query->0@,
        c.user is Some,
        headers.contains_key("x-user-id"@) ==> c.user->0.user_id == Some(headers["x-user-id"@]),
        c.stack_trace is None,
{
}

/// An error is enriched with its own status and code, the words and the context
/// that are given.
pub proof fn law_error_is_enriched(
    e: EnrichedError,
    error: AppError,
    message: String,
    context: ErrorContext,
)
    requires
        e.enriches(error, message, context),
    ensures
        e.status == error.spec_status(),
        e.code@ == error.spec_code(),
        e.message == message,
        e.context == context,
{
}

} // verus!
