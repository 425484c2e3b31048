//! What the audit log records of a request, and who may read it.

use crate::clock::Timestamp;
use crate::json::Json;
use crate::models::{ApiError, AuditLogEntry};
use crate::strmap::StrMap;
use crate::text;
use crate::text::{chars_of, position_of, starts_with, str_eq, string_of, trim_bounds};
use vstd::prelude::*;
use vstd::string::*;

verus! {

/// The admin key that the deployment asks for; empty when it asks for none.
pub open spec fn admin_key(vars: Map<Seq<char>, String>) -> Seq<char> {
    if vars.contains_key("ADMIN_API_KEY"@) {
        vars["ADMIN_API_KEY"@]@
    } else {
        Seq::empty()
    }
}

/// Whether a request with these headers passes the admin check: no key is
/// asked for, or the bearer token is the key.
pub open spec fn admin_admitted(
    vars: Map<Seq<char>, String>,
    headers: Map<Seq<char>, String>,
) -> bool {
    admin_key(vars).len() == 0 || (headers.contains_key("authorization"@)
        && headers["authorization"@]@ == "Bearer "@ + admin_key(vars))
}

/// Check that the request carries a valid admin API key.
pub fn authorize_admin(vars: &StrMap<String>, headers: &StrMap<String>) -> (r: Result<
    (),
    ApiError,
>)
    ensures
        match r {
            Ok(_) => admin_admitted(vars@, headers@),
            Err(e) => !admin_admitted(vars@, headers@) && e.status == 401 && e.code@
                == "unauthorized"@ && e.message@ == "valid admin API key required"@,
        },
{
    let key: &str = match vars.get("ADMIN_API_KEY") {
        Some(k) => k.as_str(),
        None => "",
    };
    proof {
        reveal_strlit("");
        reveal_strlit("Bearer ");
        if !vars@.contains_key("ADMIN_API_KEY"@) {
            assert(key@ =~= Seq::<char>::empty());
        }
        assert(key@ == admin_key(vars@));
    }
    if key.is_empty() {
        return Ok(());
    }
    let header: &str = match headers.get("authorization") {
        Some(h) => h.as_str(),
        None => "",
    };
    let expected = text::joined("Bearer ", key);
    if str_eq(header, expected.as_str()) {
        proof {
            assert(header@.len() > 0);
        }
        return Ok(());
    }
    Err(ApiError::new(401, "unauthorized", "valid admin API key required"))
}

/// Where a request is recorded to have come from: the first address of the
/// forwarding chain, else the proxy's word, else unknown.
pub open spec fn client_ip(headers: Map<Seq<char>, String>) -> Seq<char> {
    if headers.contains_key("x-forwarded-for"@) {
        text::trim(text::until(headers["x-forwarded-for"@]@, ','))
    } else if headers.contains_key("x-real-ip"@) {
        headers["x-real-ip"@]@
    } else {
        "unknown"@
    }
}

/// Where a request is recorded to have come from.
pub fn extract_client_ip(headers: &StrMap<String>) -> (r: String)
    ensures
        r@ == client_ip(headers@),
{
    match headers.get("x-forwarded-for") {
        Some(val) => {
            let chars = chars_of(val.as_str());
            let n: usize = position_of(&chars, ',', 0);
            assert(chars@.take(n as int) =~= chars@.subrange(0, n as int));
            let (a, b) = trim_bounds(&chars, 0, n);
            string_of(&chars, a, b)
        },
        None => match headers.get("x-real-ip") {
            Some(val) => val.clone(),
            None => "unknown".to_owned(),
        },
    }
}

/// The user that a request names; empty when it names none.
pub open spec fn user_id(headers: Map<Seq<char>, String>) -> Seq<char> {
    if headers.contains_key("x-user-id"@) {
        headers["x-user-id"@]@
    } else {
        Seq::empty()
    }
}

/// The user that a request names; empty when it names none.
pub fn extract_user_id(headers: &StrMap<String>) -> (r: String)
    ensures
        r@ == user_id(headers@),
{
    match headers.get("x-user-id") {
        Some(val) => val.clone(),
        None => String::new(),
    }
}

/// Whether requests for `path` go into the audit log: those of the API, save
/// the audit log's own.
pub open spec fn audited(path: Seq<char>) -> bool {
    &&& text::has_prefix(path, "/api/"@)
    &&& !text::has_prefix(path, "/api/audit-logs"@)
    &&& path != "/health"@
    &&& path != "/ready"@
}

/// Whether requests for `path` go into the audit log.
pub fn is_audited(path: &str) -> (r: bool)
    ensures
        r == audited(path@),
{
    if str_eq(path, "/health") || str_eq(path, "/ready") || starts_with(path, "/api/audit-logs") {
        return false;
    }
    starts_with(path, "/api/")
}

/// How the audit log words a response's status code.
pub open spec fn outcome(status: u16) -> Seq<char> {
    if 200 <= status < 300 {
        "success"@
    } else if 500 <= status < 600 {
        "error"@
    } else {
        "failure"@
    }
}

/// How the audit log words a response's status code.
pub fn outcome_word(status: u16) -> (r: String)
    ensures
        r@ == outcome(status),
{
    if 200 <= status && status < 300 {
        "success".to_owned()
    } else if 500 <= status && status < 600 {
        "error".to_owned()
    } else {
        "failure".to_owned()
    }
}

/// The audit line for a request and the status it was answered with: none for
/// requests that are not audited.
pub fn request_entry(
    method: &str,
    path: &str,
    headers: &StrMap<String>,
    status: u16,
    now: Timestamp,
) -> (r: Option<AuditLogEntry>)
    ensures
        match r {
            Some(e) => {
                &&& audited(path@)
                &&& e.id == 0
                &&& e.timestamp == now
                &&& e.user_id@ == user_id(headers@)
                &&& e.action@ == method@
                &&& e.resource@ == path@
                &&& e.result@ == outcome(status)
                &&& e.ip_address@ == client_ip(headers@)
                &&& e.details is Some
                &&& e.details->0.member("status_code"@) == Some(Json::Int(status as i128))
                &&& forall|k: Seq<char>|
                    k != "status_code"@ ==> #[trigger] e.details->0.member(k) is None
            },
            None => !audited(path@),
        },
{
    if !is_audited(path) {
        return None;
    }
    let details = Json::object().with("status_code", Json::Int(status as i128));
    Some(
        AuditLogEntry {
            id: 0,
            timestamp: now,
            user_id: extract_user_id(headers),
            action: method.to_owned(),
            resource: path.to_owned(),
            result: outcome_word(status),
            ip_address: extract_client_ip(headers),
            details: Some(details),
        },
    )
}

/// A structured audit line for a state modification.
pub fn state_modification_entry(
    action: &str,
    resource: &str,
    result: &str,
    headers: &StrMap<String>,
    details: Option<Json>,
    now: Timestamp,
) -> (r: AuditLogEntry)
    ensures
        r.id == 0,
        r.timestamp == now,
        r.user_id@ == user_id(headers@),
        r.action@ == action@,
        r.resource@ == resource@,
        r.result@ == result@,
        r.ip_address@ == client_ip(headers@),
        r.details == details,
{
    AuditLogEntry {
        id: 0,
        timestamp: now,
        user_id: extract_user_id(headers),
        action: action.to_owned(),
        resource: resource.to_owned(),
        result: result.to_owned(),
        ip_address: extract_client_ip(headers),
        details,
    }
}

/// A deployment without an admin key admits every request; one with a key
/// admits no request without the authorization header.
pub proof fn law_admin_key_is_demanded(
    vars: Map<Seq<char>, String>,
    headers: Map<Seq<char>, String>,
)
    ensures
        !vars.contains_key("ADMIN_API_KEY"@) ==> admin_admitted(vars, headers),
        admin_key(vars).len() > 0 && !headers.contains_key("authorization"@) ==> !admin_admitted(
            vars,
            headers,
        ),
{
}

/// Where an administration key is set, the header must carry exactly that key
/// behind the word for a bearer token.
pub proof fn law_admin_key_must_match(
    vars: Map<Seq<char>, String>,
    headers: Map<Seq<char>, String>,
)
    requires
        vars.contains_key("ADMIN_API_KEY"@),
        vars["ADMIN_API_KEY"@]@.len() > 0,
        headers.contains_key("authorization"@),
    ensures
        headers["authorization"@]@ == "Bearer "@ + vars["ADMIN_API_KEY"@]@ ==> admin_admitted(
            vars,
            headers,
        ),
        headers["authorization"@]@ != "Bearer "@ + vars["ADMIN_API_KEY"@]@ ==> !admin_admitted(
            vars,
            headers,
        ),
{
}

/// The client is the first address of a forwarding header; a header with the
/// real address comes second, and without either the client is unknown.
pub proof fn law_client_is_the_first_forwarded(headers: Map<Seq<char>, String>)
    ensures
        headers.contains_key("x-forwarded-for"@) && has_comma(headers["x-forwarded-for"@]@)
            ==> client_ip(headers) == text::trim(
            headers["x-forwarded-for"@]@.take(
                text::first_at(headers["x-forwarded-for"@]@, ',', 0),
            ),
        ),
        headers.contains_key("x-forwarded-for"@) && !has_comma(headers["x-forwarded-for"@]@)
            ==> client_ip(headers) == text::trim(headers["x-forwarded-for"@]@),
        !headers.contains_key("x-forwarded-for"@) && headers.contains_key("x-real-ip"@)
            ==> client_ip(headers) == headers["x-real-ip"@]@,
        !headers.contains_key("x-forwarded-for"@) && !headers.contains_key("x-real-ip"@)
            ==> client_ip(headers) == "unknown"@,
{
    if headers.contains_key("x-forwarded-for"@) {
        let s = headers["x-forwarded-for"@]@;
        text::lemma_first_at(s, ',', 0);
        if !has_comma(s) {
            assert(s.take(text::first_at(s, ',', 0)) =~= s);
        }
    }
}

/// Whether a text holds a comma.
pub open spec fn has_comma(s: Seq<char>) -> bool {
    exists|i: int| 0 <= i < s.len() && s[i] == ','
}

/// Requests to the interface are audited, those for the audit log itself are
/// not, and nothing else is.
pub proof fn law_interface_is_audited(path: Seq<char>)
    ensures
        text::has_prefix(path, "/api/audit-logs"@) ==> !audited(path),
        !text::has_prefix(path, "/api/"@) ==> !audited(path),
        text::has_prefix(path, "/api/"@) && !text::has_prefix(path, "/api/audit-logs"@) ==> audited(
            path,
        ),
{
    reveal_strlit("/api/");
    reveal_strlit("/health");
    reveal_strlit("/ready");
    if text::has_prefix(path, "/api/"@) {
        assert(path.subrange(0, 5)[1] == 'a');
        assert(path[1] == 'a');
    }
}

/// A status from 200 to 299 is a success, one from 500 to 599 an error and any
/// other a failure.
pub proof fn law_outcome_follows_the_status(status: u16)
    ensures
        200 <= status <= 299 ==> outcome(status) == "success"@,
        500 <= status <= 599 ==> outcome(status) == "error"@,
        status < 200 || 300 <= status <= 499 || status >= 600 ==> outcome(status) == "failure"@,
{
}

} // verus!
