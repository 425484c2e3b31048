//! Request decompression: which encoding a body has, and its decoded bytes
//! within a size limit that guards against oversized payloads.

use crate::batching;
use crate::batching::env_usize;
use crate::strmap::StrMap;
use crate::text;
use crate::text::{joined, numbered, str_eq, trimmed};
use std::io::Read;
use vstd::prelude::*;
use vstd::slice::slice_to_vec;
use vstd::string::*;

verus! {

/// Decompression configuration.
///
/// `DECOMP_MAX_BODY_BYTES` (10 MiB by default) is the maximum decompressed body
/// size, `DECOMP_ENABLED` (true by default) switches decompression on or off.
#[derive(Debug, Clone, Copy, PartialEq, Eq, Structural)]
pub struct DecompressionConfig {
    /// Maximum number of bytes allowed after decompression.
    /// Requests whose decompressed body exceeds this limit are rejected.
    pub max_body_bytes: usize,
    /// Whether request decompression is enabled at all.
    pub enabled: bool,
}

/// The default maximum, 10 MiB.
pub const DEFAULT_MAX_BODY_BYTES: usize = 10_485_760;

impl Default for DecompressionConfig {
    fn default() -> (r: Self)
        ensures
            r == (DecompressionConfig { max_body_bytes: 10_485_760, enabled: true }),
    {
        DecompressionConfig { max_body_bytes: DEFAULT_MAX_BODY_BYTES, enabled: true }
    }
}

/// Whether a setting leaves decompression on: anything but `false`, in any
/// case of its letters, and `0`.
pub open spec fn enabled_setting(vars: Map<Seq<char>, String>) -> bool {
    if vars.contains_key("DECOMP_ENABLED"@) {
        let v = vars["DECOMP_ENABLED"@]@;
        text::lowercased(v) != "false"@ && v != "0"@
    } else {
        true
    }
}

impl DecompressionConfig {
    /// Build config from environment variables, falling back to defaults.
    pub fn from_env(vars: &StrMap<String>) -> (r: Self)
        ensures
            r.max_body_bytes == batching::setting_usize(
                vars@,
                "DECOMP_MAX_BODY_BYTES"@,
                10_485_760,
            ),
            r.enabled == enabled_setting(vars@),
    {
        let enabled: bool = match vars.get("DECOMP_ENABLED") {
            Some(v) => {
                let lower = v.as_str().to_lowercase();
                !str_eq(lower.as_str(), "false") && !str_eq(v.as_str(), "0")
            },
            None => true,
        };
        DecompressionConfig {
            max_body_bytes: env_usize(vars, "DECOMP_MAX_BODY_BYTES", DEFAULT_MAX_BODY_BYTES),
            enabled,
        }
    }
}

/// Supported `Content-Encoding` values that can be decompressed.
#[derive(Debug, PartialEq, Eq)]
pub enum ContentEncoding {
    Gzip,
    Deflate,
    Identity,
    Unknown(String),
}

/// What an encoding is.
pub enum EncodingModel {
    Gzip,
    Deflate,
    Identity,
    Unknown(Seq<char>),
}

impl View for ContentEncoding {
    type V = EncodingModel;

    open spec fn view(&self) -> EncodingModel {
        match self {
            ContentEncoding::Gzip => EncodingModel::Gzip,
            ContentEncoding::Deflate => EncodingModel::Deflate,
            ContentEncoding::Identity => EncodingModel::Identity,
            ContentEncoding::Unknown(s) => EncodingModel::Unknown(s@),
        }
    }
}

/// The encoding that a name in lower case stands for.
pub open spec fn encoding_named(name: Seq<char>) -> EncodingModel {
    if name == "gzip"@ || name == "x-gzip"@ {
        EncodingModel::Gzip
    } else if name == "deflate"@ {
        EncodingModel::Deflate
    } else if name == "identity"@ || name == ""@ {
        EncodingModel::Identity
    } else {
        EncodingModel::Unknown(name)
    }
}

impl ContentEncoding {
    /// Parse from the raw `Content-Encoding` header value.
    pub fn from_header(value: &str) -> (r: Self)
        ensures
            r@ == encoding_named(text::lowercased(text::trim(value@))),
            text::ascii_only(text::trim(value@)) ==> r@ == encoding_named(
                text::trim(value@).map_values(|c: char| text::ascii_lower(c)),
            ),
    {
        let bare = trimmed(value);
        let name = bare.as_str().to_lowercase();
        Self::from_name(name)
    }

    /// The encoding that a name in lower case stands for.
    pub fn from_name(name: String) -> (r: Self)
        ensures
            r@ == encoding_named(name@),
    {
        if str_eq(name.as_str(), "gzip") || str_eq(name.as_str(), "x-gzip") {
            ContentEncoding::Gzip
        } else if str_eq(name.as_str(), "deflate") {
            ContentEncoding::Deflate
        } else if str_eq(name.as_str(), "identity") || str_eq(name.as_str(), "") {
            ContentEncoding::Identity
        } else {
            ContentEncoding::Unknown(name)
        }
    }
}

/// The first `limit` bytes that a gzip stream decodes to, or what is wrong with
/// it.
pub uninterp spec fn gunzipped(bytes: Seq<u8>, limit: u64) -> Result<Seq<u8>, Seq<char>>;

/// The first `limit` bytes that a zlib stream decodes to, or what is wrong with
/// it.
pub uninterp spec fn unzlibbed(bytes: Seq<u8>, limit: u64) -> Result<Seq<u8>, Seq<char>>;

/// What was decoded, over views.
pub open spec fn decoded(r: Result<Vec<u8>, String>) -> Result<Seq<u8>, Seq<char>> {
    match r {
        Ok(v) => Ok(v@),
        Err(e) => Err(e@),
    }
}

/// Trusted: `flate2::read::GzDecoder`, read to its end through
/// `std::io::Read::take`. The result has a name; that it holds at most `limit`
/// bytes is what `take` promises.
#[verifier::external_body]
fn gunzip(bytes: &[u8], limit: u64) -> (r: Result<Vec<u8>, String>)
    ensures
        decoded(r) == gunzipped(bytes@, limit),
        r is Ok ==> r->Ok_0@.len() <= limit,
{
    let mut out = Vec::new();
    match flate2::read::GzDecoder::new(bytes).take(limit).read_to_end(&mut out) {
        Ok(_) => Ok(out),
        Err(e) => Err(e.to_string()),
    }
}

/// Trusted: `flate2::read::ZlibDecoder`, read to its end through
/// `std::io::Read::take`. The result has a name; that it holds at most `limit`
/// bytes is what `take` promises.
#[verifier::external_body]
fn unzlib(bytes: &[u8], limit: u64) -> (r: Result<Vec<u8>, String>)
    ensures
        decoded(r) == unzlibbed(bytes@, limit),
        r is Ok ==> r->Ok_0@.len() <= limit,
{
    let mut out = Vec::new();
    match flate2::read::ZlibDecoder::new(bytes).take(limit).read_to_end(&mut out) {
        Ok(_) => Ok(out),
        Err(e) => Err(e.to_string()),
    }
}

/// What decoding comes to: the decoded bytes when they are within the limit,
/// and otherwise why not.
pub open spec fn within_limit(
    outcome: Result<Seq<u8>, Seq<char>>,
    failure: Seq<char>,
    max_bytes: usize,
) -> Result<Seq<u8>, Seq<char>> {
    match outcome {
        Ok(out) => if out.len() > max_bytes {
            Err(
                "decompressed body exceeds limit of "@ + text::decimal(max_bytes as nat)
                    + " bytes"@,
            )
        } else {
            Ok(out)
        },
        Err(e) => Err(failure + e),
    }
}

/// Accepts decoded bytes that are within the limit. `failure` begins the
/// message of a stream that could not be decoded.
pub fn accept_decoded(
    outcome: Result<Vec<u8>, String>,
    failure: &str,
    max_bytes: usize,
) -> (r: Result<Vec<u8>, String>)
    ensures
        decoded(r) == within_limit(decoded(outcome), failure@, max_bytes),
{
    match outcome {
        Ok(out) => if out.len() > max_bytes {
            Err(numbered("decompressed body exceeds limit of ", max_bytes as u64, " bytes"))
        } else {
            Ok(out)
        },
        Err(e) => Err(joined(failure, e.as_str())),
    }
}

/// Decompress `bytes` that are gzip-encoded.
///
/// Returns the decompressed bytes, or an error string suitable for logging.
/// The `max_bytes` guard prevents oversized payloads: if the decompressed
/// stream exceeds `max_bytes` the function returns `Err`.
pub fn decompress_gzip(bytes: &[u8], max_bytes: usize) -> (r: Result<Vec<u8>, String>)
    requires
        max_bytes < usize::MAX,
    ensures
        decoded(r) == within_limit(
            gunzipped(bytes@, (max_bytes + 1) as u64),
            "gzip decompression failed: "@,
            max_bytes,
        ),
        r is Ok ==> r->Ok_0@.len() <= max_bytes,
{
    accept_decoded(gunzip(bytes, max_bytes as u64 + 1), "gzip decompression failed: ", max_bytes)
}

/// Decompress `bytes` that are deflate-encoded (zlib).
///
/// Same size-limit semantics as `decompress_gzip`.
pub fn decompress_deflate(bytes: &[u8], max_bytes: usize) -> (r: Result<Vec<u8>, String>)
    requires
        max_bytes < usize::MAX,
    ensures
        decoded(r) == within_limit(
            unzlibbed(bytes@, (max_bytes + 1) as u64),
            "deflate decompression failed: "@,
            max_bytes,
        ),
        r is Ok ==> r->Ok_0@.len() <= max_bytes,
{
    accept_decoded(unzlib(bytes, max_bytes as u64 + 1), "deflate decompression failed: ", max_bytes)
}

/// What a body of the given encoding decodes to.
pub open spec fn body_of(
    body: Seq<u8>,
    encoding: EncodingModel,
    max_bytes: usize,
) -> Result<Seq<u8>, Seq<char>> {
    match encoding {
        EncodingModel::Gzip => within_limit(
            gunzipped(body, (max_bytes + 1) as u64),
            "gzip decompression failed: "@,
            max_bytes,
        ),
        EncodingModel::Deflate => within_limit(
            unzlibbed(body, (max_bytes + 1) as u64),
            "deflate decompression failed: "@,
            max_bytes,
        ),
        EncodingModel::Identity => Ok(body),
        EncodingModel::Unknown(_) => Ok(body),
    }
}

/// Decompress `body_bytes` according to `content_encoding`.
///
/// `Identity` (no encoding) passes the bytes through unchanged. Unknown
/// encodings are also passed through unchanged, letting the inner handler deal
/// with them.
pub fn decompress_body(
    body_bytes: &[u8],
    content_encoding: &str,
    config: &DecompressionConfig,
) -> (r: Result<Vec<u8>, String>)
    requires
        config.max_body_bytes < usize::MAX,
    ensures
        !config.enabled ==> decoded(r) == Ok::<Seq<u8>, Seq<char>>(body_bytes@),
        config.enabled ==> decoded(r) == body_of(
            body_bytes@,
            encoding_named(text::lowercased(text::trim(content_encoding@))),
            config.max_body_bytes,
        ),
        config.enabled && text::ascii_only(text::trim(content_encoding@)) ==> decoded(r) == body_of(
            body_bytes@,
            encoding_named(
                text::trim(content_encoding@).map_values(|c: char| text::ascii_lower(c)),
            ),
            config.max_body_bytes,
        ),
{
    if !config.enabled {
        return Ok(slice_to_vec(body_bytes));
    }
    match ContentEncoding::from_header(content_encoding) {
        ContentEncoding::Gzip => decompress_gzip(body_bytes, config.max_body_bytes),
        ContentEncoding::Deflate => decompress_deflate(body_bytes, config.max_body_bytes),
        ContentEncoding::Identity => Ok(slice_to_vec(body_bytes)),
        ContentEncoding::Unknown(_) => Ok(slice_to_vec(body_bytes)),
    }
}

/// No compressed body ever decodes to more than the limit, whatever the stream
/// holds.
pub proof fn law_limit_is_kept(
    outcome: Result<Seq<u8>, Seq<char>>,
    failure: Seq<char>,
    max_bytes: usize,
)
    ensures
        within_limit(outcome, failure, max_bytes) is Ok ==> within_limit(
            outcome,
            failure,
            max_bytes,
        )->Ok_0.len() <= max_bytes,
        outcome is Ok && outcome->Ok_0.len() <= max_bytes ==> within_limit(
            outcome,
            failure,
            max_bytes,
        ) == outcome,
{
}

/// What is decoded within the limit is taken as it is, what exceeds the limit by
/// a byte is refused, and what cannot be decoded is refused with the reason.
pub proof fn law_oversized_bodies_are_refused(
    outcome: Result<Seq<u8>, Seq<char>>,
    failure: Seq<char>,
    max_bytes: usize,
)
    ensures
        outcome is Ok && outcome->Ok_0.len() <= max_bytes ==> within_limit(
            outcome,
            failure,
            max_bytes,
        ) == outcome,
        outcome is Ok && outcome->Ok_0.len() > max_bytes ==> within_limit(
            outcome,
            failure,
            max_bytes,
        ) == Err::<Seq<u8>, Seq<char>>(
            "decompressed body exceeds limit of "@ + text::decimal(max_bytes as nat) + " bytes"@,
        ),
        outcome is Err ==> within_limit(outcome, failure, max_bytes) == Err::<Seq<u8>, Seq<char>>(
            failure + outcome->Err_0,
        ),
{
}

/// Only the two compressed encodings are decoded: any other body is handed on as it
/// is, whatever its size.
pub proof fn law_plain_bodies_pass(body: Seq<u8>, name: Seq<char>, max_bytes: usize)
    ensures
        body_of(body, EncodingModel::Identity, max_bytes) == Ok::<Seq<u8>, Seq<char>>(body),
        body_of(body, EncodingModel::Unknown(name), max_bytes) == Ok::<Seq<u8>, Seq<char>>(body),
        gunzipped(body, (max_bytes + 1) as u64) is Ok && gunzipped(
            body,
            (max_bytes + 1) as u64,
        )->Ok_0.len() <= max_bytes ==> body_of(body, EncodingModel::Gzip, max_bytes) == gunzipped(
            body,
            (max_bytes + 1) as u64,
        ),
        unzlibbed(body, (max_bytes + 1) as u64) is Ok && unzlibbed(
            body,
            (max_bytes + 1) as u64,
        )->Ok_0.len() <= max_bytes ==> body_of(body, EncodingModel::Deflate, max_bytes)
            == unzlibbed(body, (max_bytes + 1) as u64),
{
}

/// The encodings by their names.
pub proof fn law_encodings_by_name(name: Seq<char>)
    ensures
        encoding_named("gzip"@) == EncodingModel::Gzip,
        encoding_named("x-gzip"@) == EncodingModel::Gzip,
        encoding_named("deflate"@) == EncodingModel::Deflate,
        encoding_named("identity"@) == EncodingModel::Identity,
        encoding_named(""@) == EncodingModel::Identity,
        name != "gzip"@ && name != "x-gzip"@ && name != "deflate"@ && name != "identity"@ && name
            != ""@ ==> encoding_named(name) == EncodingModel::Unknown(name),
{
    reveal_strlit("gzip");
    reveal_strlit("x-gzip");
    reveal_strlit("deflate");
    reveal_strlit("identity");
    reveal_strlit("");
    assert("gzip"@.len() == 4 && "x-gzip"@.len() == 6 && "deflate"@.len() == 7
        && "identity"@.len() == 8 && ""@.len() == 0);
}

/// Decoding is on unless it is switched off by the word or the digit for it.
pub proof fn law_decoding_is_on_by_default(vars: Map<Seq<char>, String>)
    ensures
        !vars.contains_key("DECOMP_ENABLED"@) ==> enabled_setting(vars),
        vars.contains_key("DECOMP_ENABLED"@) && vars["DECOMP_ENABLED"@]@ == "0"@
            ==> !enabled_setting(vars),
        vars.contains_key("DECOMP_ENABLED"@) && text::lowercased(vars["DECOMP_ENABLED"@]@)
            == "false"@ ==> !enabled_setting(vars),
        vars.contains_key("DECOMP_ENABLED"@) && text::lowercased(vars["DECOMP_ENABLED"@]@)
            != "false"@ && vars["DECOMP_ENABLED"@]@ != "0"@ ==> enabled_setting(vars),
{
}

} // verus!
