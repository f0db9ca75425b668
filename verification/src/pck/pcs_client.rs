use vstd::prelude::*;
use vstd::utf8::{valid_utf8, decode_utf8};
use crate::pck::encoding::{url_encode, url_encoded, url_join, url_join_text, url_set_query, url_with_query_text};
use crate::pck::secret::{byte_pairs_view, find_bytes, lookup};
use crate::text::utf8_to_string;

verus! {

/// Intel PCS API base URL (with trailing slash for proper join behavior).
pub const INTEL_PCS_API_BASE_URL: &'static str = "https://api.trustedservices.intel.com/sgx/certification/v4/";

/// Intel PCS API endpoint for PCK certificates with CPU SVN.
pub const INTEL_PCS_PCKCERTS_ENDPOINT: &'static str = "pckcerts/config";

/// Intel PCS API endpoint for TCB info (requires fmspc parameter).
pub const INTEL_PCS_TCB_ENDPOINT: &'static str = "tcb";

/// Request body for the Intel PCS API PCK certificates config endpoint.
#[derive(Debug, Clone)]
pub struct PckCertsRequest {
    pub platform_manifest: String,
    pub pce_id: String,
    pub cpu_svn: String,
}

/// Successful response from the PCK certificates endpoint.
#[derive(Debug, Clone)]
pub struct PckCertsResponse {
    /// Value of the `SGX-FMSPC` response header.
    pub fmspc: String,
    /// Value of the `SGX-PCK-Certificate-Issuer-Chain` response header
    /// (URL-encoded PEM chain).
    pub cert_chain: String,
    /// Raw JSON body (array of PCK certificate entries).
    pub pck_certs_json: String,
}

/// Successful response from the TCB info endpoint.
#[derive(Debug, Clone)]
pub struct TcbInfoResponse {
    /// Raw JSON body returned by the API.
    pub body: String,
}

/// The platform-data field a request needs.
#[derive(Debug, Clone, Copy, PartialEq, Eq, Structural)]
pub enum RequestField {
    PlatformManifest,
    PceId,
    CpuSvn,
}

/// Errors of talking to Intel PCS.
#[derive(Debug)]
pub enum PcsError {
    /// The platform-data secret lacks a field.
    MissingField(RequestField),
    /// A platform-data field is not valid UTF-8.
    InvalidUtf8(RequestField),
    /// An endpoint URL could not be built.
    InvalidUrl,
    /// The response lacks the `SGX-FMSPC` header.
    MissingFmspc,
    /// The response lacks the `SGX-PCK-Certificate-Issuer-Chain` header.
    MissingIssuerChain,
}

/// The fields of a request (platform manifest, PCE ID, CPU SVN) from a
/// platform-data secret's data: the `platform_manifest`, `pce_id` and
/// `cpu_svn` entries (each must be present, checked in that order), each
/// decoded as UTF-8 (checked in the same order).
pub open spec fn request_fields(d: Seq<(Seq<char>, Seq<u8>)>) -> Result<
    (Seq<char>, Seq<char>, Seq<char>),
    PcsError,
> {
    let m = lookup(d, "platform_manifest"@);
    let p = lookup(d, "pce_id"@);
    let c = lookup(d, "cpu_svn"@);
    if m is None {
        Err(PcsError::MissingField(RequestField::PlatformManifest))
    } else if p is None {
        Err(PcsError::MissingField(RequestField::PceId))
    } else if c is None {
        Err(PcsError::MissingField(RequestField::CpuSvn))
    } else if !valid_utf8(m->0) {
        Err(PcsError::InvalidUtf8(RequestField::PlatformManifest))
    } else if !valid_utf8(p->0) {
        Err(PcsError::InvalidUtf8(RequestField::PceId))
    } else if !valid_utf8(c->0) {
        Err(PcsError::InvalidUtf8(RequestField::CpuSvn))
    } else {
        Ok((decode_utf8(m->0), decode_utf8(p->0), decode_utf8(c->0)))
    }
}

/// Whether `r` is the request that `request_fields` gives for `d`.
pub open spec fn is_request_for(d: Seq<(Seq<char>, Seq<u8>)>, r: Result<PckCertsRequest, PcsError>) -> bool {
    match request_fields(d) {
        Ok((m, p, c)) => r matches Ok(q) && q.platform_manifest@ == m && q.pce_id@ == p && q.cpu_svn@ == c,
        Err(e) => r matches Err(e2) && e2 == e,
    }
}

impl PckCertsRequest {
    /// The request from a platform-data secret's data (see `request_fields`).
    pub fn from_secret_data(data: &Vec<(String, Vec<u8>)>) -> (r: Result<Self, PcsError>)
        ensures
            is_request_for(byte_pairs_view(data@), r),
    {
        let platform_manifest_bytes = match find_bytes(data, "platform_manifest") {
            Some(b) => b,
            None => return Err(PcsError::MissingField(RequestField::PlatformManifest)),
        };
        let pce_id_bytes = match find_bytes(data, "pce_id") {
            Some(b) => b,
            None => return Err(PcsError::MissingField(RequestField::PceId)),
        };
        let cpu_svn_bytes = match find_bytes(data, "cpu_svn") {
            Some(b) => b,
            None => return Err(PcsError::MissingField(RequestField::CpuSvn)),
        };
        let platform_manifest = match utf8_to_string(platform_manifest_bytes.clone()) {
            Some(s) => s,
            None => return Err(PcsError::InvalidUtf8(RequestField::PlatformManifest)),
        };
        let pce_id = match utf8_to_string(pce_id_bytes.clone()) {
            Some(s) => s,
            None => return Err(PcsError::InvalidUtf8(RequestField::PceId)),
        };
        let cpu_svn = match utf8_to_string(cpu_svn_bytes.clone()) {
            Some(s) => s,
            None => return Err(PcsError::InvalidUtf8(RequestField::CpuSvn)),
        };
        Ok(PckCertsRequest { platform_manifest, pce_id, cpu_svn })
    }
}

/// The message of a failed PCS request, with `N/A` for an absent
/// `Error-Code` or `Error-Message` header.
pub open spec fn pcs_error_message_spec(
    status: Seq<char>,
    error_code: Option<Seq<char>>,
    error_message: Option<Seq<char>>,
) -> Seq<char> {
    "Intel PCS API request failed: "@ + status + " (Error-Code: "@ + (match error_code {
        Some(c) => c,
        None => "N/A"@,
    }) + ", Error-Message: "@ + (match error_message {
        Some(m) => m,
        None => "N/A"@,
    }) + ")"@
}

/// The message of a failed PCS request, from the response status (as text)
/// and its `Error-Code` and `Error-Message` headers.
pub fn pcs_error_message(status: &str, error_code: Option<&str>, error_message: Option<&str>) -> (r: String)
    ensures
        r@ == pcs_error_message_spec(
            status@,
            match error_code {
                Some(c) => Some(c@),
                None => None,
            },
            match error_message {
                Some(m) => Some(m@),
                None => None,
            },
        ),
{
    let code = match error_code {
        Some(c) => c,
        None => "N/A",
    };
    let message = match error_message {
        Some(m) => m,
        None => "N/A",
    };
    String::from_str("Intel PCS API request failed: ").concat(status).concat(" (Error-Code: ").concat(
        code,
    ).concat(", Error-Message: ").concat(message).concat(")")
}

/// The URL of the PCK certificates endpoint.
pub fn pck_certs_url() -> (r: Result<String, PcsError>)
    ensures
        match url_join_text(INTEL_PCS_API_BASE_URL@, INTEL_PCS_PCKCERTS_ENDPOINT@) {
            Some(u) => r matches Ok(s) && s@ == u,
            None => r matches Err(PcsError::InvalidUrl),
        },
{
    match url_join(INTEL_PCS_API_BASE_URL, INTEL_PCS_PCKCERTS_ENDPOINT) {
        Some(u) => Ok(u),
        None => Err(PcsError::InvalidUrl),
    }
}

/// The query of a TCB info request: `fmspc=<url-encoded fmspc>&update=early`.
pub open spec fn tcb_query(fmspc: Seq<char>) -> Seq<char> {
    "fmspc="@ + url_encoded(fmspc) + "&update=early"@
}

/// The URL of the TCB info request for an FMSPC.
pub fn tcb_info_url(fmspc: &str) -> (r: Result<String, PcsError>)
    ensures
        match url_join_text(INTEL_PCS_API_BASE_URL@, INTEL_PCS_TCB_ENDPOINT@) {
            Some(base) => match url_with_query_text(base, tcb_query(fmspc@)) {
                Some(u) => r matches Ok(s) && s@ == u,
                None => r matches Err(PcsError::InvalidUrl),
            },
            None => r matches Err(PcsError::InvalidUrl),
        },
{
    let base = match url_join(INTEL_PCS_API_BASE_URL, INTEL_PCS_TCB_ENDPOINT) {
        Some(u) => u,
        None => return Err(PcsError::InvalidUrl),
    };
    let query = String::from_str("fmspc=").concat(url_encode(fmspc).as_str()).concat("&update=early");
    match url_set_query(base.as_str(), query.as_str()) {
        Some(u) => Ok(u),
        None => Err(PcsError::InvalidUrl),
    }
}

/// The FMSPC and issuer chain headers of a PCK certificates response; each
/// must be present (checked in that order).
pub fn pck_certs_headers(fmspc: Option<String>, cert_chain: Option<String>) -> (r: Result<
    (String, String),
    PcsError,
>)
    ensures
        fmspc is None ==> r matches Err(PcsError::MissingFmspc),
        fmspc is Some && cert_chain is None ==> r matches Err(PcsError::MissingIssuerChain),
        (fmspc is Some && cert_chain is Some) ==> r == Ok::<(String, String), PcsError>(
            (fmspc->0, cert_chain->0),
        ),
{
    let f = match fmspc {
        Some(f) => f,
        None => return Err(PcsError::MissingFmspc),
    };
    let c = match cert_chain {
        Some(c) => c,
        None => return Err(PcsError::MissingIssuerChain),
    };
    Ok((f, c))
}

/// Whether a PCS request should be retried: on a transport error, a server
/// error (5xx) or `429 Too Many Requests`.
pub fn is_retryable(transport_error: bool, status: Option<u16>) -> (r: bool)
    ensures
        r == (transport_error || (status matches Some(s) && ((500 <= s <= 599) || s == 429))),
{
    transport_error || match status {
        Some(s) => (500 <= s && s <= 599) || s == 429,
        None => false,
    }
}

} // verus!
