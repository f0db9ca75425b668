use vstd::prelude::*;
use crate::clock::unix_time_secs;
use vstd::utf8::encode_utf8;
use crate::pck::encoding::{base64_encode, base64_standard};
use crate::pck::secret::{
    Secret, SecretView, byte_pairs_view, find_bytes, find_str, lookup, opt_str_view,
    str_pairs_view,
};
use crate::text::{decimal, parse_u64, parse_u64_spec, u64_to_decimal, lemma_decimal_roundtrip};

verus! {

/// Annotation recording the resource version of the platform-data secret a
/// PCK secret was made from.
pub const ANNOTATION_PLATFORM_DATA_RV: &'static str = "trustedservices.intel.com/platform-data-resource-version";

/// Annotation recording when a PCK secret's cache expires (seconds since the epoch).
pub const ANNOTATION_EXPIRES_AT: &'static str = "trustedservices.intel.com/expires-at";

/// Name of the shared secret that maps QE ID to PIID for all registered platforms.
pub const PIID_INDEX_SECRET_NAME: &'static str = "piid-index";

/// Errors of the registrar's own logic.
#[derive(Debug)]
pub enum RegistrarError {
    /// The platform-data secret has no name.
    NoName,
    /// The platform-data secret has no namespace.
    NoNamespace,
    /// The platform-data secret has no resource version.
    NoResourceVersion,
    /// The platform-data secret has no data.
    NoData,
    /// The system clock stands before the Unix epoch.
    Clock,
    /// The TCB info is not of the standard SGX type (0).
    UnsupportedTcbType(u32),
}

/// Whether an existing PCK secret can be kept at time `now`: it records the
/// given platform-data version, an expiration time (a `u64`) after `now`, and a
/// non-empty `certificate`.
pub open spec fn pck_secret_valid_at(s: SecretView, platform_rv: Seq<char>, now: int) -> bool {
    match s.annotations {
        None => false,
        Some(a) => {
            &&& lookup(a, ANNOTATION_PLATFORM_DATA_RV@) == Some(platform_rv)
            &&& lookup(a, ANNOTATION_EXPIRES_AT@) matches Some(e)
            &&& parse_u64_spec(e) matches Some(t)
            &&& t > now
            &&& s.data matches Some(d)
            &&& lookup(d, "certificate"@) matches Some(c)
            &&& c.len() > 0
        },
    }
}

/// Whether a PCK secret's annotations record the given platform-data version.
pub open spec fn records_version(s: SecretView, platform_rv: Seq<char>) -> bool {
    s.annotations matches Some(a) && lookup(a, ANNOTATION_PLATFORM_DATA_RV@) == Some(platform_rv)
}

/// Law: a PCK secret whose recorded expiration time is at or before a clock
/// reading is never kept at that reading.
pub proof fn lemma_expired_secret_not_kept(s: SecretView, platform_rv: Seq<char>, now: int)
    requires
        s.annotations matches Some(a) && lookup(a, ANNOTATION_EXPIRES_AT@) matches Some(e)
            && parse_u64_spec(e) matches Some(t) && t <= now,
    ensures
        !pck_secret_valid_at(s, platform_rv, now),
{
}

/// Law: whether a PCK secret is kept only ever changes once, from kept to not
/// kept, as the clock advances: kept at a reading means kept at every earlier
/// one, and not kept at a reading means not kept at any later one.
pub proof fn lemma_kept_secret_monotone_in_time(
    s: SecretView,
    platform_rv: Seq<char>,
    earlier: int,
    later: int,
)
    requires
        earlier <= later,
    ensures
        pck_secret_valid_at(s, platform_rv, later) ==> pck_secret_valid_at(s, platform_rv, earlier),
        !pck_secret_valid_at(s, platform_rv, earlier) ==> !pck_secret_valid_at(s, platform_rv, later),
{
}

/// Whether the existing PCK secret (`None` when there is none) can be kept at
/// time `now` instead of asking PCS again.
pub fn pck_secret_valid_at_time(existing: Option<&Secret>, platform_rv: &str, now: u64) -> (r: bool)
    ensures
        r == (existing matches Some(s) && pck_secret_valid_at(s@, platform_rv@, now as int)),
{
    let secret = match existing {
        Some(s) => s,
        None => return false,
    };
    let annotations = match &secret.annotations {
        Some(a) => a,
        None => return false,
    };
    match find_str(annotations, ANNOTATION_PLATFORM_DATA_RV) {
        Some(v) => {
            if *v != String::from_str(platform_rv) {
                return false;
            }
        },
        None => return false,
    }
    let expires_at = match find_str(annotations, ANNOTATION_EXPIRES_AT) {
        Some(e) => e,
        None => return false,
    };
    let expires_at = match parse_u64(expires_at.as_str()) {
        Some(t) => t,
        None => return false,
    };
    if expires_at <= now {
        return false;
    }
    let data = match &secret.data {
        Some(d) => d,
        None => return false,
    };
    match find_bytes(data, "certificate") {
        Some(c) => c.len() > 0,
        None => false,
    }
}

/// Whether the existing PCK secret (`None` when there is none) records the
/// given platform-data version.
pub fn pck_secret_records_version(existing: Option<&Secret>, platform_rv: &str) -> (r: bool)
    ensures
        r == (existing matches Some(s) && records_version(s@, platform_rv@)),
{
    let secret = match existing {
        Some(s) => s,
        None => return false,
    };
    let annotations = match &secret.annotations {
        Some(a) => a,
        None => return false,
    };
    match find_str(annotations, ANNOTATION_PLATFORM_DATA_RV) {
        Some(v) => *v == String::from_str(platform_rv),
        None => false,
    }
}

/// Whether the existing PCK secret (`None` when there is none) can be kept
/// now. The clock is read only once the recorded platform-data version
/// matches; a secret that records another version, or none, is never kept, and
/// a kept one is valid at some clock reading.
pub fn pck_secret_is_valid(existing: Option<&Secret>, platform_rv: &str) -> (r: Result<
    bool,
    RegistrarError,
>)
    ensures
        !(existing matches Some(s) && records_version(s@, platform_rv@)) ==> r == Ok::<
            bool,
            RegistrarError,
        >(false),
        r is Err ==> r matches Err(RegistrarError::Clock),
        r == Ok::<bool, RegistrarError>(true) ==> (existing matches Some(s) && exists|now: u64|
            pck_secret_valid_at(s@, platform_rv@, now as int)),
{
    if !pck_secret_records_version(existing, platform_rv) {
        return Ok(false);
    }
    let now = match unix_time_secs() {
        Ok(n) => n,
        Err(_) => return Err(RegistrarError::Clock),
    };
    Ok(pck_secret_valid_at_time(existing, platform_rv, now))
}

/// The name, namespace, PCK secret name (`<name>-pck`) and resource version of
/// a platform-data secret.
#[derive(Debug, Clone)]
pub struct PlatformIdentity {
    pub name: String,
    pub namespace: String,
    pub pck_secret_name: String,
    pub resource_version: String,
}

/// The identity of a platform-data secret as (name, namespace, PCK secret
/// name `<name>-pck`, resource version); its name, namespace and resource
/// version must be present (checked in that order).
pub open spec fn identity_of(secret: SecretView) -> Result<
    (Seq<char>, Seq<char>, Seq<char>, Seq<char>),
    RegistrarError,
> {
    match (secret.name, secret.namespace, secret.resource_version) {
        (None, _, _) => Err(RegistrarError::NoName),
        (Some(_), None, _) => Err(RegistrarError::NoNamespace),
        (Some(_), Some(_), None) => Err(RegistrarError::NoResourceVersion),
        (Some(n), Some(ns), Some(rv)) => Ok((n, ns, n + "-pck"@, rv)),
    }
}

/// Whether `id` holds the identity (name, namespace, PCK secret name, resource version).
pub open spec fn identity_is(id: PlatformIdentity, v: (Seq<char>, Seq<char>, Seq<char>, Seq<char>)) -> bool {
    id.name@ == v.0 && id.namespace@ == v.1 && id.pck_secret_name@ == v.2 && id.resource_version@ == v.3
}

/// The identity of a platform-data secret (see `identity_of`).
pub fn platform_identity(secret: &Secret) -> (r: Result<PlatformIdentity, RegistrarError>)
    ensures
        match identity_of(secret@) {
            Ok(v) => r matches Ok(id) && identity_is(id, v),
            Err(e) => r matches Err(e2) && e2 == e,
        },
{
    let name = match &secret.name {
        Some(n) => n.clone(),
        None => return Err(RegistrarError::NoName),
    };
    let namespace = match &secret.namespace {
        Some(n) => n.clone(),
        None => return Err(RegistrarError::NoNamespace),
    };
    let pck_secret_name = name.clone().concat("-pck");
    let resource_version = match &secret.resource_version {
        Some(v) => v.clone(),
        None => return Err(RegistrarError::NoResourceVersion),
    };
    Ok(PlatformIdentity { name, namespace, pck_secret_name, resource_version })
}

/// Checks that TCB info is of the standard SGX type (`tcbType` 0), the only
/// one this tool supports.
pub fn check_tcb_type(tcb_type: u32) -> (r: Result<(), RegistrarError>)
    ensures
        tcb_type == 0 ==> r is Ok,
        tcb_type != 0 ==> (r matches Err(RegistrarError::UnsupportedTcbType(t)) && t == tcb_type),
{
    if tcb_type != 0 {
        return Err(RegistrarError::UnsupportedTcbType(tcb_type));
    }
    Ok(())
}

/// A PCK certificate secret to apply.
#[derive(Debug, Clone)]
pub struct PckSecretPlan {
    pub name: String,
    pub namespace: String,
    /// Labels: `fmspc=<fmspc>`.
    pub labels: Vec<(String, String)>,
    /// Annotations: the platform-data version and the expiration time.
    pub annotations: Vec<(String, String)>,
    /// The `certificate` data entry, base64-encoded for the patch.
    pub certificate_base64: String,
}

/// The annotations of a PCK secret made from platform-data version `rv`,
/// expiring at `expiration`.
pub open spec fn pck_annotations(rv: Seq<char>, expiration: u64) -> Seq<(Seq<char>, Seq<char>)> {
    seq![
        (ANNOTATION_PLATFORM_DATA_RV@, rv),
        (ANNOTATION_EXPIRES_AT@, decimal(expiration as nat)),
    ]
}

/// Whether `p` is the PCK secret for a platform: named `name` in `namespace`,
/// labeled with the FMSPC, annotated with the platform-data version and the
/// cache's expiration time, holding the cache file as `certificate`.
pub open spec fn is_pck_secret_plan(
    p: PckSecretPlan,
    name: Seq<char>,
    namespace: Seq<char>,
    fmspc: Seq<char>,
    platform_rv: Seq<char>,
    cache: Seq<u8>,
    expiration: u64,
) -> bool {
    &&& p.name@ == name
    &&& p.namespace@ == namespace
    &&& str_pairs_view(p.labels@) == seq![("fmspc"@, fmspc)]
    &&& str_pairs_view(p.annotations@) == pck_annotations(platform_rv, expiration)
    &&& p.certificate_base64@ == base64_standard(cache)
}

/// The PCK secret for a platform (see `is_pck_secret_plan`).
pub fn pck_secret_plan(
    pck_secret_name: &str,
    namespace: &str,
    fmspc: &str,
    platform_rv: &str,
    cache_data: &[u8],
    expiration_time: u64,
) -> (r: PckSecretPlan)
    ensures
        is_pck_secret_plan(
            r,
            pck_secret_name@,
            namespace@,
            fmspc@,
            platform_rv@,
            cache_data@,
            expiration_time,
        ),
{
    let mut labels: Vec<(String, String)> = Vec::new();
    labels.push((String::from_str("fmspc"), String::from_str(fmspc)));
    let mut annotations: Vec<(String, String)> = Vec::new();
    annotations.push((String::from_str(ANNOTATION_PLATFORM_DATA_RV), String::from_str(platform_rv)));
    annotations.push((String::from_str(ANNOTATION_EXPIRES_AT), u64_to_decimal(expiration_time)));
    assert(str_pairs_view(labels@) =~= seq![("fmspc"@, fmspc@)]);
    assert(str_pairs_view(annotations@) =~= pck_annotations(platform_rv@, expiration_time));
    PckSecretPlan {
        name: String::from_str(pck_secret_name),
        namespace: String::from_str(namespace),
        labels,
        annotations,
        certificate_base64: base64_encode(cache_data),
    }
}

/// Law: a PCK secret as the registrar writes it (the plan's annotations, and
/// the cache file as `certificate`) is kept for its platform-data version
/// exactly until it expires, provided the cache file is not empty; for any
/// other platform-data version it is never kept.
pub proof fn lemma_written_secret_valid_until_expiry(
    platform_rv: Seq<char>,
    expiration: u64,
    cache: Seq<u8>,
    other_rv: Seq<char>,
    now: int,
)
    requires
        cache.len() > 0,
        other_rv != platform_rv,
    ensures
        ({
            let s = SecretView {
                name: None,
                namespace: None,
                resource_version: None,
                annotations: Some(pck_annotations(platform_rv, expiration)),
                data: Some(seq![("certificate"@, cache)]),
            };
            &&& pck_secret_valid_at(s, platform_rv, now) <==> now < expiration
            &&& !pck_secret_valid_at(s, other_rv, now)
        }),
{
    lemma_decimal_roundtrip(expiration);
    let a = pck_annotations(platform_rv, expiration);
    reveal_strlit("trustedservices.intel.com/platform-data-resource-version");
    reveal_strlit("trustedservices.intel.com/expires-at");
    assert(ANNOTATION_PLATFORM_DATA_RV@ != ANNOTATION_EXPIRES_AT@) by {
        assert(ANNOTATION_PLATFORM_DATA_RV@.len() != ANNOTATION_EXPIRES_AT@.len());
    }
    assert(lookup(a, ANNOTATION_PLATFORM_DATA_RV@) == Some(platform_rv));
    assert(a.drop_first()[0] == a[1]);
    assert(lookup(a.drop_first(), ANNOTATION_EXPIRES_AT@) == Some(decimal(expiration as nat)));
    assert(lookup(a, ANNOTATION_EXPIRES_AT@) == Some(decimal(expiration as nat)));
    let d = seq![("certificate"@, cache)];
    assert(lookup(d, "certificate"@) == Some(cache));
}

/// An entry of the PIID index secret: the field manager that owns it, its key
/// (the QE ID) and its value (the PIID, base64-encoded for the patch).
#[derive(Debug, Clone)]
pub struct PiidIndexEntry {
    pub field_manager: String,
    pub key: String,
    pub value_base64: String,
}

/// Whether `e` is the PIID index entry of a platform, owned by its own field
/// manager `pck-cert-tool/<qe_id>` so that concurrent registrations never
/// overwrite each other's keys.
pub open spec fn is_piid_index_entry(e: PiidIndexEntry, qe_id: Seq<char>, piid: Seq<char>) -> bool {
    &&& e.field_manager@ == "pck-cert-tool/"@ + qe_id
    &&& e.key@ == qe_id
    &&& e.value_base64@ == base64_standard(encode_utf8(piid))
}

/// The PIID index entry of a platform (see `is_piid_index_entry`).
pub fn piid_index_entry(qe_id: &str, piid: &str) -> (r: PiidIndexEntry)
    ensures
        is_piid_index_entry(r, qe_id@, piid@),
{
    PiidIndexEntry {
        field_manager: String::from_str("pck-cert-tool/").concat(qe_id),
        key: String::from_str(qe_id),
        value_base64: base64_encode(piid.as_bytes()),
    }
}

/// What a PCK secret offers for the certificate cache file.
#[derive(Debug)]
pub enum CertificateSource {
    /// The secret has no data.
    NoData,
    /// The secret has no `certificate` entry.
    NoCertificate,
    /// The cache file.
    Certificate(Vec<u8>),
}

/// The cache file a PCK secret holds under `certificate`, if any.
pub fn certificate_from_secret(secret: &Secret) -> (r: CertificateSource)
    ensures
        secret.data is None ==> r is NoData,
        secret.data matches Some(d) ==> match lookup(byte_pairs_view(d@), "certificate"@) {
            Some(c) => r matches CertificateSource::Certificate(b) && b@ == c,
            None => r is NoCertificate,
        },
{
    let data = match &secret.data {
        Some(d) => d,
        None => return CertificateSource::NoData,
    };
    match find_bytes(data, "certificate") {
        Some(c) => CertificateSource::Certificate(c.clone()),
        None => CertificateSource::NoCertificate,
    }
}

/// Whether a version must be written: always, unless it has a resource
/// version equal to the last one written.
pub open spec fn is_new_version_spec(last_seen: Option<Seq<char>>, resource_version: Option<Seq<char>>) -> bool {
    !(resource_version is Some && resource_version == last_seen)
}

/// Law: each version of the PCK secret is written once: after a version with
/// a resource version has been seen, seeing it again right away is skipped.
pub proof fn lemma_version_written_once(last_seen: Option<Seq<char>>, resource_version: Option<Seq<char>>)
    requires
        resource_version is Some,
    ensures
        ({
            let next = if is_new_version_spec(last_seen, resource_version) {
                resource_version
            } else {
                last_seen
            };
            !is_new_version_spec(next, resource_version)
        }),
{
}

/// Whether a watched secret version must be written: always, unless it has a
/// resource version equal to the last one written.
pub fn is_new_version(last_seen: &Option<String>, resource_version: &Option<String>) -> (r: bool)
    ensures
        r == is_new_version_spec(opt_str_view(*last_seen), opt_str_view(*resource_version)),
{
    match (resource_version, last_seen) {
        (Some(rv), Some(last)) => *rv != *last,
        _ => true,
    }
}

/// What the certificate watcher does with a version of the PCK secret.
#[derive(Debug)]
pub enum WatchAction {
    /// The version was already written: nothing to do.
    Skip,
    /// Write this cache file.
    Write(Vec<u8>),
    /// The secret has no data: warn.
    WarnNoData,
    /// The secret has no `certificate` entry: warn.
    WarnNoCertificate,
}

/// One step of watching a PCK secret: from the last resource version written
/// and a version of the secret (read or watched), the next last-written
/// version and what to do. A version equal to the last one written is
/// skipped; any other is written (or warned about) and becomes the last one.
pub fn certificate_watch_step(last_seen: Option<String>, secret: &Secret) -> (r: (Option<String>, WatchAction))
    ensures
        !is_new_version_spec(opt_str_view(last_seen), opt_str_view(secret.resource_version)) ==> (
        opt_str_view(r.0) == opt_str_view(last_seen) && r.1 is Skip),
        is_new_version_spec(opt_str_view(last_seen), opt_str_view(secret.resource_version)) ==> {
            &&& opt_str_view(r.0) == opt_str_view(secret.resource_version)
            &&& match secret.data {
                None => r.1 is WarnNoData,
                Some(d) => match lookup(byte_pairs_view(d@), "certificate"@) {
                    Some(c) => r.1 matches WatchAction::Write(b) && b@ == c,
                    None => r.1 is WarnNoCertificate,
                },
            }
        },
{
    if !is_new_version(&last_seen, &secret.resource_version) {
        return (last_seen, WatchAction::Skip);
    }
    let action = match certificate_from_secret(secret) {
        CertificateSource::NoData => WatchAction::WarnNoData,
        CertificateSource::NoCertificate => WatchAction::WarnNoCertificate,
        CertificateSource::Certificate(b) => WatchAction::Write(b),
    };
    let rv = match &secret.resource_version {
        Some(v) => Some(v.clone()),
        None => None,
    };
    (rv, action)
}

} // verus!
