//! Registering one platform with Intel PCS, as a state machine: each step
//! takes what the last action observed and gives the next action.
use vstd::prelude::*;
use vstd::utf8::encode_utf8;
use crate::pck::cache::{
    CacheError, EXPIRE_HOURS, all_fields_fit, cache_blob, encode_cache_blob, expiration_from,
};
use crate::pck::certs::{
    PckCertEntry, PckCertError, entry_views, filter_and_verify_pck_certs, filtered_pck_certs,
};
use crate::pck::pcs_client::{PckCertsRequest, PcsError, is_request_for};
use crate::pck::registrar::{
    PckSecretPlan, PiidIndexEntry, PlatformIdentity, RegistrarError, check_tcb_type, identity_is,
    identity_of, is_piid_index_entry, is_pck_secret_plan, pck_secret_plan,
    pck_secret_records_version, pck_secret_valid_at, pck_secret_valid_at_time, piid_index_entry,
    platform_identity, records_version,
};
use crate::pck::encoding::{url_decode, url_decoded};
use crate::pck::secret::{Secret, byte_pairs_view};

verus! {

/// Why registering a platform failed.
#[derive(Debug)]
pub enum RegistrationError {
    Registrar(RegistrarError),
    Pcs(PcsError),
    Certificates(PckCertError),
    Cache(CacheError),
}

/// Where registering a platform stands, with what it has learned.
#[derive(Debug)]
pub enum Registration {
    /// Nothing done yet.
    Start,
    /// Waiting for the existing PCK secret of the platform.
    ReadingPckSecret { identity: PlatformIdentity, data: Option<Vec<(String, Vec<u8>)>> },
    /// The existing PCK secret records the platform-data version; waiting for
    /// the clock to tell whether it has expired.
    CheckingPckSecret {
        identity: PlatformIdentity,
        data: Option<Vec<(String, Vec<u8>)>>,
        existing: Secret,
    },
    /// Waiting for the PCK certificates of the platform.
    FetchingPckCerts { identity: PlatformIdentity, request: PckCertsRequest },
    /// Waiting for the TCB info of the platform's FMSPC.
    FetchingTcbInfo {
        identity: PlatformIdentity,
        cpu_svn: String,
        fmspc: String,
        /// The issuer chain, URL-decoded: its PEM text.
        chain_pem: String,
        certs_json: String,
        piid: String,
    },
    /// The TCB info is of the standard SGX type; waiting for the clock to
    /// date the expiration of the cache file.
    StampingCache {
        identity: PlatformIdentity,
        cpu_svn: String,
        fmspc: String,
        /// The issuer chain, URL-decoded: its PEM text.
        chain_pem: String,
        certs_json: String,
        piid: String,
        tcb_info: String,
    },
    /// Waiting for the PCK secret to be applied.
    ApplyingPckSecret { identity: PlatformIdentity, piid: String },
    /// Waiting for the PIID index entry to be patched.
    PatchingPiidIndex,
    /// Finished.
    Done,
}

/// What the last action observed.
#[derive(Debug)]
pub enum RegistrationEvent {
    /// Registration of the platform of this platform-data secret begins.
    Begin(Secret),
    /// The existing PCK secret, `None` where there is none.
    PckSecretRead(Option<Secret>),
    /// The system clock in seconds since the Unix epoch, `None` where it
    /// stands before the epoch.
    ClockRead(Option<u64>),
    /// The PCK certificates response: its FMSPC and issuer chain headers and
    /// its certificate entries.
    PckCertsFetched { fmspc: String, cert_chain: String, entries: Vec<PckCertEntry> },
    /// The TCB info response body and its `tcbType` (0 where absent).
    TcbInfoFetched { body: String, tcb_type: u32 },
    /// The PCK secret was applied.
    PckSecretApplied,
    /// The PIID index entry was patched.
    PiidIndexPatched,
}

/// The next action to perform.
#[derive(Debug)]
pub enum RegistrationAction {
    /// Read the PCK secret of this name.
    ReadPckSecret(String),
    /// Read the system clock.
    ReadClock,
    /// Ask PCS for the PCK certificates with this request.
    FetchPckCerts(PckCertsRequest),
    /// Ask PCS for the TCB info of this FMSPC.
    FetchTcbInfo(String),
    /// Apply this PCK secret.
    ApplyPckSecret(PckSecretPlan),
    /// Patch this entry into the PIID index secret.
    PatchPiidIndex(PiidIndexEntry),
    /// The existing PCK secret is still valid: nothing to do.
    KeepValidSecret,
    /// The PCK secret and the PIID index entry are written.
    Finish,
    /// Registration failed.
    Fail(RegistrationError),
    /// The event does not answer the action the state waits on; the state is
    /// left as it was.
    OutOfOrder,
}

/// Whether next state `s2` and action `a` go on from an invalid PCK secret:
/// the platform data must be present and yield the PCK certificates request.
pub open spec fn after_invalid_secret(
    s2: Registration,
    a: RegistrationAction,
    identity: PlatformIdentity,
    data: Option<Vec<(String, Vec<u8>)>>,
) -> bool {
    match data {
        None => s2 is Done && a matches RegistrationAction::Fail(
            RegistrationError::Registrar(RegistrarError::NoData),
        ),
        Some(d) => match a {
            RegistrationAction::FetchPckCerts(q) => {
                &&& is_request_for(byte_pairs_view(d@), Ok(q))
                &&& s2 == (Registration::FetchingPckCerts { identity, request: q })
            },
            RegistrationAction::Fail(RegistrationError::Pcs(e)) => s2 is Done && is_request_for(
                byte_pairs_view(d@),
                Err(e),
            ),
            _ => false,
        },
    }
}

fn request_step(identity: PlatformIdentity, data: Option<Vec<(String, Vec<u8>)>>) -> (r: (
    Registration,
    RegistrationAction,
))
    ensures
        after_invalid_secret(r.0, r.1, identity, data),
{
    let d = match data {
        Some(d) => d,
        None => {
            return (
                Registration::Done,
                RegistrationAction::Fail(RegistrationError::Registrar(RegistrarError::NoData)),
            );
        },
    };
    match PckCertsRequest::from_secret_data(&d) {
        Err(e) => (Registration::Done, RegistrationAction::Fail(RegistrationError::Pcs(e))),
        Ok(request) => {
            let sent = PckCertsRequest {
                platform_manifest: request.platform_manifest.clone(),
                pce_id: request.pce_id.clone(),
                cpu_svn: request.cpu_svn.clone(),
            };
            (Registration::FetchingPckCerts { identity, request }, RegistrationAction::FetchPckCerts(sent))
        },
    }
}

/// One step of registering a platform: from the state and what the last
/// action observed, the next state and action.
///
/// Read the identity of the platform-data secret and its PCK secret. Where
/// the PCK secret records this platform-data version, read the clock and keep
/// the secret while it is valid at that reading. Otherwise
/// ask PCS for the PCK certificates, keep those verified against the issuer
/// chain, ask for the TCB info (which must be of the standard SGX type),
/// read the clock and build the cache file (with the issuer chain URL-decoded)
/// to expire `EXPIRE_HOURS` after that reading, apply the PCK secret and
/// record the PIID of the first kept certificate in the PIID index.
pub fn registration_step(state: Registration, event: RegistrationEvent) -> (r: (
    Registration,
    RegistrationAction,
))
    ensures
        ({
            let (s2, a) = r;
            match (state, event) {
                (Registration::Start, RegistrationEvent::Begin(secret)) => match identity_of(
                    secret@,
                ) {
                    Err(e) => {
                        &&& s2 is Done
                        &&& a matches RegistrationAction::Fail(RegistrationError::Registrar(e2))
                        &&& e2 == e
                    },
                    Ok(v) => s2 matches Registration::ReadingPckSecret { identity, data } && {
                        &&& identity_is(identity, v)
                        &&& data == secret.data
                        &&& a matches RegistrationAction::ReadPckSecret(n) && n@ == v.2
                    },
                },
                (
                    Registration::ReadingPckSecret { identity, data },
                    RegistrationEvent::PckSecretRead(existing),
                ) => {
                    if existing matches Some(s) && records_version(s@, identity.resource_version@) {
                        &&& s2 == (Registration::CheckingPckSecret { identity, data, existing: existing->0 })
                        &&& a is ReadClock
                    } else {
                        after_invalid_secret(s2, a, identity, data)
                    }
                },
                (
                    Registration::CheckingPckSecret { identity, data, existing },
                    RegistrationEvent::ClockRead(reading),
                ) => match reading {
                    None => {
                        &&& s2 is Done
                        &&& a matches RegistrationAction::Fail(RegistrationError::Registrar(RegistrarError::Clock))
                    },
                    Some(now) => if pck_secret_valid_at(existing@, identity.resource_version@, now as int) {
                        s2 is Done && a is KeepValidSecret
                    } else {
                        after_invalid_secret(s2, a, identity, data)
                    },
                },
                (
                    Registration::FetchingPckCerts { identity, request },
                    RegistrationEvent::PckCertsFetched { fmspc, cert_chain, entries },
                ) => match filtered_pck_certs(entry_views(entries@), cert_chain@) {
                    Err(e) => {
                        &&& s2 is Done
                        &&& a matches RegistrationAction::Fail(RegistrationError::Certificates(e2))
                        &&& e2 == e
                    },
                    Ok((json, piid)) => {
                        &&& s2 matches Registration::FetchingTcbInfo {
                            identity: i2,
                            cpu_svn,
                            fmspc: f2,
                            chain_pem: c2,
                            certs_json,
                            piid: p2,
                        } && i2 == identity && cpu_svn == request.cpu_svn && f2 == fmspc && c2@
                            == url_decoded(cert_chain@)->0 && certs_json@ == json && p2@ == piid
                        &&& a matches RegistrationAction::FetchTcbInfo(f) && f == fmspc
                    },
                },
                (
                    Registration::FetchingTcbInfo { identity, cpu_svn, fmspc, chain_pem, certs_json, piid },
                    RegistrationEvent::TcbInfoFetched { body, tcb_type },
                ) => {
                    if tcb_type != 0 {
                        &&& s2 is Done
                        &&& a matches RegistrationAction::Fail(
                            RegistrationError::Registrar(RegistrarError::UnsupportedTcbType(t)),
                        )
                        &&& t == tcb_type
                    } else {
                        &&& s2 == (Registration::StampingCache {
                            identity,
                            cpu_svn,
                            fmspc,
                            chain_pem,
                            certs_json,
                            piid,
                            tcb_info: body,
                        })
                        &&& a is ReadClock
                    }
                },
                (
                    Registration::StampingCache {
                        identity,
                        cpu_svn,
                        fmspc,
                        chain_pem,
                        certs_json,
                        piid,
                        tcb_info,
                    },
                    RegistrationEvent::ClockRead(reading),
                ) => match reading {
                    None => s2 is Done && a matches RegistrationAction::Fail(
                        RegistrationError::Cache(CacheError::Clock),
                    ),
                    Some(now) => {
                        let expires = now + EXPIRE_HOURS * 3600;
                        let cpu = encode_utf8(cpu_svn@);
                        let tcb = encode_utf8(tcb_info@);
                        let pem = encode_utf8(chain_pem@);
                        let json = encode_utf8(certs_json@);
                        if expires > u64::MAX {
                            s2 is Done && a matches RegistrationAction::Fail(
                                RegistrationError::Cache(CacheError::ExpirationOverflow),
                            )
                        } else if !all_fields_fit(cpu, tcb, pem, json) {
                            s2 is Done && a matches RegistrationAction::Fail(
                                RegistrationError::Cache(CacheError::FieldTooLarge),
                            )
                        } else {
                            &&& s2 == (Registration::ApplyingPckSecret { identity, piid })
                            &&& a matches RegistrationAction::ApplyPckSecret(p)
                            &&& is_pck_secret_plan(
                                p,
                                identity.pck_secret_name@,
                                identity.namespace@,
                                fmspc@,
                                identity.resource_version@,
                                cache_blob(expires as u64, cpu, tcb, pem, json),
                                expires as u64,
                            )
                        }
                    },
                },
                (
                    Registration::ApplyingPckSecret { identity, piid },
                    RegistrationEvent::PckSecretApplied,
                ) => {
                    &&& s2 is PatchingPiidIndex
                    &&& a matches RegistrationAction::PatchPiidIndex(e)
                    &&& is_piid_index_entry(e, identity.name@, piid@)
                },
                (Registration::PatchingPiidIndex, RegistrationEvent::PiidIndexPatched) => s2 is Done
                    && a is Finish,
                (s, _) => s2 == s && a is OutOfOrder,
            }
        }),
{
    match (state, event) {
        (Registration::Start, RegistrationEvent::Begin(secret)) => {
            match platform_identity(&secret) {
                Err(e) => (Registration::Done, RegistrationAction::Fail(RegistrationError::Registrar(e))),
                Ok(identity) => {
                    let name = identity.pck_secret_name.clone();
                    (
                        Registration::ReadingPckSecret { identity, data: secret.data },
                        RegistrationAction::ReadPckSecret(name),
                    )
                },
            }
        },
        (Registration::ReadingPckSecret { identity, data }, RegistrationEvent::PckSecretRead(existing)) => {
            let recorded = match &existing {
                Some(s) => pck_secret_records_version(Some(s), identity.resource_version.as_str()),
                None => false,
            };
            match existing {
                Some(s) => {
                    if recorded {
                        return (
                            Registration::CheckingPckSecret { identity, data, existing: s },
                            RegistrationAction::ReadClock,
                        );
                    }
                },
                None => {},
            }
            request_step(identity, data)
        },
        (
            Registration::CheckingPckSecret { identity, data, existing },
            RegistrationEvent::ClockRead(reading),
        ) => {
            match reading {
                None => (
                    Registration::Done,
                    RegistrationAction::Fail(RegistrationError::Registrar(RegistrarError::Clock)),
                ),
                Some(now) => {
                    if pck_secret_valid_at_time(Some(&existing), identity.resource_version.as_str(), now) {
                        (Registration::Done, RegistrationAction::KeepValidSecret)
                    } else {
                        request_step(identity, data)
                    }
                },
            }
        },
        (
            Registration::FetchingPckCerts { identity, request },
            RegistrationEvent::PckCertsFetched { fmspc, cert_chain, entries },
        ) => {
            match filter_and_verify_pck_certs(&entries, cert_chain.as_str()) {
                Err(e) => (Registration::Done, RegistrationAction::Fail(RegistrationError::Certificates(e))),
                Ok((certs_json, piid)) => {
                    // The chain was decoded to be verified, so it decodes here too.
                    let chain_pem = match url_decode(cert_chain.as_str()) {
                        Some(p) => p,
                        None => {
                            return (
                                Registration::Done,
                                RegistrationAction::Fail(
                                    RegistrationError::Certificates(PckCertError::ChainNotUrlEncoded),
                                ),
                            );
                        },
                    };
                    let asked = fmspc.clone();
                    (
                        Registration::FetchingTcbInfo {
                            identity,
                            cpu_svn: request.cpu_svn,
                            fmspc,
                            chain_pem,
                            certs_json,
                            piid,
                        },
                        RegistrationAction::FetchTcbInfo(asked),
                    )
                },
            }
        },
        (
            Registration::FetchingTcbInfo { identity, cpu_svn, fmspc, chain_pem, certs_json, piid },
            RegistrationEvent::TcbInfoFetched { body, tcb_type },
        ) => {
            match check_tcb_type(tcb_type) {
                Err(e) => {
                    return (Registration::Done, RegistrationAction::Fail(RegistrationError::Registrar(e)));
                },
                Ok(()) => {},
            }
            (
                Registration::StampingCache {
                    identity,
                    cpu_svn,
                    fmspc,
                    chain_pem,
                    certs_json,
                    piid,
                    tcb_info: body,
                },
                RegistrationAction::ReadClock,
            )
        },
        (
            Registration::StampingCache { identity, cpu_svn, fmspc, chain_pem, certs_json, piid, tcb_info },
            RegistrationEvent::ClockRead(reading),
        ) => {
            let now = match reading {
                Some(n) => n,
                None => {
                    return (Registration::Done, RegistrationAction::Fail(RegistrationError::Cache(CacheError::Clock)));
                },
            };
            let expiration = match expiration_from(now) {
                Some(t) => t,
                None => {
                    return (
                        Registration::Done,
                        RegistrationAction::Fail(RegistrationError::Cache(CacheError::ExpirationOverflow)),
                    );
                },
            };
            match encode_cache_blob(
                cpu_svn.as_str(),
                tcb_info.as_str(),
                chain_pem.as_str(),
                certs_json.as_str(),
                expiration,
            ) {
                Err(e) => (Registration::Done, RegistrationAction::Fail(RegistrationError::Cache(e))),
                Ok(blob) => {
                    let plan = pck_secret_plan(
                        identity.pck_secret_name.as_str(),
                        identity.namespace.as_str(),
                        fmspc.as_str(),
                        identity.resource_version.as_str(),
                        blob.as_slice(),
                        expiration,
                    );
                    (Registration::ApplyingPckSecret { identity, piid }, RegistrationAction::ApplyPckSecret(plan))
                },
            }
        },
        (Registration::ApplyingPckSecret { identity, piid }, RegistrationEvent::PckSecretApplied) => {
            let entry = piid_index_entry(identity.name.as_str(), piid.as_str());
            (Registration::PatchingPiidIndex, RegistrationAction::PatchPiidIndex(entry))
        },
        (Registration::PatchingPiidIndex, RegistrationEvent::PiidIndexPatched) => {
            (Registration::Done, RegistrationAction::Finish)
        },
        (s, _) => (s, RegistrationAction::OutOfOrder),
    }
}

} // verus!
