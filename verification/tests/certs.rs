use tdx_qgs::pck::cache::{CacheError, EXPIRE_HOURS};
use tdx_qgs::pck::certs::{
    extract_piid, filter_and_verify_pck_certs, pck_certs_to_json, piid_from_entries,
    piid_from_extension, verify_certificate, CertReadError, PckCertEntry, PckCertError, PiidError,
};
use tdx_qgs::pck::x509::DerElement;
use tdx_qgs::pck::registrar::{RegistrarError, ANNOTATION_EXPIRES_AT, ANNOTATION_PLATFORM_DATA_RV};
use tdx_qgs::pck::registration::{
    registration_step, Registration, RegistrationAction, RegistrationError, RegistrationEvent,
};
use tdx_qgs::pck::secret::Secret;

// A test PKI: a self-signed root CA, an intermediate CA signed by it, a PCK
// certificate signed by the intermediate CA whose SGX extension holds PIID
// 00112233445566778899aabbccddeeff, a certificate without the SGX extension
// signed by the intermediate CA, and the PCK certificate signed by the root.
const ROOT: &str = "-----BEGIN CERTIFICATE-----\n\
    MIIBfDCCASKgAwIBAgIUC0/beFWjzVeI8DLudoDCtCLdNf4wCgYIKoZIzj0EAwIw\n\
    GzEZMBcGA1UEAwwQVGVzdCBTR1ggUm9vdCBDQTAgFw0yNjExMTcwNzA3MTNaGA8y\n\
    MTI2MTAyNDA3MDcxM1owGzEZMBcGA1UEAwwQVGVzdCBTR1ggUm9vdCBDQTBZMBMG\n\
    ByqGSM49AgEGCCqGSM49AwEHA0IABDjitrDW/7syaKAigcVbHnyBrxzo+0hhoApj\n\
    ep5sqWT/Su8z+Hs0ZLJLt47wgteE34GikHo6fyE8gF3JQUoBuDqjQjBAMA8GA1Ud\n\
    EwEB/wQFMAMBAf8wDgYDVR0PAQH/BAQDAgEGMB0GA1UdDgQWBBSd1BnXjq3OHNar\n\
    YFucPPtpC/1DPjAKBggqhkjOPQQDAgNIADBFAiEAuPojDb26NfnEZhlkAwfQowPR\n\
    Vv9ZyHEA+iYAw++uvGgCIFy8clJpgc5VthwYc9czqoUeYqmP5OjY80hbwK9dB8mn\n\
    -----END CERTIFICATE-----\n";

const INTERMEDIATE: &str = "-----BEGIN CERTIFICATE-----\n\
    MIIBpTCCAUugAwIBAgIUAMcWQWDW8copscPyl+Es2P72pTowCgYIKoZIzj0EAwIw\n\
    GzEZMBcGA1UEAwwQVGVzdCBTR1ggUm9vdCBDQTAgFw0yNjExMTcwNzA3MTNaGA8y\n\
    MTI2MTAyNDA3MDcxM1owIzEhMB8GA1UEAwwYVGVzdCBTR1ggUENLIFBsYXRmb3Jt\n\
    IENBMFkwEwYHKoZIzj0CAQYIKoZIzj0DAQcDQgAEfqTWj0gzSsFoketbNADCwsJ6\n\
    YhGyCVCQJIIfCaxfNBmtDMPIe9ctHlaq63zfd+yS9r6Osih07voTY8wJ+FT2IKNj\n\
    MGEwDwYDVR0TAQH/BAUwAwEB/zAOBgNVHQ8BAf8EBAMCAQYwHQYDVR0OBBYEFA0V\n\
    5C4J6S2WtUNGxbutjOphca/mMB8GA1UdIwQYMBaAFJ3UGdeOrc4c1qtgW5w8+2kL\n\
    /UM+MAoGCCqGSM49BAMCA0gAMEUCID9S0+Jqhsd3oy0NNLBoSq/I3Tztc9gethad\n\
    2XvRdWYvAiEAhO7NbjUUJVbayDdNXDtmfXcmAmeMd/IlzaGLHu38eiw=\n\
    -----END CERTIFICATE-----\n";

const PCK: &str = "-----BEGIN CERTIFICATE-----\n\
    MIIB7jCCAZOgAwIBAgIUX9IV2pc+7l+s/0o3Bd29JjMKQGAwCgYIKoZIzj0EAwIw\n\
    IzEhMB8GA1UEAwwYVGVzdCBTR1ggUENLIFBsYXRmb3JtIENBMCAXDTI2MTExNzA3\n\
    MDcxM1oYDzIxMjYxMDI0MDcwNzEzWjAjMSEwHwYDVQQDDBhUZXN0IFNHWCBQQ0sg\n\
    Q2VydGlmaWNhdGUwWTATBgcqhkjOPQIBBggqhkjOPQMBBwNCAATGoFZjkBIWDeZS\n\
    JWh3sPmBJMGI7m2QvZWCHi6QGaelGiNdlxv4mplXQl8sFtxywZR2UTYkU9wETJqt\n\
    o0FHTEQVo4GiMIGfMAwGA1UdEwEB/wQCMAAwTwYJKoZIhvhNAQ0BBEIwQDAeBgoq\n\
    hkiG+E0BDQEBBBCrq6urq6urq6urq6urq6urMB4GCiqGSIb4TQENAQYEEAARIjNE\n\
    VWZ3iJmqu8zd7v8wHQYDVR0OBBYEFDNYqZ7foz3UdCGEtZpPL1lpaNnVMB8GA1Ud\n\
    IwQYMBaAFA0V5C4J6S2WtUNGxbutjOphca/mMAoGCCqGSM49BAMCA0kAMEYCIQD2\n\
    lcb5cdUzgR1oQqF9bwJg9y1dRFLs1PIHlClHBGmVUgIhAP9uozRgOcVwaNKgL1Od\n\
    BK9rLBezpWFZHXB12yufV+WA\n\
    -----END CERTIFICATE-----\n";

const NO_SGX_EXT: &str = "-----BEGIN CERTIFICATE-----\n\
    MIIBhjCCAS2gAwIBAgIUX9IV2pc+7l+s/0o3Bd29JjMKQGEwCgYIKoZIzj0EAwIw\n\
    IzEhMB8GA1UEAwwYVGVzdCBTR1ggUENLIFBsYXRmb3JtIENBMCAXDTI2MTExNzA3\n\
    MDcxM1oYDzIxMjYxMDI0MDcwNzEzWjAQMQ4wDAYDVQQDDAVPdGhlcjBZMBMGByqG\n\
    SM49AgEGCCqGSM49AwEHA0IABJ0asVVM0PWKAi+C+s/oFI+bdivlcWBP/6OgNwoV\n\
    V/6xLE3cglh2+lg6DjvsWwSmejLneTLPdi7S91jErw55JY6jUDBOMAwGA1UdEwEB\n\
    /wQCMAAwHQYDVR0OBBYEFN6SMiWgZcNlifudPwGC9QJcVnASMB8GA1UdIwQYMBaA\n\
    FA0V5C4J6S2WtUNGxbutjOphca/mMAoGCCqGSM49BAMCA0cAMEQCID7FQ2uZKF3S\n\
    fTr8+G3t5FDUYVcCwU7GnUPRb3QDrmlMAiAAzTFAnKmAJXPjOb6lxl8beoGDsF6e\n\
    /icZU/k8gNUMxQ==\n\
    -----END CERTIFICATE-----\n";

const SIGNED_BY_ROOT: &str = "-----BEGIN CERTIFICATE-----\n\
    MIIB5jCCAYugAwIBAgIUAMcWQWDW8copscPyl+Es2P72pTswCgYIKoZIzj0EAwIw\n\
    GzEZMBcGA1UEAwwQVGVzdCBTR1ggUm9vdCBDQTAgFw0yNjExMTcwNzA3MTNaGA8y\n\
    MTI2MTAyNDA3MDcxM1owIzEhMB8GA1UEAwwYVGVzdCBTR1ggUENLIENlcnRpZmlj\n\
    YXRlMFkwEwYHKoZIzj0CAQYIKoZIzj0DAQcDQgAExqBWY5ASFg3mUiVod7D5gSTB\n\
    iO5tkL2Vgh4ukBmnpRojXZcb+JqZV0JfLBbccsGUdlE2JFPcBEyaraNBR0xEFaOB\n\
    ojCBnzAMBgNVHRMBAf8EAjAAME8GCSqGSIb4TQENAQRCMEAwHgYKKoZIhvhNAQ0B\n\
    AQQQq6urq6urq6urq6urq6urqzAeBgoqhkiG+E0BDQEGBBAAESIzRFVmd4iZqrvM\n\
    3e7/MB0GA1UdDgQWBBQzWKme36M91HQhhLWaTy9ZaWjZ1TAfBgNVHSMEGDAWgBSd\n\
    1BnXjq3OHNarYFucPPtpC/1DPjAKBggqhkjOPQQDAgNJADBGAiEAosQwNaftfXcG\n\
    28D354a0CawCQvY+48wzAI/so9IuCpoCIQDPQ1Xr62XOYEJPuIsIveYwKhddE42n\n\
    s1FpXWPdCDQHQw==\n\
    -----END CERTIFICATE-----\n";

const PIID: &str = "00112233445566778899aabbccddeeff";

fn der_of(pem: &str) -> Vec<u8> {
    let (_, p) = x509_parser::pem::parse_x509_pem(pem.as_bytes()).unwrap();
    p.contents
}

fn entry(tcbm: &str, cert: &str) -> PckCertEntry {
    PckCertEntry {
        tcb_json: "{\"sgxtcbcomponents\":[]}".to_string(),
        tcbm: tcbm.to_string(),
        cert: cert.to_string(),
    }
}

fn encoded(pem: &str) -> String {
    urlencoding::encode(pem).into_owned()
}

fn chain() -> String {
    encoded(&format!("{ROOT}{INTERMEDIATE}"))
}

#[test]
fn extract_piid_reads_sgx_extension() {
    assert_eq!(extract_piid(PCK).unwrap(), PIID);
    assert_eq!(extract_piid(SIGNED_BY_ROOT).unwrap(), PIID);
    assert_eq!(extract_piid(NO_SGX_EXT), Err(PiidError::ExtensionMissing));
    assert_eq!(extract_piid("not a certificate"), Err(PiidError::PemParse));
    let broken = "-----BEGIN CERTIFICATE-----\nAAAA\n-----END CERTIFICATE-----\n";
    assert_eq!(extract_piid(broken), Err(PiidError::CertificateParse));
}

#[test]
fn piid_from_extension_walks_entries() {
    let oid_ppid = [0x06u8, 0x0a, 0x2a, 0x86, 0x48, 0x86, 0xf8, 0x4d, 0x01, 0x0d, 0x01, 0x01];
    let oid_piid = [0x06u8, 0x0a, 0x2a, 0x86, 0x48, 0x86, 0xf8, 0x4d, 0x01, 0x0d, 0x01, 0x06];
    let octets = |n: usize, b: u8| -> Vec<u8> {
        let mut v = vec![0x04, n as u8];
        v.extend(std::iter::repeat(b).take(n));
        v
    };
    let seq = |parts: Vec<Vec<u8>>| -> Vec<u8> {
        let body: Vec<u8> = parts.concat();
        let mut v = vec![0x30, body.len() as u8];
        v.extend(body);
        v
    };
    let ppid_entry = seq(vec![oid_ppid.to_vec(), octets(16, 0xab)]);
    let piid_entry = seq(vec![oid_piid.to_vec(), octets(16, 0x5a)]);
    let ext = seq(vec![ppid_entry.clone(), piid_entry.clone()]);
    assert_eq!(piid_from_extension(&ext).unwrap(), vec![0x5a; 16]);

    // A one-element entry is skipped.
    let lone = seq(vec![oid_ppid.to_vec()]);
    let ext = seq(vec![lone, piid_entry.clone()]);
    assert_eq!(piid_from_extension(&ext).unwrap(), vec![0x5a; 16]);

    let ext = seq(vec![ppid_entry.clone()]);
    assert_eq!(piid_from_extension(&ext), Err(PiidError::PiidMissing));

    let short = seq(vec![oid_piid.to_vec(), octets(15, 1)]);
    assert_eq!(piid_from_extension(&seq(vec![short])), Err(PiidError::PiidLength(15)));

    // An INTEGER has byte content too.
    let int_value = seq(vec![oid_piid.to_vec(), vec![0x02, 0x01, 0x07]]);
    assert_eq!(piid_from_extension(&seq(vec![int_value])), Err(PiidError::PiidLength(1)));
    let bool_value = seq(vec![oid_piid.to_vec(), vec![0x01, 0x01, 0xff]]);
    assert_eq!(piid_from_extension(&seq(vec![bool_value])), Err(PiidError::PiidNotOctetString));

    let no_oid = seq(vec![octets(2, 0), octets(16, 0)]);
    assert_eq!(piid_from_extension(&seq(vec![no_oid])), Err(PiidError::EntryOidExpected));

    assert_eq!(piid_from_extension(&seq(vec![octets(3, 0)])), Err(PiidError::EntryNotSequence));
    assert_eq!(piid_from_extension(&octets(3, 0)), Err(PiidError::ExtensionNotSequence));
    assert_eq!(piid_from_extension(&[0x30, 0x05, 0x01]), Err(PiidError::MalformedDer));
    assert_eq!(piid_from_extension(&[]), Err(PiidError::MalformedDer));
}

fn element(tag: u32, oid: Option<&[u8]>, bytes: Option<&[u8]>) -> DerElement {
    DerElement { tag, oid: oid.map(|o| o.to_vec()), bytes: bytes.map(|b| b.to_vec()) }
}

#[test]
fn piid_from_entries_picks_first_piid_entry() {
    let piid_oid: &[u8] = &[0x2a, 0x86, 0x48, 0x86, 0xf8, 0x4d, 0x01, 0x0d, 0x01, 0x06];
    let other_oid: &[u8] = &[0x2a, 0x86, 0x48, 0x86, 0xf8, 0x4d, 0x01, 0x0d, 0x01, 0x01];
    let a = [0xaau8; 16];
    let b = [0xbbu8; 16];
    let entries = vec![
        Some(vec![element(6, Some(other_oid), None), element(4, None, Some(&a))]),
        // The same content as a relative OID is another OID.
        Some(vec![element(13, Some(piid_oid), None), element(4, None, Some(&a))]),
        Some(vec![element(6, Some(piid_oid), None), element(4, None, Some(&b))]),
        Some(vec![element(6, Some(piid_oid), None), element(4, None, Some(&a))]),
    ];
    assert_eq!(piid_from_entries(&entries).unwrap(), b.to_vec());
    assert_eq!(piid_from_entries(&vec![]), Err(PiidError::PiidMissing));
    assert_eq!(piid_from_entries(&vec![None]), Err(PiidError::EntryNotSequence));
    let short = vec![Some(vec![element(6, Some(piid_oid), None), element(4, None, Some(&a[..3]))])];
    assert_eq!(piid_from_entries(&short), Err(PiidError::PiidLength(3)));
}

#[test]
fn verify_certificate_checks_issuer_key() {
    let inter = der_of(INTERMEDIATE);
    let root = der_of(ROOT);
    assert_eq!(verify_certificate(PCK, &inter), Ok(true));
    assert_eq!(verify_certificate(NO_SGX_EXT, &inter), Ok(true));
    assert_eq!(verify_certificate(SIGNED_BY_ROOT, &inter), Ok(false));
    assert_eq!(verify_certificate(SIGNED_BY_ROOT, &root), Ok(true));
    assert_eq!(verify_certificate(INTERMEDIATE, &root), Ok(true));
    assert_eq!(verify_certificate("junk", &inter), Err(CertReadError::Pem));
    let broken = "-----BEGIN CERTIFICATE-----\nAAAA\n-----END CERTIFICATE-----\n";
    assert_eq!(verify_certificate(broken, &inter), Err(CertReadError::Certificate));
}

#[test]
fn filter_keeps_verified_certificates_and_reads_piid() {
    let entries = vec![
        entry("0000", &encoded(PCK)),
        entry("0001", "Not available"),
        entry("0002", &encoded(NO_SGX_EXT)),
    ];
    let (json, piid) = filter_and_verify_pck_certs(&entries, &chain()).unwrap();
    assert_eq!(piid, PIID);
    let expected = format!(
        "[{{\"tcb\":{{\"sgxtcbcomponents\":[]}},\"tcbm\":\"0000\",\"cert\":\"{}\"}},{{\"tcb\":{{\"sgxtcbcomponents\":[]}},\"tcbm\":\"0002\",\"cert\":\"{}\"}}]",
        encoded(PCK),
        encoded(NO_SGX_EXT)
    );
    assert_eq!(json, expected);

    // The chain may list the intermediate CA first.
    let reversed = encoded(&format!("{INTERMEDIATE}{ROOT}"));
    let (json2, piid2) = filter_and_verify_pck_certs(&entries, &reversed).unwrap();
    assert_eq!((json2, piid2), (json, piid));
}

#[test]
fn filter_refuses_bad_certificates() {
    let chain = chain();
    let bad_sig = vec![entry("0", &encoded(PCK)), entry("1", &encoded(SIGNED_BY_ROOT))];
    assert_eq!(filter_and_verify_pck_certs(&bad_sig, &chain), Err(PckCertError::SignatureMismatch(1)));
    let bad_pct = vec![entry("0", "Not available"), entry("1", "%FF%FE")];
    assert_eq!(filter_and_verify_pck_certs(&bad_pct, &chain), Err(PckCertError::CertificateNotUrlEncoded(1)));
    let junk = vec![entry("0", "junk"), entry("1", &encoded(PCK))];
    assert_eq!(
        filter_and_verify_pck_certs(&junk, &chain),
        Err(PckCertError::CertificateUnreadable(0, CertReadError::Pem))
    );
    let none = vec![entry("0", "Not available")];
    assert_eq!(filter_and_verify_pck_certs(&none, &chain), Err(PckCertError::NoValidCertificates));
    assert_eq!(filter_and_verify_pck_certs(&vec![], &chain), Err(PckCertError::NoValidCertificates));
    let no_ext_first = vec![entry("0", &encoded(NO_SGX_EXT)), entry("1", &encoded(PCK))];
    assert_eq!(
        filter_and_verify_pck_certs(&no_ext_first, &chain),
        Err(PckCertError::Piid(PiidError::ExtensionMissing))
    );
}

#[test]
fn filter_refuses_bad_chains() {
    let entries = vec![entry("0", &encoded(PCK))];
    assert_eq!(filter_and_verify_pck_certs(&entries, "%C3%28"), Err(PckCertError::ChainNotUrlEncoded));
    assert_eq!(
        filter_and_verify_pck_certs(&entries, &encoded(ROOT)),
        Err(PckCertError::ChainLength(1))
    );
    let three = encoded(&format!("{ROOT}{INTERMEDIATE}{PCK}"));
    assert_eq!(filter_and_verify_pck_certs(&entries, &three), Err(PckCertError::ChainLength(3)));
    let two_roots = encoded(&format!("{ROOT}{ROOT}"));
    assert_eq!(filter_and_verify_pck_certs(&entries, &two_roots), Err(PckCertError::NoSelfSignedRoot));
    // The "intermediate" here (the PCK certificate signed by the intermediate CA) is not signed by the root.
    let unrelated = encoded(&format!("{ROOT}{PCK}"));
    assert_eq!(filter_and_verify_pck_certs(&entries, &unrelated), Err(PckCertError::IntermediateNotSigned));
    let broken = encoded("-----BEGIN CERTIFICATE-----\nAAAA\n-----END CERTIFICATE-----\n");
    let with_broken = format!("{}{}", encoded(ROOT), broken);
    assert_eq!(filter_and_verify_pck_certs(&entries, &with_broken), Err(PckCertError::ChainCertificateParse(1)));
}

#[test]
fn pck_certs_json_escapes_strings() {
    let entries = vec![PckCertEntry {
        tcb_json: "{\"a\":1}".to_string(),
        tcbm: "q\"b\\n\nt\tc\u{1}".to_string(),
        cert: "\u{e9}".to_string(),
    }];
    assert_eq!(
        pck_certs_to_json(&entries),
        "[{\"tcb\":{\"a\":1},\"tcbm\":\"q\\\"b\\\\n\\nt\\tc\\u0001\",\"cert\":\"\u{e9}\"}]"
    );
    assert_eq!(pck_certs_to_json(&vec![]), "[]");
    let two = vec![entry("a", "b"), entry("c", "d")];
    assert_eq!(
        pck_certs_to_json(&two),
        "[{\"tcb\":{\"sgxtcbcomponents\":[]},\"tcbm\":\"a\",\"cert\":\"b\"},{\"tcb\":{\"sgxtcbcomponents\":[]},\"tcbm\":\"c\",\"cert\":\"d\"}]"
    );
}

#[test]
fn pck_certs_json_matches_serde_json_strings() {
    for s in ["plain", "quote\"", "back\\slash", "\u{8}\u{c}\n\r\t", "\u{1f}\u{7f}", "\u{2028}\u{1F600}"] {
        let entries = vec![PckCertEntry { tcb_json: "null".to_string(), tcbm: s.to_string(), cert: String::new() }];
        let expected = format!("[{{\"tcb\":null,\"tcbm\":{},\"cert\":\"\"}}]", serde_json::to_string(s).unwrap());
        assert_eq!(pck_certs_to_json(&entries), expected);
    }
}

fn platform_data_secret() -> Secret {
    Secret {
        name: Some("a1b2".to_string()),
        namespace: Some("ns".to_string()),
        resource_version: Some("41".to_string()),
        annotations: None,
        data: Some(vec![
            ("platform_manifest".to_string(), b"dead".to_vec()),
            ("pce_id".to_string(), b"0000".to_vec()),
            ("cpu_svn".to_string(), b"0102".to_vec()),
        ]),
    }
}

#[test]
fn registration_runs_to_completion() {
    let (s, a) = registration_step(Registration::Start, RegistrationEvent::Begin(platform_data_secret()));
    assert!(matches!(&a, RegistrationAction::ReadPckSecret(n) if n == "a1b2-pck"));
    let (s, a) = registration_step(s, RegistrationEvent::PckSecretRead(None));
    match &a {
        RegistrationAction::FetchPckCerts(q) => {
            assert_eq!((q.platform_manifest.as_str(), q.pce_id.as_str(), q.cpu_svn.as_str()), ("dead", "0000", "0102"));
        },
        other => panic!("unexpected {other:?}"),
    }
    let entries = vec![entry("0000", &encoded(PCK)), entry("0001", "Not available")];
    let (s, a) = registration_step(
        s,
        RegistrationEvent::PckCertsFetched { fmspc: "00906ED50000".to_string(), cert_chain: chain(), entries },
    );
    assert!(matches!(&a, RegistrationAction::FetchTcbInfo(f) if f == "00906ED50000"));
    let (s, a) = registration_step(
        s,
        RegistrationEvent::TcbInfoFetched { body: "{\"tcbInfo\":{}}".to_string(), tcb_type: 0 },
    );
    assert!(matches!(s, Registration::StampingCache { .. }));
    assert!(matches!(a, RegistrationAction::ReadClock));
    let (s, a) = registration_step(s, RegistrationEvent::ClockRead(Some(1_700_000_000)));
    let plan = match a {
        RegistrationAction::ApplyPckSecret(p) => p,
        other => panic!("unexpected {other:?}"),
    };
    assert_eq!(plan.name, "a1b2-pck");
    assert_eq!(plan.namespace, "ns");
    assert_eq!(plan.labels, vec![("fmspc".to_string(), "00906ED50000".to_string())]);
    assert_eq!(plan.annotations[0], (ANNOTATION_PLATFORM_DATA_RV.to_string(), "41".to_string()));
    assert_eq!(plan.annotations[1].0, ANNOTATION_EXPIRES_AT);
    let expires: u64 = plan.annotations[1].1.parse().unwrap();
    assert_eq!(expires, 1_700_000_000 + EXPIRE_HOURS * 3600);
    // The cache file's third field is the issuer chain, URL-decoded.
    let blob = base64::Engine::decode(&base64::engine::general_purpose::STANDARD, &plan.certificate_base64).unwrap();
    assert_eq!(u64::from_le_bytes(blob[6..14].try_into().unwrap()), expires);
    let mut offset = 14usize;
    let mut fields: Vec<Vec<u8>> = Vec::new();
    for _ in 0..4 {
        let len = u32::from_le_bytes(blob[offset..offset + 4].try_into().unwrap()) as usize;
        fields.push(blob[offset + 4..offset + 4 + len].to_vec());
        offset += 4 + len;
    }
    assert_eq!(offset, blob.len());
    assert_eq!(fields[0], b"0102".to_vec());
    assert_eq!(fields[1], b"{\"tcbInfo\":{}}".to_vec());
    assert_eq!(String::from_utf8(fields[2].clone()).unwrap(), format!("{ROOT}{INTERMEDIATE}"));
    let (s, a) = registration_step(s, RegistrationEvent::PckSecretApplied);
    match &a {
        RegistrationAction::PatchPiidIndex(e) => {
            assert_eq!(e.field_manager, "pck-cert-tool/a1b2");
            assert_eq!(e.key, "a1b2");
            assert_eq!(e.value_base64, "MDAxMTIyMzM0NDU1NjY3Nzg4OTlhYWJiY2NkZGVlZmY=");
        },
        other => panic!("unexpected {other:?}"),
    }
    let (s, a) = registration_step(s, RegistrationEvent::PiidIndexPatched);
    assert!(matches!(s, Registration::Done));
    assert!(matches!(a, RegistrationAction::Finish));
}

#[test]
fn registration_keeps_valid_secret_and_reports_failures() {
    let (s, _) = registration_step(Registration::Start, RegistrationEvent::Begin(platform_data_secret()));
    let valid = Secret {
        name: Some("a1b2-pck".to_string()),
        namespace: Some("ns".to_string()),
        resource_version: Some("9".to_string()),
        annotations: Some(vec![
            (ANNOTATION_PLATFORM_DATA_RV.to_string(), "41".to_string()),
            (ANNOTATION_EXPIRES_AT.to_string(), u64::MAX.to_string()),
        ]),
        data: Some(vec![("certificate".to_string(), vec![1, 2, 3])]),
    };
    let (s, a) = registration_step(s, RegistrationEvent::PckSecretRead(Some(valid.clone())));
    assert!(matches!(s, Registration::CheckingPckSecret { .. }));
    assert!(matches!(a, RegistrationAction::ReadClock));
    let (s, a) = registration_step(s, RegistrationEvent::ClockRead(Some(1_700_000_000)));
    assert!(matches!(s, Registration::Done));
    assert!(matches!(a, RegistrationAction::KeepValidSecret));

    // Expired at the clock reading: fetch again.
    let mut expiring = valid.clone();
    expiring.annotations = Some(vec![
        (ANNOTATION_PLATFORM_DATA_RV.to_string(), "41".to_string()),
        (ANNOTATION_EXPIRES_AT.to_string(), "1000".to_string()),
    ]);
    let (s, _) = registration_step(Registration::Start, RegistrationEvent::Begin(platform_data_secret()));
    let (s, _) = registration_step(s, RegistrationEvent::PckSecretRead(Some(expiring.clone())));
    let (_, a) = registration_step(s, RegistrationEvent::ClockRead(Some(1000)));
    assert!(matches!(a, RegistrationAction::FetchPckCerts(_)));
    let (s, _) = registration_step(Registration::Start, RegistrationEvent::Begin(platform_data_secret()));
    let (s, _) = registration_step(s, RegistrationEvent::PckSecretRead(Some(expiring.clone())));
    let (_, a) = registration_step(s, RegistrationEvent::ClockRead(Some(999)));
    assert!(matches!(a, RegistrationAction::KeepValidSecret));
    let (s, _) = registration_step(Registration::Start, RegistrationEvent::Begin(platform_data_secret()));
    let (s, _) = registration_step(s, RegistrationEvent::PckSecretRead(Some(expiring)));
    let (_, a) = registration_step(s, RegistrationEvent::ClockRead(None));
    assert!(matches!(a, RegistrationAction::Fail(RegistrationError::Registrar(RegistrarError::Clock))));

    // A secret of another platform-data version is refetched without reading the clock.
    let mut other = valid.clone();
    other.annotations = Some(vec![(ANNOTATION_PLATFORM_DATA_RV.to_string(), "40".to_string())]);
    let (s, _) = registration_step(Registration::Start, RegistrationEvent::Begin(platform_data_secret()));
    let (_, a) = registration_step(s, RegistrationEvent::PckSecretRead(Some(other)));
    assert!(matches!(a, RegistrationAction::FetchPckCerts(_)));

    let mut nameless = platform_data_secret();
    nameless.name = None;
    let (_, a) = registration_step(Registration::Start, RegistrationEvent::Begin(nameless));
    assert!(matches!(a, RegistrationAction::Fail(RegistrationError::Registrar(RegistrarError::NoName))));

    let mut no_data = platform_data_secret();
    no_data.data = None;
    let (s, _) = registration_step(Registration::Start, RegistrationEvent::Begin(no_data));
    let (_, a) = registration_step(s, RegistrationEvent::PckSecretRead(None));
    assert!(matches!(a, RegistrationAction::Fail(RegistrationError::Registrar(RegistrarError::NoData))));

    let (s, _) = registration_step(Registration::Start, RegistrationEvent::Begin(platform_data_secret()));
    let (s, _) = registration_step(s, RegistrationEvent::PckSecretRead(None));
    let (_, a) = registration_step(
        s,
        RegistrationEvent::PckCertsFetched {
            fmspc: "f".to_string(),
            cert_chain: chain(),
            entries: vec![entry("0", "Not available")],
        },
    );
    assert!(matches!(a, RegistrationAction::Fail(RegistrationError::Certificates(PckCertError::NoValidCertificates))));

    let (s, _) = registration_step(Registration::Start, RegistrationEvent::Begin(platform_data_secret()));
    let (s, _) = registration_step(s, RegistrationEvent::PckSecretRead(None));
    let (s, _) = registration_step(
        s,
        RegistrationEvent::PckCertsFetched { fmspc: "f".to_string(), cert_chain: chain(), entries: vec![entry("0", &encoded(PCK))] },
    );
    let (_, a) = registration_step(s, RegistrationEvent::TcbInfoFetched { body: "{}".to_string(), tcb_type: 1 });
    assert!(matches!(
        a,
        RegistrationAction::Fail(RegistrationError::Registrar(RegistrarError::UnsupportedTcbType(1)))
    ));

    // The cache file cannot be dated without a clock reading, nor past the
    // largest time.
    let fetched = || {
        let (s, _) = registration_step(Registration::Start, RegistrationEvent::Begin(platform_data_secret()));
        let (s, _) = registration_step(s, RegistrationEvent::PckSecretRead(None));
        let (s, _) = registration_step(
            s,
            RegistrationEvent::PckCertsFetched {
                fmspc: "f".to_string(),
                cert_chain: chain(),
                entries: vec![entry("0", &encoded(PCK))],
            },
        );
        let (s, _) = registration_step(s, RegistrationEvent::TcbInfoFetched { body: "{}".to_string(), tcb_type: 0 });
        s
    };
    let (s, a) = registration_step(fetched(), RegistrationEvent::ClockRead(None));
    assert!(matches!(s, Registration::Done));
    assert!(matches!(a, RegistrationAction::Fail(RegistrationError::Cache(CacheError::Clock))));
    let (_, a) = registration_step(fetched(), RegistrationEvent::ClockRead(Some(u64::MAX - EXPIRE_HOURS * 3600 + 1)));
    assert!(matches!(a, RegistrationAction::Fail(RegistrationError::Cache(CacheError::ExpirationOverflow))));
    let (_, a) = registration_step(fetched(), RegistrationEvent::ClockRead(Some(u64::MAX - EXPIRE_HOURS * 3600)));
    match a {
        RegistrationAction::ApplyPckSecret(p) => assert_eq!(p.annotations[1].1, u64::MAX.to_string()),
        other => panic!("unexpected {other:?}"),
    }

    // An event that answers no pending action leaves the state as it was.
    let (s, a) = registration_step(Registration::PatchingPiidIndex, RegistrationEvent::PckSecretApplied);
    assert!(matches!(s, Registration::PatchingPiidIndex));
    assert!(matches!(a, RegistrationAction::OutOfOrder));
}
