use vstd::prelude::*;
use vstd::string::StringSliceAdditionalSpecFns;
use crate::pck::x509::{
    DerElement, DerElementView, DerSequence, DerSequenceView, ExtensionLookup, ExtensionValue,
    der_sequence, der_sequence_of, entries_view, first_pem_block, first_pem_block_of,
    x509_extension, x509_extension_value,
};
use crate::pck::encoding::{url_decode, url_decoded};
use crate::pck::x509::{pem_blocks, pem_blocks_of, x509_parse_ok, x509_parses, x509_signed_by, x509_verify};
use crate::text::{encode_hex_lower, hex_lower, str_equal};
use vstd::utf8::encode_utf8;

verus! {

/// Arcs of the OID of the Intel SGX PCK certificate extension, 1.2.840.113741.1.13.1.
pub open spec fn sgx_pck_ext_arcs() -> Seq<u64> {
    seq![1u64, 2, 840, 113741, 1, 13, 1]
}

/// DER content of the OID of the Platform Instance ID within the SGX PCK
/// extension, 1.2.840.113741.1.13.1.6.
pub open spec fn piid_oid_der() -> Seq<u8> {
    seq![0x2au8, 0x86, 0x48, 0x86, 0xf8, 0x4d, 0x01, 0x0d, 0x01, 0x06]
}

/// DER tag number of an OBJECT IDENTIFIER.
pub const TAG_OID: u32 = 6;

/// What is wrong with a certificate's PIID.
#[derive(Debug, Clone, Copy, PartialEq, Eq, Structural)]
pub enum PiidError {
    /// The PEM text does not parse.
    PemParse,
    /// The certificate does not parse.
    CertificateParse,
    /// The SGX PCK extension occurs more than once.
    DuplicateExtension,
    /// The certificate has no SGX PCK extension.
    ExtensionMissing,
    /// The extension is not DER.
    MalformedDer,
    /// The extension is not a SEQUENCE.
    ExtensionNotSequence,
    /// An entry of the extension is not a SEQUENCE.
    EntryNotSequence,
    /// An entry does not start with an OID.
    EntryOidExpected,
    /// The PIID value holds no bytes (it is not an OCTET STRING or another
    /// value with byte content).
    PiidNotOctetString,
    /// The PIID is not 16 bytes long.
    PiidLength(usize),
    /// The extension has no PIID entry.
    PiidMissing,
}

/// The PIID bytes among the entries of the SGX extension: the first entry,
/// in order, of at least two elements whose first is the PIID OID. Every
/// entry before it must be a SEQUENCE whose first element, if it has two or
/// more, is an OID.
pub open spec fn piid_in_entries(entries: Seq<Option<Seq<DerElementView>>>) -> Result<Seq<u8>, PiidError>
    decreases entries.len(),
{
    if entries.len() == 0 {
        Err(PiidError::PiidMissing)
    } else {
        match entries[0] {
            None => Err(PiidError::EntryNotSequence),
            Some(inner) => if inner.len() < 2 {
                piid_in_entries(entries.drop_first())
            } else {
                match inner[0].oid {
                    None => Err(PiidError::EntryOidExpected),
                    Some(oid) => if inner[0].tag == TAG_OID && oid == piid_oid_der() {
                        match inner[1].bytes {
                            None => Err(PiidError::PiidNotOctetString),
                            Some(b) => if b.len() != 16 {
                                Err(PiidError::PiidLength(b.len() as usize))
                            } else {
                                Ok(b)
                            },
                        }
                    } else {
                        piid_in_entries(entries.drop_first())
                    },
                }
            },
        }
    }
}

/// The PIID bytes held by the value of an SGX PCK extension: a DER SEQUENCE
/// of entries (bytes after it are ignored).
pub open spec fn piid_of_extension(ext: Seq<u8>) -> Result<Seq<u8>, PiidError> {
    match der_sequence_of(ext) {
        DerSequenceView::Malformed => Err(PiidError::MalformedDer),
        DerSequenceView::NotSequence => Err(PiidError::ExtensionNotSequence),
        DerSequenceView::Entries(es) => piid_in_entries(es),
    }
}

/// The PIID of a PEM certificate as lower-case hex, or what is wrong.
pub open spec fn piid_of_pem(pem: Seq<u8>) -> Result<Seq<char>, PiidError> {
    match first_pem_block_of(pem) {
        None => Err(PiidError::PemParse),
        Some(der) => match x509_extension(der, sgx_pck_ext_arcs()) {
            ExtensionLookup::NotParsed => Err(PiidError::CertificateParse),
            ExtensionLookup::Duplicate => Err(PiidError::DuplicateExtension),
            ExtensionLookup::Missing => Err(PiidError::ExtensionMissing),
            ExtensionLookup::Found(ext) => match piid_of_extension(ext) {
                Ok(p) => Ok(hex_lower(p)),
                Err(e) => Err(e),
            },
        },
    }
}

fn copy_bytes(b: &Vec<u8>) -> (r: Vec<u8>)
    ensures
        r@ == b@,
{
    let mut v: Vec<u8> = Vec::new();
    let mut i: usize = 0;
    while i < b.len()
        invariant
            i <= b@.len(),
            v@ == b@.subrange(0, i as int),
        decreases b@.len() - i,
    {
        v.push(b[i]);
        assert(v@ =~= b@.subrange(0, i + 1));
        i = i + 1;
    }
    assert(b@.subrange(0, b@.len() as int) =~= b@);
    v
}

fn bytes_equal(a: &Vec<u8>, b: &[u8]) -> (r: bool)
    ensures
        r == (a@ == b@),
{
    if a.len() != b.len() {
        return false;
    }
    let mut i: usize = 0;
    while i < a.len()
        invariant
            a@.len() == b@.len(),
            i <= a@.len(),
            forall|k: int| 0 <= k < i ==> a@[k] == b@[k],
        decreases a@.len() - i,
    {
        if a[i] != b[i] {
            return false;
        }
        i = i + 1;
    }
    assert(a@ =~= b@);
    true
}

/// The PIID bytes among the entries read from an SGX PCK extension (see
/// `piid_in_entries`).
pub fn piid_from_entries(entries: &Vec<Option<Vec<DerElement>>>) -> (r: Result<Vec<u8>, PiidError>)
    ensures
        match piid_in_entries(entries_view(entries@)) {
            Ok(p) => r matches Ok(v) && v@ == p,
            Err(e) => r == Err::<Vec<u8>, PiidError>(e),
        },
{
    let piid_oid: [u8; 10] = [0x2a, 0x86, 0x48, 0x86, 0xf8, 0x4d, 0x01, 0x0d, 0x01, 0x06];
    assert(piid_oid@ =~= piid_oid_der());
    let ghost all = entries_view(entries@);
    assert(all.subrange(0, all.len() as int) =~= all);
    let mut i: usize = 0;
    while i < entries.len()
        invariant
            all == entries_view(entries@),
            piid_oid@ == piid_oid_der(),
            i <= all.len(),
            piid_in_entries(all) == piid_in_entries(all.subrange(i as int, all.len() as int)),
        decreases all.len() - i,
    {
        let ghost rest = all.subrange(i as int, all.len() as int);
        assert(rest[0] == all[i as int]);
        assert(rest.drop_first() =~= all.subrange(i + 1, all.len() as int));
        let inner = match &entries[i] {
            Some(v) => v,
            None => return Err(PiidError::EntryNotSequence),
        };
        assert(all[i as int] == Some(inner@.map_values(|e: DerElement| e@)));
        if inner.len() >= 2 {
            assert(inner@.map_values(|e: DerElement| e@)[0] == inner@[0]@);
            assert(inner@.map_values(|e: DerElement| e@)[1] == inner@[1]@);
            let first = &inner[0];
            let oid = match &first.oid {
                Some(o) => o,
                None => return Err(PiidError::EntryOidExpected),
            };
            if first.tag == TAG_OID && bytes_equal(oid, &piid_oid) {
                let bytes = match &inner[1].bytes {
                    Some(b) => b,
                    None => return Err(PiidError::PiidNotOctetString),
                };
                if bytes.len() != 16 {
                    return Err(PiidError::PiidLength(bytes.len()));
                }
                return Ok(copy_bytes(bytes));
            }
        }
        i = i + 1;
    }
    assert(all.subrange(i as int, all.len() as int) =~= Seq::<Option<Seq<DerElementView>>>::empty());
    Err(PiidError::PiidMissing)
}

/// The PIID bytes held by the value of an SGX PCK extension.
pub fn piid_from_extension(ext: &[u8]) -> (r: Result<Vec<u8>, PiidError>)
    ensures
        match piid_of_extension(ext@) {
            Ok(p) => r matches Ok(v) && v@ == p,
            Err(e) => r == Err::<Vec<u8>, PiidError>(e),
        },
{
    match der_sequence(ext) {
        DerSequence::Malformed => Err(PiidError::MalformedDer),
        DerSequence::NotSequence => Err(PiidError::ExtensionNotSequence),
        DerSequence::Entries(es) => piid_from_entries(&es),
    }
}

/// Extracts the Platform Instance ID (PIID) from a PEM certificate's SGX PCK
/// extension, as 32 lower-case hex characters.
pub fn extract_piid(pem: &str) -> (r: Result<String, PiidError>)
    ensures
        match piid_of_pem(pem.spec_bytes()) {
            Ok(p) => r matches Ok(s) && s@ == p,
            Err(e) => r == Err::<String, PiidError>(e),
        },
{
    let der = match first_pem_block(pem.as_bytes()) {
        Some(d) => d,
        None => return Err(PiidError::PemParse),
    };
    let arcs: [u64; 7] = [1, 2, 840, 113741, 1, 13, 1];
    assert(arcs@ =~= sgx_pck_ext_arcs());
    match x509_extension_value(der.as_slice(), arcs.as_slice()) {
        ExtensionValue::NotParsed => Err(PiidError::CertificateParse),
        ExtensionValue::Duplicate => Err(PiidError::DuplicateExtension),
        ExtensionValue::Missing => Err(PiidError::ExtensionMissing),
        ExtensionValue::Found(ext) => {
            let piid = piid_from_extension(ext.as_slice())?;
            Ok(encode_hex_lower(piid.as_slice()))
        },
    }
}


/// A PCK certificate entry of the PCS response: its `tcb` (as compact JSON
/// text), its `tcbm`, and its `cert` (URL-encoded PEM, or "Not available").
#[derive(Debug, Clone)]
pub struct PckCertEntry {
    pub tcb_json: String,
    pub tcbm: String,
    pub cert: String,
}

pub struct PckCertEntryView {
    pub tcb_json: Seq<char>,
    pub tcbm: Seq<char>,
    pub cert: Seq<char>,
}

impl View for PckCertEntry {
    type V = PckCertEntryView;

    open spec fn view(&self) -> PckCertEntryView {
        PckCertEntryView { tcb_json: self.tcb_json@, tcbm: self.tcbm@, cert: self.cert@ }
    }
}

pub open spec fn entry_views(es: Seq<PckCertEntry>) -> Seq<PckCertEntryView> {
    es.map_values(|e: PckCertEntry| e@)
}

impl PckCertEntry {
    /// A copy with the same view.
    pub fn duplicate(&self) -> (r: Self)
        ensures
            r@ == self@,
    {
        PckCertEntry { tcb_json: self.tcb_json.clone(), tcbm: self.tcbm.clone(), cert: self.cert.clone() }
    }
}

/// Why PCK certificates are refused.
#[derive(Debug, Clone, Copy, PartialEq, Eq, Structural)]
pub enum PckCertError {
    /// The issuer chain is not valid percent-encoded UTF-8.
    ChainNotUrlEncoded,
    /// A PEM block of the issuer chain is invalid.
    ChainPem,
    /// The issuer chain does not hold exactly two certificates.
    ChainLength(usize),
    /// A certificate of the chain (by position) does not parse.
    ChainCertificateParse(usize),
    /// Not exactly one certificate of the chain is self-signed.
    NoSelfSignedRoot,
    /// The intermediate CA is not signed by the root CA.
    IntermediateNotSigned,
    /// A certificate (by position) is not valid percent-encoded UTF-8.
    CertificateNotUrlEncoded(usize),
    /// A certificate (by position) does not parse as PEM and X.509.
    CertificateUnreadable(usize, CertReadError),
    /// A certificate (by position) is not signed by the intermediate CA.
    SignatureMismatch(usize),
    /// No certificate is left after dropping the unavailable ones.
    NoValidCertificates,
    /// The first kept certificate has no valid PIID.
    Piid(PiidError),
}

/// Why a PEM certificate cannot be checked.
#[derive(Debug, Clone, Copy, PartialEq, Eq, Structural)]
pub enum CertReadError {
    /// The PEM text does not parse.
    Pem,
    /// The certificate in it does not parse.
    Certificate,
}

/// What checking PEM certificate text against the issuer certificate `issuer`
/// (DER) gives: whether the issuer's public key accepts its signature, or why
/// it cannot be read.
pub open spec fn certificate_verdict(pem: Seq<u8>, issuer: Seq<u8>) -> Result<bool, CertReadError> {
    match first_pem_block_of(pem) {
        None => Err(CertReadError::Pem),
        Some(der) => if x509_parses(der) {
            Ok(x509_signed_by(der, Some(issuer)))
        } else {
            Err(CertReadError::Certificate)
        },
    }
}

/// Verifies a PEM certificate against the public key of the issuer
/// certificate `issuer_der`.
pub fn verify_certificate(cert_pem: &str, issuer_der: &[u8]) -> (r: Result<bool, CertReadError>)
    requires
        x509_parses(issuer_der@),
    ensures
        r == certificate_verdict(cert_pem.spec_bytes(), issuer_der@),
{
    let der = match first_pem_block(cert_pem.as_bytes()) {
        Some(d) => d,
        None => return Err(CertReadError::Pem),
    };
    if !x509_parse_ok(der.as_slice()) {
        return Err(CertReadError::Certificate);
    }
    Ok(x509_verify(der.as_slice(), Some(issuer_der)))
}

/// The root and intermediate CA certificates (DER) among the decoded PEM
/// blocks of an issuer chain: exactly two certificates, the root being the
/// only self-signed one, and the intermediate signed by the root.
pub open spec fn roots_of_blocks(ders: Seq<Seq<u8>>) -> Result<(Seq<u8>, Seq<u8>), PckCertError> {
    if ders.len() != 2 {
        Err(PckCertError::ChainLength(ders.len() as usize))
    } else if !x509_parses(ders[0]) {
        Err(PckCertError::ChainCertificateParse(0))
    } else if !x509_parses(ders[1]) {
        Err(PckCertError::ChainCertificateParse(1))
    } else {
        let s0 = x509_signed_by(ders[0], None);
        let s1 = x509_signed_by(ders[1], None);
        let pair = if s0 && !s1 {
            Some((ders[0], ders[1]))
        } else if s1 && !s0 {
            Some((ders[1], ders[0]))
        } else {
            None
        };
        match pair {
            None => Err(PckCertError::NoSelfSignedRoot),
            Some((root, inter)) => if x509_signed_by(inter, Some(root)) {
                Ok((root, inter))
            } else {
                Err(PckCertError::IntermediateNotSigned)
            },
        }
    }
}

/// The root and intermediate CA certificates (DER) of the issuer chain: its
/// URL-decoded text holds PEM blocks from which `roots_of_blocks` picks them.
pub open spec fn chain_roots(cert_chain: Seq<char>) -> Result<(Seq<u8>, Seq<u8>), PckCertError> {
    match url_decoded(cert_chain) {
        None => Err(PckCertError::ChainNotUrlEncoded),
        Some(decoded) => match pem_blocks_of(encode_utf8(decoded)) {
            None => Err(PckCertError::ChainPem),
            Some(ders) => roots_of_blocks(ders),
        },
    }
}

/// Root and intermediate are told apart by self-signature, not by position:
/// the two blocks in either order give the same accepted pair.
pub proof fn lemma_roots_order_free(a: Seq<u8>, b: Seq<u8>)
    ensures
        roots_of_blocks(seq![a, b]) is Ok ==> roots_of_blocks(seq![b, a]) == roots_of_blocks(
            seq![a, b],
        ),
{
    assert(seq![a, b][0] == a && seq![a, b][1] == b);
    assert(seq![b, a][0] == b && seq![b, a][1] == a);
}

/// Whether the entry at position `idx` is kept under intermediate CA `inter`:
/// "Not available" entries are dropped; every other one must decode, parse and
/// be signed by the intermediate CA, or the whole response is refused.
pub open spec fn entry_kept(e: PckCertEntryView, idx: int, inter: Seq<u8>) -> Result<bool, PckCertError> {
    if e.cert == "Not available"@ {
        Ok(false)
    } else {
        match url_decoded(e.cert) {
            None => Err(PckCertError::CertificateNotUrlEncoded(idx as usize)),
            Some(decoded) => match certificate_verdict(encode_utf8(decoded), inter) {
                Ok(true) => Ok(true),
                Ok(false) => Err(PckCertError::SignatureMismatch(idx as usize)),
                Err(why) => Err(PckCertError::CertificateUnreadable(idx as usize, why)),
            },
        }
    }
}

/// The entries kept, in order, or the error of the first refused one.
pub open spec fn kept_entries(es: Seq<PckCertEntryView>, inter: Seq<u8>) -> Result<
    Seq<PckCertEntryView>,
    PckCertError,
>
    decreases es.len(),
{
    if es.len() == 0 {
        Ok(Seq::empty())
    } else {
        match kept_entries(es.drop_last(), inter) {
            Err(e) => Err(e),
            Ok(kept) => match entry_kept(es.last(), es.len() - 1, inter) {
                Err(e) => Err(e),
                Ok(true) => Ok(kept.push(es.last())),
                Ok(false) => Ok(kept),
            },
        }
    }
}

proof fn lemma_kept_prefix_err(es: Seq<PckCertEntryView>, inter: Seq<u8>, n: int)
    requires
        0 <= n <= es.len(),
        kept_entries(es.subrange(0, n), inter) is Err,
    ensures
        kept_entries(es, inter) == kept_entries(es.subrange(0, n), inter),
    decreases es.len() - n,
{
    if n < es.len() {
        assert(es.drop_last().subrange(0, n) =~= es.subrange(0, n));
        lemma_kept_prefix_err(es.drop_last(), inter, n);
    } else {
        assert(es.subrange(0, n) =~= es);
    }
}

/// The predicate "the entry's certificate is available".
pub open spec fn available() -> spec_fn(PckCertEntryView) -> bool {
    |e: PckCertEntryView| e.cert != "Not available"@
}

/// Whether an entry's certificate decodes and is signed by the intermediate CA `inter`.
pub open spec fn verified_by(e: PckCertEntryView, inter: Seq<u8>) -> bool {
    url_decoded(e.cert) matches Some(d) && certificate_verdict(encode_utf8(d), inter) == Ok::<
        bool,
        CertReadError,
    >(true)
}

/// When no entry is refused, the kept entries are the available ones, in
/// order, each verified by the intermediate CA.
pub proof fn lemma_kept_entries_ok(es: Seq<PckCertEntryView>, inter: Seq<u8>)
    requires
        kept_entries(es, inter) is Ok,
    ensures
        kept_entries(es, inter)->Ok_0 == es.filter(available()),
        forall|i: int|
            0 <= i < es.filter(available()).len() ==> verified_by(
                #[trigger] es.filter(available())[i],
                inter,
            ),
    decreases es.len(),
{
    if es.len() == 0 {
        assert(es.filter(available()) =~= Seq::<PckCertEntryView>::empty());
    } else {
        let init = es.drop_last();
        lemma_kept_entries_ok(init, inter);
        assert(es =~= init.push(es.last()));
        init.lemma_filter_push(es.last(), available());
        let f = es.filter(available());
        let fi = init.filter(available());
        assert forall|i: int| 0 <= i < f.len() implies verified_by(#[trigger] f[i], inter) by {
            if i < fi.len() {
                assert(f[i] == fi[i]);
            }
        }
    }
}

/// Law: a PCK certificate response is accepted only with an issuer chain of a
/// self-signed root and an intermediate CA it signed; the entries kept are
/// then exactly the available ones, in order, each signed by that
/// intermediate CA, and at least one is kept.
pub proof fn lemma_accepted_response(es: Seq<PckCertEntryView>, cert_chain: Seq<char>)
    requires
        filtered_pck_certs(es, cert_chain) is Ok,
    ensures
        ({
            let (root, inter) = chain_roots(cert_chain)->Ok_0;
            let kept = es.filter(available());
            &&& chain_roots(cert_chain) is Ok
            &&& x509_signed_by(root, None) && x509_signed_by(inter, Some(root))
            &&& kept.len() > 0
            &&& filtered_pck_certs(es, cert_chain)->Ok_0.0 == entries_json_array(kept)
            &&& forall|i: int| 0 <= i < kept.len() ==> verified_by(#[trigger] kept[i], inter)
        }),
{
    let (root, inter) = chain_roots(cert_chain)->Ok_0;
    lemma_kept_entries_ok(es, inter);
}

/// Law: the order of the two certificates in the issuer chain does not matter:
/// two chains whose URL-decoded PEM blocks are the same two certificates in
/// opposite orders give the same accepted result.
pub proof fn lemma_chain_order_free(
    es: Seq<PckCertEntryView>,
    chain1: Seq<char>,
    chain2: Seq<char>,
    a: Seq<u8>,
    b: Seq<u8>,
)
    requires
        url_decoded(chain1) is Some,
        url_decoded(chain2) is Some,
        pem_blocks_of(encode_utf8(url_decoded(chain1)->0)) == Some(seq![a, b]),
        pem_blocks_of(encode_utf8(url_decoded(chain2)->0)) == Some(seq![b, a]),
    ensures
        filtered_pck_certs(es, chain1) is Ok ==> filtered_pck_certs(es, chain2) == filtered_pck_certs(
            es,
            chain1,
        ),
        filtered_pck_certs(es, chain2) is Ok ==> filtered_pck_certs(es, chain1) == filtered_pck_certs(
            es,
            chain2,
        ),
{
    lemma_roots_order_free(a, b);
    lemma_roots_order_free(b, a);
}

/// What `serde_json::to_string` gives for a string: the JSON string literal
/// of its text.
pub uninterp spec fn json_string(s: Seq<char>) -> Seq<char>;

/// Writes a string as a JSON string literal with `serde_json::to_string`
/// (which cannot fail on a `str`; its error would give the empty string).
#[verifier::external_body]
fn json_quote(s: &str) -> (r: String)
    ensures
        r@ == json_string(s@),
{
    match serde_json::to_string(s) {
        Ok(t) => t,
        Err(_) => String::new(),
    }
}

/// A certificate entry as a compact JSON object with fields `tcb`, `tcbm`, `cert`.
pub open spec fn entry_json(e: PckCertEntryView) -> Seq<char> {
    "{\"tcb\":"@ + e.tcb_json + ",\"tcbm\":"@ + json_string(e.tcbm) + ",\"cert\":"@ + json_string(
        e.cert,
    ) + "}"@
}

/// The entries joined by commas.
pub open spec fn entries_json(es: Seq<PckCertEntryView>) -> Seq<char>
    decreases es.len(),
{
    if es.len() == 0 {
        Seq::empty()
    } else if es.len() == 1 {
        entry_json(es[0])
    } else {
        entries_json(es.drop_last()) + ","@ + entry_json(es.last())
    }
}

/// The entries as a compact JSON array, as `serde_json::to_string` writes it.
pub open spec fn entries_json_array(es: Seq<PckCertEntryView>) -> Seq<char> {
    "["@ + entries_json(es) + "]"@
}

fn push_str(out: &mut String, s: &str)
    ensures
        final(out)@ == old(out)@ + s@,
{
    out.append(s);
}

fn push_json_string(out: &mut String, s: &str)
    ensures
        final(out)@ == old(out)@ + json_string(s@),
{
    let quoted = json_quote(s);
    out.append(quoted.as_str());
}

/// The entries as a compact JSON array with fields `tcb`, `tcbm`, `cert`, as
/// `serde_json::to_string` writes them.
pub fn pck_certs_to_json(es: &Vec<PckCertEntry>) -> (r: String)
    ensures
        r@ == entries_json_array(entry_views(es@)),
{
    let mut out = String::new();
    push_str(&mut out, "[");
    let mut i: usize = 0;
    while i < es.len()
        invariant
            i <= es@.len(),
            out@ == "["@ + entries_json(entry_views(es@.subrange(0, i as int))),
        decreases es@.len() - i,
    {
        let ghost before = out@;
        let ghost pre = entry_views(es@.subrange(0, i as int));
        let ghost cur = entry_views(es@.subrange(0, i + 1));
        assert(cur.drop_last() =~= pre);
        assert(cur.last() == es@[i as int]@);
        if i > 0 {
            push_str(&mut out, ",");
        }
        let ghost mid = out@;
        let e = &es[i];
        push_str(&mut out, "{\"tcb\":");
        push_str(&mut out, e.tcb_json.as_str());
        push_str(&mut out, ",\"tcbm\":");
        push_json_string(&mut out, e.tcbm.as_str());
        push_str(&mut out, ",\"cert\":");
        push_json_string(&mut out, e.cert.as_str());
        push_str(&mut out, "}");
        proof {
            assert(out@ =~= mid + entry_json(e@));
            if i == 0 {
                assert(cur.len() == 1);
                assert(pre.len() == 0);
                assert(before =~= "["@ + entries_json(pre));
                assert(entries_json(cur) == entry_json(cur[0]));
                assert(out@ =~= "["@ + entries_json(cur));
            } else {
                assert(mid =~= before + ","@);
                assert(cur.len() > 1);
                assert(entries_json(cur) == entries_json(pre) + ","@ + entry_json(cur.last()));
                assert(out@ =~= "["@ + entries_json(cur));
            }
        }
        i = i + 1;
    }
    push_str(&mut out, "]");
    assert(es@.subrange(0, es@.len() as int) =~= es@);
    assert(out@ =~= entries_json_array(entry_views(es@)));
    out
}

/// What filtering a PCK certificate response gives: under the issuer chain's
/// intermediate CA, the kept entries as JSON, and the PIID of the first kept
/// certificate.
pub open spec fn filtered_pck_certs(es: Seq<PckCertEntryView>, cert_chain: Seq<char>) -> Result<
    (Seq<char>, Seq<char>),
    PckCertError,
> {
    match chain_roots(cert_chain) {
        Err(e) => Err(e),
        Ok((_root, inter)) => match kept_entries(es, inter) {
            Err(e) => Err(e),
            Ok(kept) => if kept.len() == 0 {
                Err(PckCertError::NoValidCertificates)
            } else {
                match piid_of_pem(encode_utf8(url_decoded(kept[0].cert)->0)) {
                    Err(e) => Err(PckCertError::Piid(e)),
                    Ok(piid) => Ok((entries_json_array(kept), piid)),
                }
            },
        },
    }
}

/// Once an entry is refused, the whole response is refused with its error.
proof fn lemma_refused_entry(
    es: Seq<PckCertEntryView>,
    cert_chain: Seq<char>,
    root: Seq<u8>,
    inter: Seq<u8>,
    n: int,
)
    requires
        0 <= n <= es.len(),
        chain_roots(cert_chain) == Ok::<(Seq<u8>, Seq<u8>), PckCertError>((root, inter)),
        kept_entries(es.subrange(0, n), inter) is Err,
    ensures
        filtered_pck_certs(es, cert_chain) == Err::<(Seq<char>, Seq<char>), PckCertError>(
            kept_entries(es.subrange(0, n), inter)->Err_0,
        ),
{
    lemma_kept_prefix_err(es, inter, n);
    assert(es.subrange(0, es.len() as int) =~= es);
}

/// Checks the issuer chain, drops the "Not available" entries, verifies every
/// other certificate against the intermediate CA, and gives the kept entries
/// as JSON together with the PIID of the first kept certificate.
pub fn filter_and_verify_pck_certs(entries: &Vec<PckCertEntry>, cert_chain: &str) -> (r: Result<
    (String, String),
    PckCertError,
>)
    ensures
        match filtered_pck_certs(entry_views(entries@), cert_chain@) {
            Ok((json, piid)) => r matches Ok((j, p)) && j@ == json && p@ == piid,
            Err(e) => r == Err::<(String, String), PckCertError>(e),
        },
{
    let decoded_chain = match url_decode(cert_chain) {
        Some(d) => d,
        None => return Err(PckCertError::ChainNotUrlEncoded),
    };
    let chain_der = match pem_blocks(decoded_chain.as_str().as_bytes()) {
        Some(v) => v,
        None => return Err(PckCertError::ChainPem),
    };
    if chain_der.len() != 2 {
        return Err(PckCertError::ChainLength(chain_der.len()));
    }
    assert(chain_der@[0]@ == chain_der.deep_view()[0]);
    assert(chain_der@[1]@ == chain_der.deep_view()[1]);
    if !x509_parse_ok(chain_der[0].as_slice()) {
        return Err(PckCertError::ChainCertificateParse(0));
    }
    if !x509_parse_ok(chain_der[1].as_slice()) {
        return Err(PckCertError::ChainCertificateParse(1));
    }
    let s0 = x509_verify(chain_der[0].as_slice(), None);
    let s1 = x509_verify(chain_der[1].as_slice(), None);
    let (root, inter) = if s0 && !s1 {
        (&chain_der[0], &chain_der[1])
    } else if s1 && !s0 {
        (&chain_der[1], &chain_der[0])
    } else {
        return Err(PckCertError::NoSelfSignedRoot);
    };
    if !x509_verify(inter.as_slice(), Some(root.as_slice())) {
        return Err(PckCertError::IntermediateNotSigned);
    }
    assert(chain_roots(cert_chain@) == Ok::<(Seq<u8>, Seq<u8>), PckCertError>((root@, inter@)));
    let ghost all = entry_views(entries@);
    let mut kept: Vec<PckCertEntry> = Vec::new();
    assert(all.subrange(0, 0) =~= Seq::<PckCertEntryView>::empty());
    assert(entry_views(kept@) =~= Seq::<PckCertEntryView>::empty());
    let mut first_pem: Option<String> = None;
    let n = entries.len();
    let mut i: usize = 0;
    while i < n
        invariant
            n == entries@.len(),
            all == entry_views(entries@),
            i <= n,
            x509_parses(inter@),
            chain_roots(cert_chain@) == Ok::<(Seq<u8>, Seq<u8>), PckCertError>((root@, inter@)),
            kept_entries(all.subrange(0, i as int), inter@) == Ok::<
                Seq<PckCertEntryView>,
                PckCertError,
            >(entry_views(kept@)),
            first_pem is Some <==> kept@.len() > 0,
            first_pem matches Some(p) ==> p@ == url_decoded(kept@[0].cert@)->0,
        decreases n - i,
    {
        let e = &entries[i];
        let ghost sub = all.subrange(0, i + 1);
        assert(sub.drop_last() =~= all.subrange(0, i as int));
        assert(sub.last() == e@);
        if str_equal(e.cert.as_str(), "Not available") {
            i = i + 1;
            continue;
        }
        let decoded = match url_decode(e.cert.as_str()) {
            Some(d) => d,
            None => {
                proof {
                    lemma_refused_entry(all, cert_chain@, root@, inter@, i + 1);
                }
                return Err(PckCertError::CertificateNotUrlEncoded(i));
            },
        };
        let verdict = verify_certificate(decoded.as_str(), inter.as_slice());
        match verdict {
            Ok(true) => {},
            Ok(false) => {
                proof {
                    lemma_refused_entry(all, cert_chain@, root@, inter@, i + 1);
                }
                return Err(PckCertError::SignatureMismatch(i));
            },
            Err(why) => {
                proof {
                    lemma_refused_entry(all, cert_chain@, root@, inter@, i + 1);
                }
                return Err(PckCertError::CertificateUnreadable(i, why));
            },
        }
        let ghost before = kept@;
        if kept.len() == 0 {
            first_pem = Some(decoded);
        }
        kept.push(e.duplicate());
        assert(entry_views(kept@) =~= entry_views(before).push(e@));
        assert(kept@[0] == before.push(kept@[kept@.len() - 1])[0]);
        i = i + 1;
    }
    assert(all.subrange(0, n as int) =~= all);
    let pem = match first_pem {
        Some(p) => p,
        None => return Err(PckCertError::NoValidCertificates),
    };
    assert(entry_views(kept@)[0] == kept@[0]@);
    let json = pck_certs_to_json(&kept);
    match extract_piid(pem.as_str()) {
        Ok(piid) => Ok((json, piid)),
        Err(e) => Err(PckCertError::Piid(e)),
    }
}

} // verus!
