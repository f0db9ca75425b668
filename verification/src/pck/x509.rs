use vstd::prelude::*;

verus! {

/// What looking up a certificate extension by OID with
/// `X509Certificate::get_extension_unique` gives, over plain values.
pub enum ExtensionLookup {
    /// The certificate does not parse (or the OID arcs are invalid).
    NotParsed,
    /// The extension occurs more than once.
    Duplicate,
    /// The extension does not occur.
    Missing,
    /// The extension's value (its DER-encoded content).
    Found(Seq<u8>),
}

/// The same lookup, as an executable value.
#[derive(Debug)]
pub enum ExtensionValue {
    NotParsed,
    Duplicate,
    Missing,
    Found(Vec<u8>),
}

impl View for ExtensionValue {
    type V = ExtensionLookup;

    open spec fn view(&self) -> ExtensionLookup {
        match self {
            ExtensionValue::NotParsed => ExtensionLookup::NotParsed,
            ExtensionValue::Duplicate => ExtensionLookup::Duplicate,
            ExtensionValue::Missing => ExtensionLookup::Missing,
            ExtensionValue::Found(v) => ExtensionLookup::Found(v@),
        }
    }
}

/// The decoded contents of the PEM blocks of a buffer, in order, as
/// `x509_parser::pem::Pem::iter_from_buffer` yields them; `None` where a block
/// is invalid.
pub uninterp spec fn pem_blocks_of(buf: Seq<u8>) -> Option<Seq<Seq<u8>>>;

/// The decoded contents of the first PEM block of a buffer, as
/// `x509_parser::pem::parse_x509_pem` gives them; `None` where it fails.
pub uninterp spec fn first_pem_block_of(buf: Seq<u8>) -> Option<Seq<u8>>;

/// Whether `x509_parser::parse_x509_certificate` accepts DER bytes.
pub uninterp spec fn x509_parses(der: Seq<u8>) -> bool;

/// Whether `X509Certificate::verify_signature` accepts the signature of the
/// certificate `subject` under the public key of the certificate `issuer`
/// (its own key where `issuer` is `None`).
pub uninterp spec fn x509_signed_by(subject: Seq<u8>, issuer: Option<Seq<u8>>) -> bool;

/// What `X509Certificate::get_extension_unique` gives for a certificate and
/// an OID given by its arcs.
pub uninterp spec fn x509_extension(der: Seq<u8>, oid: Seq<u64>) -> ExtensionLookup;

/// The decoded contents of every PEM block of `buf`, from
/// `Pem::iter_from_buffer`; `None` where a block is invalid.
#[verifier::external_body]
pub(crate) fn pem_blocks(buf: &[u8]) -> (r: Option<Vec<Vec<u8>>>)
    ensures
        r is Some <==> pem_blocks_of(buf@) is Some,
        r matches Some(v) ==> v.deep_view() == pem_blocks_of(buf@)->0,
{
    x509_parser::pem::Pem::iter_from_buffer(buf).map(|r| r.map(|p| p.contents)).collect::<
        Result<Vec<Vec<u8>>, _>,
    >().ok()
}

/// The decoded contents of the first PEM block of `buf`, from `parse_x509_pem`.
#[verifier::external_body]
pub(crate) fn first_pem_block(buf: &[u8]) -> (r: Option<Vec<u8>>)
    ensures
        r is Some <==> first_pem_block_of(buf@) is Some,
        r matches Some(v) ==> v@ == first_pem_block_of(buf@)->0,
{
    match x509_parser::pem::parse_x509_pem(buf) {
        Ok((_, pem)) => Some(pem.contents),
        Err(_) => None,
    }
}

/// Whether `parse_x509_certificate` accepts `der`.
#[verifier::external_body]
pub(crate) fn x509_parse_ok(der: &[u8]) -> (r: bool)
    ensures
        r == x509_parses(der@),
{
    x509_parser::parse_x509_certificate(der).is_ok()
}

/// Checks the signature of certificate `subject` with `verify_signature`,
/// under the public key of certificate `issuer` (its own where `None`).
#[verifier::external_body]
pub(crate) fn x509_verify(subject: &[u8], issuer: Option<&[u8]>) -> (r: bool)
    requires
        x509_parses(subject@),
        issuer matches Some(i) ==> x509_parses(i@),
    ensures
        r == x509_signed_by(
            subject@,
            match issuer {
                Some(i) => Some(i@),
                None => None,
            },
        ),
{
    let Ok((_, cert)) = x509_parser::parse_x509_certificate(subject) else { return false };
    match issuer {
        None => cert.verify_signature(None).is_ok(),
        Some(i) => match x509_parser::parse_x509_certificate(i) {
            Ok((_, issuer_cert)) => cert.verify_signature(Some(issuer_cert.public_key())).is_ok(),
            Err(_) => false,
        },
    }
}

/// Looks up the extension with the given OID arcs in certificate `der` with
/// `get_extension_unique`, giving its value.
#[verifier::external_body]
pub(crate) fn x509_extension_value(der: &[u8], oid: &[u64]) -> (r: ExtensionValue)
    ensures
        r@ == x509_extension(der@, oid@),
{
    let Ok(oid) = x509_parser::der_parser::oid::Oid::from(oid) else { return ExtensionValue::NotParsed };
    let Ok((_, cert)) = x509_parser::parse_x509_certificate(der) else { return ExtensionValue::NotParsed };
    match cert.get_extension_unique(&oid) {
        Ok(Some(ext)) => ExtensionValue::Found(ext.value.to_vec()),
        Ok(None) => ExtensionValue::Missing,
        Err(_) => ExtensionValue::Duplicate,
    }
}

/// An element of an entry of a DER SEQUENCE as `der_parser` reads it: its
/// tag number, its OID content (`as_oid_val`) where it is an OID, and its byte
/// content (`as_slice`) where it has one.
#[derive(Debug)]
pub struct DerElement {
    pub tag: u32,
    pub oid: Option<Vec<u8>>,
    pub bytes: Option<Vec<u8>>,
}

pub struct DerElementView {
    pub tag: u32,
    pub oid: Option<Seq<u8>>,
    pub bytes: Option<Seq<u8>>,
}

impl View for DerElement {
    type V = DerElementView;

    open spec fn view(&self) -> DerElementView {
        DerElementView {
            tag: self.tag,
            oid: match self.oid {
                Some(o) => Some(o@),
                None => None,
            },
            bytes: match self.bytes {
                Some(b) => Some(b@),
                None => None,
            },
        }
    }
}

/// The views of the entries of a DER SEQUENCE: each entry's elements where
/// it is itself a SEQUENCE, `None` where it is not.
pub open spec fn entries_view(es: Seq<Option<Vec<DerElement>>>) -> Seq<Option<Seq<DerElementView>>> {
    es.map_values(
        |o: Option<Vec<DerElement>>|
            match o {
                Some(v) => Some(v@.map_values(|e: DerElement| e@)),
                None => None,
            },
    )
}

/// DER bytes read as a SEQUENCE of entries, each read as a SEQUENCE of elements.
#[derive(Debug)]
pub enum DerSequence {
    /// The bytes are not a DER value.
    Malformed,
    /// The value is not a SEQUENCE.
    NotSequence,
    /// The entries of the SEQUENCE.
    Entries(Vec<Option<Vec<DerElement>>>),
}

pub enum DerSequenceView {
    Malformed,
    NotSequence,
    Entries(Seq<Option<Seq<DerElementView>>>),
}

impl View for DerSequence {
    type V = DerSequenceView;

    open spec fn view(&self) -> DerSequenceView {
        match self {
            DerSequence::Malformed => DerSequenceView::Malformed,
            DerSequence::NotSequence => DerSequenceView::NotSequence,
            DerSequence::Entries(es) => DerSequenceView::Entries(entries_view(es@)),
        }
    }
}

/// What `der_parser::parse_der` and `as_sequence` give for DER bytes, read two
/// levels deep (bytes after the first value are ignored).
pub uninterp spec fn der_sequence_of(bytes: Seq<u8>) -> DerSequenceView;

/// Parses DER bytes with `der_parser::parse_der` and reads the value as a
/// SEQUENCE (`as_sequence`) whose entries are read as SEQUENCEs of elements;
/// the result is named, not stated.
#[verifier::external_body]
pub(crate) fn der_sequence(bytes: &[u8]) -> (r: DerSequence)
    ensures
        r@ == der_sequence_of(bytes@),
{
    let Ok((_, outer)) = x509_parser::der_parser::parse_der(bytes) else { return DerSequence::Malformed };
    let Ok(items) = outer.as_sequence() else { return DerSequence::NotSequence };
    DerSequence::Entries(items.iter().map(|item| item.as_sequence().ok().map(|inner| inner.iter().map(|e| DerElement {
        tag: e.tag().0,
        oid: e.as_oid_val().ok().map(|o| o.as_bytes().to_vec()),
        bytes: e.as_slice().ok().map(|b| b.to_vec()),
    }).collect())).collect())
}

} // verus!
