use vstd::prelude::*;
use crate::clock::unix_time_secs;
use vstd::string::StringSliceAdditionalSpecFns;

verus! {

/// Lifetime of a cache file, in hours (one year).
pub const EXPIRE_HOURS: u64 = 8760;

/// Cache header flag (bit 2) marking a file that holds several certificates.
pub const SGX_QPL_CACHE_MULTICERTS: u16 = 0x4;

/// Version written in the cache header.
pub const CACHE_VERSION: u16 = 1;

/// Little-endian bytes of a `u16`.
pub open spec fn le_u16(x: u16) -> Seq<u8> {
    seq![(x % 0x100) as u8, (x / 0x100 % 0x100) as u8]
}

/// Little-endian bytes of a `u32`.
pub open spec fn le_u32(x: u32) -> Seq<u8> {
    seq![
        (x % 0x100) as u8,
        (x / 0x100 % 0x100) as u8,
        (x / 0x1_0000 % 0x100) as u8,
        (x / 0x100_0000 % 0x100) as u8,
    ]
}

/// Little-endian bytes of a `u64`.
pub open spec fn le_u64(x: u64) -> Seq<u8> {
    seq![
        (x % 0x100) as u8,
        (x / 0x100 % 0x100) as u8,
        (x / 0x1_0000 % 0x100) as u8,
        (x / 0x100_0000 % 0x100) as u8,
        (x / 0x1_0000_0000 % 0x100) as u8,
        (x / 0x100_0000_0000 % 0x100) as u8,
        (x / 0x1_0000_0000_0000 % 0x100) as u8,
        (x / 0x100_0000_0000_0000 % 0x100) as u8,
    ]
}

/// A field of the cache: its length as a little-endian `u32`, then its bytes.
pub open spec fn cache_field(data: Seq<u8>) -> Seq<u8> {
    le_u32(data.len() as u32) + data
}

/// The cache header: version, flags, expiration time.
pub open spec fn cache_header(expiration: u64) -> Seq<u8> {
    le_u16(CACHE_VERSION) + le_u32(SGX_QPL_CACHE_MULTICERTS as u32) + le_u64(expiration)
}

/// The cache file layout: the header, then the TCB component (CPU SVN), the
/// TCB info, the certificate chain and the PCK certificates, each as a field.
pub open spec fn cache_blob(
    expiration: u64,
    cpu_svn: Seq<u8>,
    tcb_info: Seq<u8>,
    cert_chain: Seq<u8>,
    pck_certs: Seq<u8>,
) -> Seq<u8> {
    cache_header(expiration) + cache_field(cpu_svn) + cache_field(tcb_info) + cache_field(
        cert_chain,
    ) + cache_field(pck_certs)
}

/// Whether a field of this many bytes can be written (its length fits a `u32`).
pub open spec fn field_fits(data: Seq<u8>) -> bool {
    data.len() <= u32::MAX
}

/// Whether all four fields of a cache file can be written.
pub open spec fn all_fields_fit(
    cpu_svn: Seq<u8>,
    tcb_info: Seq<u8>,
    cert_chain: Seq<u8>,
    pck_certs: Seq<u8>,
) -> bool {
    field_fits(cpu_svn) && field_fits(tcb_info) && field_fits(cert_chain) && field_fits(pck_certs)
}

/// Errors of building a cache file.
#[derive(Debug)]
pub enum CacheError {
    /// The system clock stands before the Unix epoch.
    Clock,
    /// The expiration time does not fit in a `u64`.
    ExpirationOverflow,
    /// A field is too large for its `u32` length prefix.
    FieldTooLarge,
}

fn push_le_u16(buf: &mut Vec<u8>, x: u16)
    ensures
        final(buf)@ == old(buf)@ + le_u16(x),
{
    buf.push((x % 0x100) as u8);
    buf.push((x / 0x100 % 0x100) as u8);
    assert(buf@ =~= old(buf)@ + le_u16(x));
}

fn push_le_u32(buf: &mut Vec<u8>, x: u32)
    ensures
        final(buf)@ == old(buf)@ + le_u32(x),
{
    buf.push((x % 0x100) as u8);
    buf.push((x / 0x100 % 0x100) as u8);
    buf.push((x / 0x1_0000 % 0x100) as u8);
    buf.push((x / 0x100_0000 % 0x100) as u8);
    assert(buf@ =~= old(buf)@ + le_u32(x));
}

fn push_le_u64(buf: &mut Vec<u8>, x: u64)
    ensures
        final(buf)@ == old(buf)@ + le_u64(x),
{
    buf.push((x % 0x100) as u8);
    buf.push((x / 0x100 % 0x100) as u8);
    buf.push((x / 0x1_0000 % 0x100) as u8);
    buf.push((x / 0x100_0000 % 0x100) as u8);
    buf.push((x / 0x1_0000_0000 % 0x100) as u8);
    buf.push((x / 0x100_0000_0000 % 0x100) as u8);
    buf.push((x / 0x1_0000_0000_0000 % 0x100) as u8);
    buf.push((x / 0x100_0000_0000_0000 % 0x100) as u8);
    assert(buf@ =~= old(buf)@ + le_u64(x));
}

/// Appends `data` to `buf`.
pub fn append_bytes(buf: &mut Vec<u8>, data: &[u8])
    ensures
        final(buf)@ == old(buf)@ + data@,
{
    let mut i: usize = 0;
    while i < data.len()
        invariant
            i <= data@.len(),
            buf@ == old(buf)@ + data@.subrange(0, i as int),
        decreases data@.len() - i,
    {
        buf.push(data[i]);
        assert(data@.subrange(0, i + 1) =~= data@.subrange(0, i as int).push(data@[i as int]));
        i = i + 1;
    }
    assert(data@.subrange(0, data@.len() as int) =~= data@);
}

fn push_field(buf: &mut Vec<u8>, data: &str) -> (r: Result<(), CacheError>)
    ensures
        r is Ok <==> field_fits(data.spec_bytes()),
        r is Ok ==> final(buf)@ == old(buf)@ + cache_field(data.spec_bytes()),
        r is Err ==> r matches Err(CacheError::FieldTooLarge),
{
    let bytes = data.as_bytes();
    if bytes.len() > 0xffff_ffffusize {
        return Err(CacheError::FieldTooLarge);
    }
    let len = bytes.len() as u32;
    push_le_u32(buf, len);
    append_bytes(buf, bytes);
    assert(buf@ =~= old(buf)@ + cache_field(data.spec_bytes()));
    Ok(())
}

/// Encodes a cache file with the given expiration time. It fails exactly when
/// a field is too large for its length prefix.
pub fn encode_cache_blob(
    cpu_svn: &str,
    tcb_info: &str,
    cert_chain: &str,
    filtered_pck_certs_json: &str,
    expiration_time: u64,
) -> (r: Result<Vec<u8>, CacheError>)
    ensures
        r is Ok <==> all_fields_fit(
            cpu_svn.spec_bytes(),
            tcb_info.spec_bytes(),
            cert_chain.spec_bytes(),
            filtered_pck_certs_json.spec_bytes(),
        ),
        r is Err ==> r matches Err(CacheError::FieldTooLarge),
        r matches Ok(b) ==> b@ == cache_blob(
            expiration_time,
            cpu_svn.spec_bytes(),
            tcb_info.spec_bytes(),
            cert_chain.spec_bytes(),
            filtered_pck_certs_json.spec_bytes(),
        ),
{
    let mut cache_data: Vec<u8> = Vec::new();
    push_le_u16(&mut cache_data, CACHE_VERSION);
    push_le_u32(&mut cache_data, SGX_QPL_CACHE_MULTICERTS as u32);
    push_le_u64(&mut cache_data, expiration_time);
    assert(cache_data@ =~= cache_header(expiration_time));
    push_field(&mut cache_data, cpu_svn)?;
    push_field(&mut cache_data, tcb_info)?;
    push_field(&mut cache_data, cert_chain)?;
    push_field(&mut cache_data, filtered_pck_certs_json)?;
    Ok(cache_data)
}

/// The expiration time for a cache file made at `now` (seconds since the
/// epoch): `EXPIRE_HOURS` later, or `None` when that does not fit in a `u64`.
pub fn expiration_from(now: u64) -> (r: Option<u64>)
    ensures
        now + EXPIRE_HOURS * 3600 <= u64::MAX ==> r == Some((now + EXPIRE_HOURS * 3600) as u64),
        now + EXPIRE_HOURS * 3600 > u64::MAX ==> r is None,
{
    now.checked_add(EXPIRE_HOURS * 60 * 60)
}

/// The expiration time for a cache file made now: one year from the system clock.
pub fn get_expiration_time() -> (r: Result<u64, CacheError>)
    ensures
        r matches Ok(t) ==> t >= EXPIRE_HOURS * 3600,
        r is Err ==> (r matches Err(CacheError::Clock) || r matches Err(
            CacheError::ExpirationOverflow,
        )),
{
    let now = match unix_time_secs() {
        Ok(n) => n,
        Err(_) => return Err(CacheError::Clock),
    };
    match expiration_from(now) {
        Some(t) => Ok(t),
        None => Err(CacheError::ExpirationOverflow),
    }
}

/// Build the cache file in the layout the quote provider library reads:
/// header(14 bytes) + TCB component + TCB info + certificate chain + PCK
/// certificates. Returns the file and its expiration time.
pub fn build_cache_blob(
    cpu_svn: &str,
    tcb_info: &str,
    cert_chain: &str,
    filtered_pck_certs_json: &str,
) -> (r: Result<(Vec<u8>, u64), CacheError>)
    ensures
        r matches Ok((b, t)) ==> t >= EXPIRE_HOURS * 3600 && b@ == cache_blob(
            t,
            cpu_svn.spec_bytes(),
            tcb_info.spec_bytes(),
            cert_chain.spec_bytes(),
            filtered_pck_certs_json.spec_bytes(),
        ),
        r is Err ==> (r matches Err(CacheError::Clock) || r matches Err(
            CacheError::ExpirationOverflow,
        ) || r matches Err(CacheError::FieldTooLarge)),
        r matches Err(CacheError::FieldTooLarge) <==> !all_fields_fit(
            cpu_svn.spec_bytes(),
            tcb_info.spec_bytes(),
            cert_chain.spec_bytes(),
            filtered_pck_certs_json.spec_bytes(),
        ) && !(r matches Err(CacheError::Clock)) && !(r matches Err(
            CacheError::ExpirationOverflow,
        )),
{
    let expiration_time = get_expiration_time()?;
    let blob = encode_cache_blob(cpu_svn, tcb_info, cert_chain, filtered_pck_certs_json, expiration_time)?;
    Ok((blob, expiration_time))
}

/// The little-endian `u16` at `off`.
#[verifier::opaque]
pub open spec fn read_u16(b: Seq<u8>, off: int) -> int {
    b[off] + b[off + 1] * 0x100
}

/// The little-endian `u32` at `off`.
#[verifier::opaque]
pub open spec fn read_u32(b: Seq<u8>, off: int) -> int {
    b[off] + b[off + 1] * 0x100 + b[off + 2] * 0x1_0000 + b[off + 3] * 0x100_0000
}

/// The little-endian `u64` at `off`.
#[verifier::opaque]
pub open spec fn read_u64(b: Seq<u8>, off: int) -> int {
    read_u32(b, off) + read_u32(b, off + 4) * 0x1_0000_0000
}

/// The length-prefixed field at `off` and the offset after it.
#[verifier::opaque]
pub open spec fn read_field(b: Seq<u8>, off: int) -> Option<(Seq<u8>, int)> {
    if 0 <= off && off + 4 <= b.len() && off + 4 + read_u32(b, off) <= b.len() {
        let end = off + 4 + read_u32(b, off);
        Some((b.subrange(off + 4, end), end))
    } else {
        None
    }
}

/// Reads a cache file: a version-1 header with the multi-certificate flag,
/// then four fields and nothing after them. Gives the expiration time and the
/// four fields.
pub open spec fn read_cache_blob(b: Seq<u8>) -> Option<(int, Seq<u8>, Seq<u8>, Seq<u8>, Seq<u8>)> {
    if b.len() >= 14 && read_u16(b, 0) == 1 && read_u32(b, 2) == 4 {
        match read_field(b, 14) {
            Some((f1, o1)) => match read_field(b, o1) {
                Some((f2, o2)) => match read_field(b, o2) {
                    Some((f3, o3)) => match read_field(b, o3) {
                        Some((f4, o4)) => if o4 == b.len() {
                            Some((read_u64(b, 6), f1, f2, f3, f4))
                        } else {
                            None
                        },
                        None => None,
                    },
                    None => None,
                },
                None => None,
            },
            None => None,
        }
    } else {
        None
    }
}

proof fn lemma_le_u16(x: u16)
    ensures
        read_u16(le_u16(x), 0) == x,
{
    reveal(read_u16);
    assert(x % 0x100 + (x / 0x100 % 0x100) * 0x100 == x) by (bit_vector);
}

proof fn lemma_le_u32(x: u32)
    ensures
        read_u32(le_u32(x), 0) == x,
{
    reveal(read_u32);
    assert(x % 0x100 + (x / 0x100 % 0x100) * 0x100 + (x / 0x1_0000 % 0x100) * 0x1_0000 + (x
        / 0x100_0000 % 0x100) * 0x100_0000 == x) by (bit_vector);
}

proof fn lemma_le_u64(x: u64)
    ensures
        read_u64(le_u64(x), 0) == x,
{
    reveal(read_u32);
    reveal(read_u64);
    assert(x % 0x100 + (x / 0x100 % 0x100) * 0x100 + (x / 0x1_0000 % 0x100) * 0x1_0000 + (x
        / 0x100_0000 % 0x100) * 0x100_0000 + ((x / 0x1_0000_0000 % 0x100) + (x / 0x100_0000_0000
        % 0x100) * 0x100 + (x / 0x1_0000_0000_0000 % 0x100) * 0x1_0000 + (x
        / 0x100_0000_0000_0000 % 0x100) * 0x100_0000) * 0x1_0000_0000 == x) by (bit_vector);
}

proof fn lemma_read_field(pre: Seq<u8>, data: Seq<u8>, rest: Seq<u8>)
    requires
        field_fits(data),
    ensures
        read_field(pre + cache_field(data) + rest, pre.len() as int) == Some(
            (data, (pre.len() + 4 + data.len()) as int),
        ),
{
    reveal(read_field);
    reveal(read_u32);
    let b = pre + cache_field(data) + rest;
    let off = pre.len() as int;
    lemma_le_u32(data.len() as u32);
    let l = le_u32(data.len() as u32);
    assert(b[off] == l[0] && b[off + 1] == l[1] && b[off + 2] == l[2] && b[off + 3] == l[3]);
    assert(read_u32(b, off) == data.len());
    assert(b.subrange(off + 4, off + 4 + data.len()) =~= data);
}

proof fn lemma_read_header(expiration: u64, rest: Seq<u8>)
    ensures
        ({
            let b = cache_header(expiration) + rest;
            &&& b.len() >= 14
            &&& read_u16(b, 0) == 1
            &&& read_u32(b, 2) == 4
            &&& read_u64(b, 6) == expiration
        }),
{
    reveal(read_u16);
    reveal(read_u32);
    reveal(read_u64);
    let b = cache_header(expiration) + rest;
    lemma_le_u16(CACHE_VERSION);
    lemma_le_u32(SGX_QPL_CACHE_MULTICERTS as u32);
    lemma_le_u64(expiration);
    let l16 = le_u16(CACHE_VERSION);
    let l32 = le_u32(SGX_QPL_CACHE_MULTICERTS as u32);
    let l64 = le_u64(expiration);
    assert(b[0] == l16[0] && b[1] == l16[1]);
    assert(b[2] == l32[0] && b[3] == l32[1] && b[4] == l32[2] && b[5] == l32[3]);
    assert(b[6] == l64[0] && b[7] == l64[1] && b[8] == l64[2] && b[9] == l64[3]);
    assert(b[10] == l64[4] && b[11] == l64[5] && b[12] == l64[6] && b[13] == l64[7]);
}

/// Law: a cache file reads back as the expiration time and the four fields it
/// was written with, in order, with nothing after them.
#[verifier::rlimit(40)]
pub proof fn lemma_cache_blob_roundtrip(
    expiration: u64,
    cpu_svn: Seq<u8>,
    tcb_info: Seq<u8>,
    cert_chain: Seq<u8>,
    pck_certs: Seq<u8>,
)
    requires
        field_fits(cpu_svn),
        field_fits(tcb_info),
        field_fits(cert_chain),
        field_fits(pck_certs),
    ensures
        read_cache_blob(cache_blob(expiration, cpu_svn, tcb_info, cert_chain, pck_certs)) == Some(
            (expiration as int, cpu_svn, tcb_info, cert_chain, pck_certs),
        ),
{
    let h = cache_header(expiration);
    let f1 = cache_field(cpu_svn);
    let f2 = cache_field(tcb_info);
    let f3 = cache_field(cert_chain);
    let f4 = cache_field(pck_certs);
    let b = cache_blob(expiration, cpu_svn, tcb_info, cert_chain, pck_certs);
    lemma_blob_shape(h, f1, f2, f3, f4);
    lemma_read_header(expiration, f1 + f2 + f3 + f4);
    lemma_read_field(h, cpu_svn, f2 + f3 + f4);
    lemma_read_field(h + f1, tcb_info, f3 + f4);
    lemma_read_field(h + f1 + f2, cert_chain, f4);
    lemma_read_field(h + f1 + f2 + f3, pck_certs, Seq::<u8>::empty());
}

proof fn lemma_blob_shape(h: Seq<u8>, f1: Seq<u8>, f2: Seq<u8>, f3: Seq<u8>, f4: Seq<u8>)
    ensures
        h + f1 + f2 + f3 + f4 == h + (f1 + f2 + f3 + f4),
        h + f1 + f2 + f3 + f4 == h + f1 + (f2 + f3 + f4),
        h + f1 + f2 + f3 + f4 == (h + f1) + f2 + (f3 + f4),
        h + f1 + f2 + f3 + f4 == (h + f1 + f2) + f3 + f4,
        h + f1 + f2 + f3 + f4 == (h + f1 + f2 + f3) + f4 + Seq::<u8>::empty(),
{
    assert(h + f1 + f2 + f3 + f4 =~= h + (f1 + f2 + f3 + f4));
    assert(h + f1 + f2 + f3 + f4 =~= h + f1 + (f2 + f3 + f4));
    assert(h + f1 + f2 + f3 + f4 =~= (h + f1) + f2 + (f3 + f4));
    assert(h + f1 + f2 + f3 + f4 =~= (h + f1 + f2 + f3) + f4 + Seq::<u8>::empty());
}

} // verus!
