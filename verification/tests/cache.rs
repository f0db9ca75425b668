use std::time::{SystemTime, UNIX_EPOCH};
use tdx_qgs::pck::cache::{
    build_cache_blob, encode_cache_blob, expiration_from, get_expiration_time, CACHE_VERSION,
    EXPIRE_HOURS, SGX_QPL_CACHE_MULTICERTS,
};

fn read_u16_le(data: &[u8], offset: &mut usize) -> u16 {
    let value = u16::from_le_bytes(data[*offset..*offset + 2].try_into().unwrap());
    *offset += 2;
    value
}

fn read_u32_le(data: &[u8], offset: &mut usize) -> u32 {
    let value = u32::from_le_bytes(data[*offset..*offset + 4].try_into().unwrap());
    *offset += 4;
    value
}

fn read_u64_le(data: &[u8], offset: &mut usize) -> u64 {
    let value = u64::from_le_bytes(data[*offset..*offset + 8].try_into().unwrap());
    *offset += 8;
    value
}

fn read_len_prefixed_str<'a>(data: &'a [u8], offset: &mut usize) -> &'a str {
    let len = read_u32_le(data, offset) as usize;
    let value = std::str::from_utf8(&data[*offset..*offset + len]).unwrap();
    *offset += len;
    value
}

#[test]
fn build_cache_blob_encodes_expected_header_and_fields() {
    let cpu_svn = "0102030405060708090a0b0c0d0e0f10";
    let tcb_info = "{\"id\":\"TDX\",\"version\":3}";
    let cert_chain = "-----BEGIN%20CERTIFICATE-----";
    let pck_json = "[{\"tcbm\":\"abc\"}]";

    let before_now = SystemTime::now().duration_since(UNIX_EPOCH).unwrap().as_secs();

    let (blob, expiration_time) = build_cache_blob(cpu_svn, tcb_info, cert_chain, pck_json).unwrap();

    let expected_expiration_min = before_now + (EXPIRE_HOURS * 60 * 60);
    assert!(
        expiration_time >= expected_expiration_min,
        "expiration time should be at least one year from call start"
    );

    let mut offset = 0usize;
    assert_eq!(read_u16_le(&blob, &mut offset), 1);
    assert_eq!(read_u32_le(&blob, &mut offset), SGX_QPL_CACHE_MULTICERTS as u32);
    assert_eq!(read_u64_le(&blob, &mut offset), expiration_time);

    assert_eq!(read_len_prefixed_str(&blob, &mut offset), cpu_svn);
    assert_eq!(read_len_prefixed_str(&blob, &mut offset), tcb_info);
    assert_eq!(read_len_prefixed_str(&blob, &mut offset), cert_chain);
    assert_eq!(read_len_prefixed_str(&blob, &mut offset), pck_json);
    assert_eq!(offset, blob.len(), "blob should not contain trailing bytes");
}

#[test]
fn encode_cache_blob_exact_bytes() {
    let blob = encode_cache_blob("ab", "", "c", "de", 0x0102030405060708).unwrap();
    let expected: Vec<u8> = vec![
        0x01, 0x00, // version
        0x04, 0x00, 0x00, 0x00, // flags
        0x08, 0x07, 0x06, 0x05, 0x04, 0x03, 0x02, 0x01, // expiration
        0x02, 0x00, 0x00, 0x00, b'a', b'b', // cpu_svn
        0x00, 0x00, 0x00, 0x00, // tcb_info (empty)
        0x01, 0x00, 0x00, 0x00, b'c', // cert chain
        0x02, 0x00, 0x00, 0x00, b'd', b'e', // pck certs
    ];
    assert_eq!(blob, expected);
    assert_eq!(CACHE_VERSION, 1);
    assert_eq!(SGX_QPL_CACHE_MULTICERTS, 1 << 2);
}

#[test]
fn encode_cache_blob_roundtrips_its_fields() {
    let fields = ["\u{e9}t\u{e9}", "{\"tcbInfo\":{}}", "%2D%2D", "[]"];
    let blob = encode_cache_blob(fields[0], fields[1], fields[2], fields[3], 42).unwrap();
    let mut offset = 0usize;
    assert_eq!(read_u16_le(&blob, &mut offset), CACHE_VERSION);
    assert_eq!(read_u32_le(&blob, &mut offset), 4);
    assert_eq!(read_u64_le(&blob, &mut offset), 42);
    for f in fields {
        assert_eq!(read_len_prefixed_str(&blob, &mut offset), f);
    }
    assert_eq!(offset, blob.len());
}

#[test]
fn expiration_is_one_year_later() {
    assert_eq!(EXPIRE_HOURS, 8760);
    assert_eq!(expiration_from(0), Some(31_536_000));
    assert_eq!(expiration_from(1_700_000_000), Some(1_731_536_000));
    assert_eq!(expiration_from(u64::MAX - 31_536_000), Some(u64::MAX));
    assert_eq!(expiration_from(u64::MAX - 31_535_999), None);
}

#[test]
fn expiration_time_follows_clock() {
    let before = SystemTime::now().duration_since(UNIX_EPOCH).unwrap().as_secs();
    let t = get_expiration_time().unwrap();
    let after = SystemTime::now().duration_since(UNIX_EPOCH).unwrap().as_secs();
    assert!(t >= before + 31_536_000 && t <= after + 31_536_000);
}
