use vstd::prelude::*;
use vstd::string::StringSliceAdditionalSpecFns;
use vstd::utf8::{valid_utf8, decode_utf8, encode_utf8};
use crate::pck::cache::append_bytes;
use crate::pck::secret::opt_str_view;
use crate::text::{
    all_hex, all_hex_digits, encode_hex_lower, hex_lower, is_whitespace, trim, trim_start, trimmed,
    utf8_to_string,
};

verus! {

/// Length, in hex characters, of a QE ID (a 16-byte key).
pub const ID_HEX_LEN: usize = 32;

/// Reserved all-zero QE ID, used as the cache file name when the ID is not
/// known to be a real QE ID (e.g. a node name in External mode).
pub const ZERO_ID: &'static str = "00000000000000000000000000000000";

/// Which platform field a problem concerns.
#[derive(Debug, Clone, Copy, PartialEq, Eq, Structural)]
pub enum PlatformField {
    CpuSvn,
    PceId,
    PceSvn,
    QeId,
}

/// Errors of reading platform data and IDs.
#[derive(Debug)]
pub enum PlatformError {
    /// A fixed-size hex field has the wrong length.
    InvalidLength { field: String, got: usize, expected: usize },
    /// A fixed-size hex field holds a character that is not a hex digit.
    InvalidContent { field: String, value: String },
    /// The platform info output names no such field (or not as a string).
    MissingField(PlatformField),
    /// The platform info output is empty.
    EmptyOutput,
    /// The platform info output is not JSON.
    InvalidJson,
    /// A field's bytes are not valid UTF-8.
    InvalidUtf8(PlatformField),
    /// The ID file does not hold a 32-character hex string.
    InvalidIdContent(String),
    /// Neither an ID file nor a literal ID was given.
    MissingIdSource,
    /// The literal ID is empty.
    EmptyId,
    /// The EFI variable is shorter than its 8-byte header.
    EfiTooShort,
    /// The EFI variable's header declares another size than it holds.
    ManifestSizeMismatch { declared: usize, actual: usize },
}

/// Copies `value` into a fixed-size array when it is an `N`-byte string of
/// ASCII hex digits.
pub fn copy_fixed_hex_field<const N: usize>(value: &str, field: &str) -> (r: Result<
    [u8; N],
    PlatformError,
>)
    ensures
        value.spec_bytes().len() != N ==> (r matches Err(PlatformError::InvalidLength { field: f, got, expected })
            && f@ == field@ && got == value.spec_bytes().len() && expected == N),
        value.spec_bytes().len() == N && !all_hex(value.spec_bytes()) ==> (r matches Err(
            PlatformError::InvalidContent { field: f, value: v },
        ) && f@ == field@ && v@ == value@),
        value.spec_bytes().len() == N && all_hex(value.spec_bytes()) ==> (r matches Ok(out)
            && out@ == value.spec_bytes()),
{
    let bytes = value.as_bytes();
    if bytes.len() != N {
        return Err(
            PlatformError::InvalidLength {
                field: String::from_str(field),
                got: bytes.len(),
                expected: N,
            },
        );
    }
    if !all_hex_digits(bytes) {
        return Err(
            PlatformError::InvalidContent {
                field: String::from_str(field),
                value: String::from_str(value),
            },
        );
    }
    let mut out = [0u8; N];
    let mut i: usize = 0;
    while i < N
        invariant
            bytes@.len() == N,
            out@.len() == N,
            i <= N,
            forall|k: int| 0 <= k < i ==> #[trigger] out@[k] == bytes@[k],
        decreases N - i,
    {
        out[i] = bytes[i];
        i = i + 1;
    }
    assert(out@ =~= bytes@);
    Ok(out)
}

/// Platform info fields: (cpu_svn, pce_id, pce_svn, qe_id), each as its ASCII hex bytes.
pub type PlatformInfo = ([u8; 32], [u8; 4], [u8; 4], [u8; 32]);

/// The platform info binary's output with surrounding whitespace removed;
/// empty output is an error.
pub fn platform_info_output(stdout: &str) -> (r: Result<String, PlatformError>)
    ensures
        trimmed(stdout@).len() == 0 ==> r matches Err(PlatformError::EmptyOutput),
        trimmed(stdout@).len() > 0 ==> (r matches Ok(s) && s@ == trimmed(stdout@)),
{
    let t = trim(stdout);
    if t.unicode_len() == 0 {
        return Err(PlatformError::EmptyOutput);
    }
    Ok(t)
}

/// Whether `value` is a valid `N`-byte hex field.
pub open spec fn hex_field_ok(value: Seq<u8>, n: nat) -> bool {
    value.len() == n && all_hex(value)
}

/// Whether `r` is the platform info from the string fields of the binary's
/// JSON output: each field must be present (checked in the order cpu_svn,
/// pce_id, pce_svn, qe_id), then each must be a hex string of its fixed length
/// (32, 4, 4, 32 bytes, checked in the same order).
pub open spec fn is_platform_info_for(
    cpu_svn: Option<Seq<char>>,
    pce_id: Option<Seq<char>>,
    pce_svn: Option<Seq<char>>,
    qe_id: Option<Seq<char>>,
    r: Result<PlatformInfo, PlatformError>,
) -> bool {
    &&& cpu_svn is None ==> (r matches Err(PlatformError::MissingField(PlatformField::CpuSvn)))
    &&& cpu_svn is Some && pce_id is None ==> (r matches Err(
        PlatformError::MissingField(PlatformField::PceId),
    ))
    &&& cpu_svn is Some && pce_id is Some && pce_svn is None ==> (r matches Err(
        PlatformError::MissingField(PlatformField::PceSvn),
    ))
    &&& cpu_svn is Some && pce_id is Some && pce_svn is Some && qe_id is None ==> (r matches Err(
        PlatformError::MissingField(PlatformField::QeId),
    ))
    &&& r is Ok <==> (cpu_svn is Some && pce_id is Some && pce_svn is Some && qe_id is Some
        && hex_field_ok(encode_utf8(cpu_svn->0), 32) && hex_field_ok(encode_utf8(pce_id->0), 4)
        && hex_field_ok(encode_utf8(pce_svn->0), 4) && hex_field_ok(encode_utf8(qe_id->0), 32))
    &&& r matches Ok(info) ==> (info.0@ == encode_utf8(cpu_svn->0) && info.1@ == encode_utf8(
        pce_id->0,
    ) && info.2@ == encode_utf8(pce_svn->0) && info.3@ == encode_utf8(qe_id->0))
}

/// The views of an optional string.
pub open spec fn opt_str(o: Option<&str>) -> Option<Seq<char>> {
    match o {
        Some(s) => Some(s@),
        None => None,
    }
}

/// The platform info from the string fields of the binary's JSON output
/// (see `is_platform_info_for`).
pub fn platform_info_from_fields(
    cpu_svn: Option<&str>,
    pce_id: Option<&str>,
    pce_svn: Option<&str>,
    qe_id: Option<&str>,
) -> (r: Result<PlatformInfo, PlatformError>)
    ensures
        is_platform_info_for(opt_str(cpu_svn), opt_str(pce_id), opt_str(pce_svn), opt_str(qe_id), r),
{
    let cpu_svn = match cpu_svn {
        Some(v) => v,
        None => return Err(PlatformError::MissingField(PlatformField::CpuSvn)),
    };
    let pce_id = match pce_id {
        Some(v) => v,
        None => return Err(PlatformError::MissingField(PlatformField::PceId)),
    };
    let pce_svn = match pce_svn {
        Some(v) => v,
        None => return Err(PlatformError::MissingField(PlatformField::PceSvn)),
    };
    let qe_id = match qe_id {
        Some(v) => v,
        None => return Err(PlatformError::MissingField(PlatformField::QeId)),
    };
    let cpu_svn = copy_fixed_hex_field::<32>(cpu_svn, "cpu_svn")?;
    let pce_id = copy_fixed_hex_field::<4>(pce_id, "pce_id")?;
    let pce_svn = copy_fixed_hex_field::<4>(pce_svn, "pce_svn")?;
    let qe_id = copy_fixed_hex_field::<32>(qe_id, "qe_id")?;
    Ok((cpu_svn, pce_id, pce_svn, qe_id))
}

/// What parsing `text` as JSON with `serde_json` and reading its field `key`
/// as a string gives: `None` where the text is not JSON, `Some(None)` where
/// the field is absent or does not hold a string.
pub uninterp spec fn json_str_field_of(text: Seq<char>, key: Seq<char>) -> Option<Option<Seq<char>>>;

/// Parses `text` as a `serde_json::Value` and reads its field `key` as a
/// string (see `json_str_field_of`).
#[verifier::external_body]
fn json_str_field(text: &str, key: &str) -> (r: Option<Option<String>>)
    ensures
        match json_str_field_of(text@, key@) {
            None => r is None,
            Some(None) => r == Some(None::<String>),
            Some(Some(v)) => r matches Some(Some(s)) && s@ == v,
        },
{
    match serde_json::from_str::<serde_json::Value>(text) {
        Ok(v) => match v.get(key) {
            Some(serde_json::Value::String(s)) => Some(Some(s.clone())),
            _ => Some(None),
        },
        Err(_) => None,
    }
}

/// The four platform info fields read from JSON text, or `None` where the
/// text is not JSON.
pub open spec fn platform_json_fields(text: Seq<char>) -> Option<
    (Option<Seq<char>>, Option<Seq<char>>, Option<Seq<char>>, Option<Seq<char>>),
> {
    let c = json_str_field_of(text, "cpu_svn"@);
    let p = json_str_field_of(text, "pce_id"@);
    let s = json_str_field_of(text, "pce_svn"@);
    let q = json_str_field_of(text, "qe_id"@);
    if c is None || p is None || s is None || q is None {
        None
    } else {
        Some((c->0, p->0, s->0, q->0))
    }
}

fn read_field(text: &str, key: &str) -> (r: Result<Option<String>, PlatformError>)
    ensures
        match json_str_field_of(text@, key@) {
            None => r matches Err(PlatformError::InvalidJson),
            Some(v) => r matches Ok(f) && opt_str_view(f) == v,
        },
{
    match json_str_field(text, key) {
        Some(f) => Ok(f),
        None => Err(PlatformError::InvalidJson),
    }
}

fn as_opt_str(o: &Option<String>) -> (r: Option<&str>)
    ensures
        opt_str(r) == opt_str_view(*o),
{
    match o {
        Some(s) => Some(s.as_str()),
        None => None,
    }
}

/// The platform info printed by the platform info binary: its output,
/// trimmed, must be non-empty JSON whose string fields `cpu_svn`, `pce_id`,
/// `pce_svn` and `qe_id` are the platform's fixed-size hex fields.
pub fn platform_info_from_output(stdout: &str) -> (r: Result<PlatformInfo, PlatformError>)
    ensures
        trimmed(stdout@).len() == 0 ==> r matches Err(PlatformError::EmptyOutput),
        trimmed(stdout@).len() > 0 ==> match platform_json_fields(trimmed(stdout@)) {
            None => r matches Err(PlatformError::InvalidJson),
            Some((c, p, s, q)) => is_platform_info_for(c, p, s, q, r),
        },
{
    let json = platform_info_output(stdout)?;
    let cpu_svn = read_field(json.as_str(), "cpu_svn")?;
    let pce_id = read_field(json.as_str(), "pce_id")?;
    let pce_svn = read_field(json.as_str(), "pce_svn")?;
    let qe_id = read_field(json.as_str(), "qe_id")?;
    platform_info_from_fields(
        as_opt_str(&cpu_svn),
        as_opt_str(&pce_id),
        as_opt_str(&pce_svn),
        as_opt_str(&qe_id),
    )
}

/// Whether `id` is a well-formed QE ID: `ID_HEX_LEN` ASCII hex digits.
pub open spec fn valid_id(id: Seq<char>) -> bool {
    id.len() == ID_HEX_LEN && forall|i: int| 0 <= i < id.len() ==> is_hex_char(#[trigger] id[i])
}

/// Whether a character is an ASCII hex digit.
pub open spec fn is_hex_char(c: char) -> bool {
    ('0' <= c <= '9') || ('a' <= c <= 'f') || ('A' <= c <= 'F')
}

/// Law: a QE ID written to an ID file reads back unchanged: it has no
/// surrounding whitespace to trim.
pub proof fn lemma_id_file_roundtrip(id: Seq<char>)
    requires
        valid_id(id),
    ensures
        trimmed(id) == id,
{
    assert(is_hex_char(id[0]));
    assert(!is_whitespace(id[0]));
    assert(trim_start(id) == id);
    assert(is_hex_char(id[id.len() - 1]));
    assert(!is_whitespace(id.last()));
}

/// The ID held by an ID file (as `get-platforms --id-file` writes it):
/// its contents without surrounding whitespace, which must be a QE ID.
pub fn id_from_file_contents(contents: &str) -> (r: Result<String, PlatformError>)
    ensures
        valid_id(trimmed(contents@)) ==> (r matches Ok(id) && id@ == trimmed(contents@)),
        !valid_id(trimmed(contents@)) ==> (r matches Err(PlatformError::InvalidIdContent(v)) && v@
            == trimmed(contents@)),
{
    let id = trim(contents);
    let n = id.as_str().unicode_len();
    assert(n == id@.len());
    if n != ID_HEX_LEN {
        return Err(PlatformError::InvalidIdContent(id));
    }
    let mut i: usize = 0;
    while i < n
        invariant
            n == id@.len(),
            n == ID_HEX_LEN,
            id@ == trimmed(contents@),
            i <= n,
            forall|k: int| 0 <= k < i ==> is_hex_char(#[trigger] id@[k]),
        decreases n - i,
    {
        let c = id.as_str().get_char(i);
        if !(('0' <= c && c <= '9') || ('a' <= c && c <= 'f') || ('A' <= c && c <= 'F')) {
            return Err(PlatformError::InvalidIdContent(id));
        }
        i = i + 1;
    }
    Ok(id)
}

/// Resolves the `(id, cache_id)` pair for `get-certificates` from its two
/// ID sources. `id` names the `<id>-pck` secret to watch; `cache_id` names the
/// on-disk cache file. An ID read from a file (its contents given here) is the
/// node's real QE ID, so both are that ID. A literal ID (e.g. a node name) is
/// not known to be a QE ID, so the cache file uses the reserved all-zero ID.
pub fn resolve_id(id_file_contents: Option<&str>, literal_id: Option<&str>) -> (r: Result<
    (String, String),
    PlatformError,
>)
    ensures
        id_file_contents matches Some(c) ==> (if valid_id(trimmed(c@)) {
            r matches Ok((id, cache_id)) && id@ == trimmed(c@) && cache_id@ == trimmed(c@)
        } else {
            r matches Err(PlatformError::InvalidIdContent(v)) && v@ == trimmed(c@)
        }),
        id_file_contents is None && literal_id is None ==> r matches Err(
            PlatformError::MissingIdSource,
        ),
        (id_file_contents is None && literal_id is Some) ==> (if trimmed(literal_id->0@).len() == 0 {
            r matches Err(PlatformError::EmptyId)
        } else {
            r matches Ok((id, cache_id)) && id@ == trimmed(literal_id->0@) && cache_id@ == ZERO_ID@
        }),
{
    match id_file_contents {
        Some(contents) => {
            let id = id_from_file_contents(contents)?;
            let cache_id = id.clone();
            Ok((id, cache_id))
        },
        None => {
            let literal = match literal_id {
                Some(l) => l,
                None => return Err(PlatformError::MissingIdSource),
            };
            let id = trim(literal);
            if id.unicode_len() == 0 {
                return Err(PlatformError::EmptyId);
            }
            Ok((id, String::from_str(ZERO_ID)))
        },
    }
}

/// The platform manifest held by the SGX registration EFI variable: the file
/// is EFI attributes (4 bytes), a version (2 bytes), the structure size
/// (2 bytes, little-endian), then the structure, which is returned hex-encoded.
pub fn manifest_from_efi_variable(data: &[u8]) -> (r: Result<String, PlatformError>)
    ensures
        data@.len() < 8 ==> r matches Err(PlatformError::EfiTooShort),
        data@.len() >= 8 && data@.len() - 8 != data@[6] + data@[7] * 256 ==> (r matches Err(
            PlatformError::ManifestSizeMismatch { declared, actual },
        ) && declared == data@[6] + data@[7] * 256 && actual == data@.len() - 8),
        data@.len() >= 8 && data@.len() - 8 == data@[6] + data@[7] * 256 ==> (r matches Ok(m) && m@
            == hex_lower(data@.subrange(8, data@.len() as int))),
{
    if data.len() < 8 {
        return Err(PlatformError::EfiTooShort);
    }
    let declared = data[6] as usize + data[7] as usize * 256;
    let actual = data.len() - 8;
    if actual != declared {
        return Err(PlatformError::ManifestSizeMismatch { declared, actual });
    }
    let mut body: Vec<u8> = Vec::new();
    let mut i: usize = 8;
    while i < data.len()
        invariant
            8 <= i <= data@.len(),
            body@ == data@.subrange(8, i as int),
        decreases data@.len() - i,
    {
        body.push(data[i]);
        assert(body@ =~= data@.subrange(8, i + 1));
        i = i + 1;
    }
    Ok(encode_hex_lower(body.as_slice()))
}

fn bytes_of(b: &[u8]) -> (r: Vec<u8>)
    ensures
        r@ == b@,
{
    let mut v: Vec<u8> = Vec::new();
    append_bytes(&mut v, b);
    v
}

/// The string data of a platform-data secret.
#[derive(Debug, Clone)]
pub struct PlatformSecret {
    /// Secret name: the QE ID.
    pub name: String,
    pub namespace: String,
    /// Labels: `type=platform-data`.
    pub labels: Vec<(String, String)>,
    /// `stringData` entries.
    pub string_data: Vec<(String, String)>,
}

/// The platform-data secret for a platform: named by its QE ID, labeled
/// `type=platform-data`, holding `enc_ppid` (empty), `pce_id`, `cpu_svn`,
/// `pce_svn`, `qe_id` and, when the manifest was read, `platform_manifest`.
/// Fails when a field's bytes are not UTF-8 (checked for qe_id, pce_id,
/// cpu_svn, pce_svn in that order).
pub fn platform_secret(info: &PlatformInfo, namespace: &str, manifest: Option<String>) -> (r: Result<
    PlatformSecret,
    PlatformError,
>)
    ensures
        !valid_utf8(info.3@) ==> r matches Err(PlatformError::InvalidUtf8(PlatformField::QeId)),
        valid_utf8(info.3@) && !valid_utf8(info.1@) ==> r matches Err(PlatformError::InvalidUtf8(PlatformField::PceId)),
        valid_utf8(info.3@) && valid_utf8(info.1@) && !valid_utf8(info.0@) ==> r matches Err(
            PlatformError::InvalidUtf8(PlatformField::CpuSvn),
        ),
        valid_utf8(info.3@) && valid_utf8(info.1@) && valid_utf8(info.0@) && !valid_utf8(info.2@)
            ==> r matches Err(PlatformError::InvalidUtf8(PlatformField::PceSvn)),
        r is Ok <==> (valid_utf8(info.3@) && valid_utf8(info.1@) && valid_utf8(info.0@)
            && valid_utf8(info.2@)),
        r matches Ok(s) ==> {
            &&& s.name@ == decode_utf8(info.3@)
            &&& s.namespace@ == namespace@
            &&& s.labels@.len() == 1 && s.labels@[0].0@ == "type"@ && s.labels@[0].1@ == "platform-data"@
            &&& s.string_data@.len() == (if manifest is Some { 6int } else { 5int })
            &&& s.string_data@[0].0@ == "enc_ppid"@ && s.string_data@[0].1@.len() == 0
            &&& s.string_data@[1].0@ == "pce_id"@ && s.string_data@[1].1@ == decode_utf8(info.1@)
            &&& s.string_data@[2].0@ == "cpu_svn"@ && s.string_data@[2].1@ == decode_utf8(info.0@)
            &&& s.string_data@[3].0@ == "pce_svn"@ && s.string_data@[3].1@ == decode_utf8(info.2@)
            &&& s.string_data@[4].0@ == "qe_id"@ && s.string_data@[4].1@ == decode_utf8(info.3@)
            &&& manifest matches Some(m) ==> s.string_data@[5].0@ == "platform_manifest"@
                && s.string_data@[5].1@ == m@
        },
{
    let qe_id = match utf8_to_string(bytes_of(info.3.as_slice())) {
        Some(s) => s,
        None => return Err(PlatformError::InvalidUtf8(PlatformField::QeId)),
    };
    let pce_id = match utf8_to_string(bytes_of(info.1.as_slice())) {
        Some(s) => s,
        None => return Err(PlatformError::InvalidUtf8(PlatformField::PceId)),
    };
    let cpu_svn = match utf8_to_string(bytes_of(info.0.as_slice())) {
        Some(s) => s,
        None => return Err(PlatformError::InvalidUtf8(PlatformField::CpuSvn)),
    };
    let pce_svn = match utf8_to_string(bytes_of(info.2.as_slice())) {
        Some(s) => s,
        None => return Err(PlatformError::InvalidUtf8(PlatformField::PceSvn)),
    };
    let mut labels: Vec<(String, String)> = Vec::new();
    labels.push((String::from_str("type"), String::from_str("platform-data")));
    let mut data: Vec<(String, String)> = Vec::new();
    data.push((String::from_str("enc_ppid"), String::new()));
    data.push((String::from_str("pce_id"), pce_id));
    data.push((String::from_str("cpu_svn"), cpu_svn));
    data.push((String::from_str("pce_svn"), pce_svn));
    data.push((String::from_str("qe_id"), qe_id.clone()));
    match manifest {
        Some(m) => data.push((String::from_str("platform_manifest"), m)),
        None => {},
    }
    Ok(PlatformSecret { name: qe_id, namespace: String::from_str(namespace), labels, string_data: data })
}

/// Name of the file the certificate cache is written to: `<cache_id>_0000`.
pub fn cache_file_name(cache_id: &str) -> (r: String)
    ensures
        r@ == cache_id@ + "_0000"@,
{
    String::from_str(cache_id).concat("_0000")
}

/// Name of the PCK certificate secret of a platform: `<id>-pck`.
pub fn pck_secret_name(id: &str) -> (r: String)
    ensures
        r@ == id@ + "-pck"@,
{
    String::from_str(id).concat("-pck")
}

} // verus!
