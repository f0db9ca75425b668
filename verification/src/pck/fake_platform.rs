//! Platform info for test clusters without SGX hardware: a stable QE ID per
//! node, derived from the node name, and fixed values for the other fields.
use vstd::prelude::*;
use vstd::utf8::encode_utf8;
use crate::pck::platform::{is_hex_char, valid_id};
use crate::text::{encode_hex_lower, hex_lower, hex_lower_char};

verus! {

/// What `sha2::Sha256::digest` gives for bytes.
pub uninterp spec fn sha256_of(data: Seq<u8>) -> Seq<u8>;

/// SHA-256 of `data` with the `sha2` crate: the named digest, 32 bytes long.
#[verifier::external_body]
fn sha256(data: &[u8]) -> (r: Vec<u8>)
    ensures
        r@ == sha256_of(data@),
        r@.len() == 32,
{
    <sha2::Sha256 as sha2::Digest>::digest(data).to_vec()
}

/// The QE ID of a node: the first 16 bytes of the SHA-256 of its name, as
/// 32 lower-case hex characters.
pub open spec fn fake_qe_id_spec(node_name: Seq<char>) -> Seq<char> {
    hex_lower(sha256_of(encode_utf8(node_name)).subrange(0, 16))
}

/// `n` copies of "ab".
pub open spec fn ab_repeated(n: nat) -> Seq<char>
    decreases n,
{
    if n == 0 {
        Seq::empty()
    } else {
        ab_repeated((n - 1) as nat) + seq!['a', 'b']
    }
}

/// The line the fake platform info tool prints for a node.
pub open spec fn fake_platform_info_spec(node_name: Seq<char>) -> Seq<char> {
    "{\"cpu_svn\":\"0102030405060708090a0b0c0d0e0f10\",\"enc_ppid\":\""@ + ab_repeated(384)
        + "\",\"pce_id\":\"0000\",\"pce_svn\":\"0b00\",\"qe_id\":\""@ + fake_qe_id_spec(node_name)
        + "\"}"@
}

proof fn lemma_hex_lower_is_id_text(b: Seq<u8>)
    ensures
        hex_lower(b).len() == 2 * b.len(),
        forall|i: int| 0 <= i < hex_lower(b).len() ==> is_hex_char(#[trigger] hex_lower(b)[i]),
    decreases b.len(),
{
    if b.len() > 0 {
        let init = b.drop_last();
        lemma_hex_lower_is_id_text(init);
        let h = hex_lower(b);
        let hi = hex_lower(init);
        let hi_digit = hex_lower_char(b.last() / 16);
        let lo_digit = hex_lower_char(b.last() % 16);
        assert(h == hi.push(hi_digit).push(lo_digit));
        assert(is_hex_char(hi_digit));
        assert(is_hex_char(lo_digit));
        assert forall|i: int| 0 <= i < h.len() implies is_hex_char(#[trigger] h[i]) by {
            if i < hi.len() {
                assert(h[i] == hi[i]);
            }
        }
    }
}

/// The QE ID of a node, derived from its name; it is a well-formed QE ID
/// (32 hex characters), so the certificate tools accept it.
pub fn fake_qe_id(node_name: &str) -> (r: String)
    ensures
        r@ == fake_qe_id_spec(node_name@),
        valid_id(r@),
{
    let digest = sha256(node_name.as_bytes());
    let mut prefix: Vec<u8> = Vec::new();
    let mut i: usize = 0;
    while i < 16
        invariant
            digest@.len() == 32,
            i <= 16,
            prefix@ == digest@.subrange(0, i as int),
        decreases 16 - i,
    {
        prefix.push(digest[i]);
        assert(prefix@ =~= digest@.subrange(0, i + 1));
        i = i + 1;
    }
    proof {
        lemma_hex_lower_is_id_text(prefix@);
    }
    encode_hex_lower(prefix.as_slice())
}

/// The platform info JSON for a node, as the platform info tool prints it.
pub fn fake_platform_info(node_name: &str) -> (r: String)
    ensures
        r@ == fake_platform_info_spec(node_name@),
{
    let mut out = String::new();
    out.append("{\"cpu_svn\":\"0102030405060708090a0b0c0d0e0f10\",\"enc_ppid\":\"");
    let ghost start = out@;
    let mut i: usize = 0;
    while i < 384
        invariant
            i <= 384,
            out@ == start + ab_repeated(i as nat),
        decreases 384 - i,
    {
        out.append("ab");
        proof {
            reveal_strlit("ab");
        }
        assert(out@ =~= start + ab_repeated((i + 1) as nat));
        i = i + 1;
    }
    out.append("\",\"pce_id\":\"0000\",\"pce_svn\":\"0b00\",\"qe_id\":\"");
    let qe_id = fake_qe_id(node_name);
    out.append(qe_id.as_str());
    out.append("\"}");
    assert(out@ =~= fake_platform_info_spec(node_name@));
    out
}

} // verus!
