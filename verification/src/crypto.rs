//! Encrypted storage of the UC cookie: AES-256-GCM under a 32-byte key kept
//! in the data directory, written as `v1:{iv}:{tag}:{ciphertext}` with each
//! part in standard base64.  A payload that is malformed, encrypted under
//! another key or damaged decrypts to the empty string.
use aes_gcm::aead::Aead;
use aes_gcm::KeyInit;
use base64::Engine;
use vstd::prelude::*;
use vstd::string::StringSliceAdditionalSpecFns;
use vstd::utf8::{decode_utf8, encode_utf8, valid_utf8};

use crate::text::{push_all, push_char, to_chars, trim, trim_str};

verus! {

broadcast use vstd::utf8::encode_utf8_valid_utf8, vstd::utf8::encode_utf8_decode_utf8;

/// The name of the key file in the data directory.
pub const SECRET_FILE_NAME: &'static str = ".secret";

/// The longest plaintext that AES-GCM of the `aes-gcm` crate encrypts (2^36 bytes).
pub const P_MAX: u64 = 0x10_0000_0000;

/// The longest ciphertext (without its tag) that AES-GCM of the `aes-gcm`
/// crate decrypts (2^36 + 16 bytes).
pub const C_MAX: u64 = 0x10_0000_0010;

// ---------------------------------------------------------------------------
// Outside functions
// ---------------------------------------------------------------------------

/// What AES-256-GCM of the `aes-gcm` crate returns for a key, a nonce and a
/// plaintext (no associated data): the ciphertext followed by the 16-byte tag.
pub uninterp spec fn aes_gcm_seal(key: Seq<u8>, nonce: Seq<u8>, plain: Seq<u8>) -> Seq<u8>;

/// What `base64::engine::general_purpose::STANDARD.encode` returns.
pub uninterp spec fn base64_encode(data: Seq<u8>) -> Seq<char>;

/// What `base64::engine::general_purpose::STANDARD.decode` returns (`None` for an error).
pub uninterp spec fn base64_decode(text: Seq<char>) -> Option<Seq<u8>>;

/// What `String::from_utf8_lossy` of std returns.
pub uninterp spec fn utf8_lossy(bytes: Seq<u8>) -> Seq<char>;

/// The characters of the standard base64 alphabet and its padding.
pub open spec fn base64_char(c: char) -> bool {
    ('A' <= c && c <= 'Z') || ('a' <= c && c <= 'z') || ('0' <= c && c <= '9') || c == '+' || c
        == '/' || c == '='
}

/// `Aes256Gcm::new_from_slice(key)` and `Aead::encrypt(nonce, plain)` of the
/// `aes-gcm` crate.  Claimed: encryption succeeds up to `P_MAX` bytes and
/// fails beyond (the crate's length check); the output is the named sealing,
/// 16 bytes longer than the plaintext; and no other plaintext seals to the
/// same output (counter mode is a bijection).
#[verifier::external_body]
fn aes_seal(key: &[u8], nonce: &[u8], plain: &[u8]) -> (r: Option<Vec<u8>>)
    requires
        key@.len() == 32,
        nonce@.len() == 12,
    ensures
        r is Some <==> plain@.len() <= P_MAX,
        match r {
            Some(c) => c@ == aes_gcm_seal(key@, nonce@, plain@) && c@.len() == plain@.len() + 16,
            None => true,
        },
        match r {
            Some(c) => forall|q: Seq<u8>| aes_gcm_seal(key@, nonce@, q) == c@ ==> q == plain@,
            None => true,
        },
{
    let cipher = aes_gcm::Aes256Gcm::new_from_slice(key).ok()?;
    cipher.encrypt(aes_gcm::Nonce::from_slice(nonce), plain).ok()
}

/// `Aes256Gcm::new_from_slice(key)` and `Aead::decrypt(nonce, data)` of the
/// `aes-gcm` crate.  Claimed: decryption succeeds exactly on the sealings of
/// plaintexts of at most `C_MAX` bytes under this key and nonce (the crate's
/// length check on the ciphertext), and returns that plaintext (the tag
/// check passes exactly when the data is the sealing of what counter mode
/// decrypts it to).
#[verifier::external_body]
fn aes_open(key: &[u8], nonce: &[u8], data: &[u8]) -> (r: Option<Vec<u8>>)
    requires
        key@.len() == 32,
        nonce@.len() == 12,
    ensures
        match r {
            Some(p) => aes_gcm_seal(key@, nonce@, p@) == data@ && p@.len() <= C_MAX && forall|
                q: Seq<u8>,
            | aes_gcm_seal(key@, nonce@, q) == data@ ==> q == p@,
            None => forall|q: Seq<u8>|
                q.len() <= C_MAX ==> aes_gcm_seal(key@, nonce@, q) != data@,
        },
{
    let cipher = aes_gcm::Aes256Gcm::new_from_slice(key).ok()?;
    cipher.decrypt(aes_gcm::Nonce::from_slice(nonce), data).ok()
}

/// `STANDARD.encode` of the `base64` crate.  Claimed: the output is the named
/// encoding, made of alphabet and padding characters only, and different
/// inputs have different encodings.
#[verifier::external_body]
fn b64_encode(data: &[u8]) -> (r: String)
    ensures
        r@ == base64_encode(data@),
        forall|i: int| 0 <= i < r@.len() ==> base64_char(#[trigger] r@[i]),
        forall|b: Seq<u8>| base64_encode(b) == r@ ==> b == data@,
{
    base64::engine::general_purpose::STANDARD.encode(data)
}

/// `STANDARD.decode` of the `base64` crate.  Claimed: the output is the named
/// decoding, and the encoding of some bytes decodes to those bytes.
#[verifier::external_body]
fn b64_decode(text: &str) -> (r: Option<Vec<u8>>)
    ensures
        match r {
            Some(v) => base64_decode(text@) == Some(v@),
            None => base64_decode(text@) is None,
        },
        match r {
            Some(v) => forall|b: Seq<u8>| base64_encode(b) == text@ ==> v@ == b,
            None => forall|b: Seq<u8>| base64_encode(b) != text@,
        },
{
    base64::engine::general_purpose::STANDARD.decode(text).ok()
}

/// `String::from_utf8_lossy` of std.  Claimed: valid UTF-8 is decoded as it is.
#[verifier::external_body]
fn from_utf8_lossy(bytes: &[u8]) -> (r: String)
    ensures
        r@ == utf8_lossy(bytes@),
        valid_utf8(bytes@) ==> r@ == decode_utf8(bytes@),
{
    String::from_utf8_lossy(bytes).to_string()
}

/// Fresh random bytes from `rand::thread_rng().fill`.
#[verifier::external_body]
fn random_12() -> (r: [u8; 12]) {
    let mut iv = [0u8; 12];
    rand::Rng::fill(&mut rand::thread_rng(), &mut iv);
    iv
}

/// Fresh random bytes from `rand::thread_rng().fill_bytes`.
#[verifier::external_body]
fn random_32() -> (r: [u8; 32]) {
    let mut key = [0u8; 32];
    rand::RngCore::fill_bytes(&mut rand::thread_rng(), &mut key);
    key
}

// ---------------------------------------------------------------------------
// Payload format
// ---------------------------------------------------------------------------

/// `str::split(':')`: the pieces between colons.
pub open spec fn split_colon(s: Seq<char>) -> Seq<Seq<char>>
    decreases s.len(),
{
    if s.len() == 0 {
        seq![Seq::empty()]
    } else {
        let prev = split_colon(s.drop_last());
        if s.last() == ':' {
            prev.push(Seq::empty())
        } else {
            prev.update(prev.len() - 1, prev.last().push(s.last()))
        }
    }
}

pub open spec fn colon_free(s: Seq<char>) -> bool {
    forall|i: int| 0 <= i < s.len() ==> s[i] != ':'
}

/// The payload for a nonce and a sealing (ciphertext followed by the 16-byte tag).
pub open spec fn payload_of(nonce: Seq<u8>, sealed: Seq<u8>) -> Seq<char> {
    "v1:"@ + base64_encode(nonce) + ":"@ + base64_encode(sealed.skip(sealed.len() - 16)) + ":"@
        + base64_encode(sealed.take(sealed.len() - 16))
}

/// `payload` holds `plain` encrypted under `key` with `nonce`, in the stored format.
pub open spec fn sealed_payload(key: Seq<u8>, nonce: Seq<u8>, plain: Seq<char>, payload: Seq<char>) -> bool {
    let sealed = aes_gcm_seal(key, nonce, encode_utf8(plain));
    &&& nonce.len() == 12
    &&& sealed.len() == encode_utf8(plain).len() + 16
    &&& encode_utf8(plain).len() <= P_MAX
    &&& payload == payload_of(nonce, sealed)
    &&& colon_free(base64_encode(nonce))
    &&& colon_free(base64_encode(sealed.skip(sealed.len() - 16)))
    &&& colon_free(base64_encode(sealed.take(sealed.len() - 16)))
}

/// The nonce, tag and ciphertext of a payload: present when the payload is
/// `v1` and three base64 parts, with a 12-byte nonce and a 16-byte tag.
pub open spec fn payload_parts(payload: Seq<char>) -> Option<(Seq<u8>, Seq<u8>, Seq<u8>)> {
    let parts = split_colon(payload);
    if parts.len() != 4 || parts[0] != "v1"@ {
        None
    } else {
        match (base64_decode(parts[1]), base64_decode(parts[2]), base64_decode(parts[3])) {
            (Some(iv), Some(tag), Some(data)) => if iv.len() != 12 || tag.len() != 16 {
                None
            } else {
                Some((iv, tag, data))
            },
            _ => None,
        }
    }
}

/// The plaintext that a ciphertext and tag open to under a key and nonce:
/// empty unless they authenticate.
pub open spec fn open_spec(key: Seq<u8>, iv: Seq<u8>, tag: Seq<u8>, data: Seq<u8>) -> Seq<char> {
    if exists|p: Seq<u8>| p.len() <= C_MAX && aes_gcm_seal(key, iv, p) == data + tag {
        utf8_lossy(choose|p: Seq<u8>| p.len() <= C_MAX && aes_gcm_seal(key, iv, p) == data + tag)
    } else {
        Seq::empty()
    }
}

/// The plaintext of a payload: empty unless the payload has its parts and
/// the ciphertext authenticates under `key`.
pub open spec fn decrypt_spec(key: Seq<u8>, payload: Seq<char>) -> Seq<char> {
    match payload_parts(payload) {
        Some((iv, tag, data)) => open_spec(key, iv, tag, data),
        None => Seq::empty(),
    }
}

proof fn lemma_split_colon_free(s: Seq<char>)
    requires
        colon_free(s),
    ensures
        split_colon(s) == seq![s],
    decreases s.len(),
{
    if s.len() > 0 {
        lemma_split_colon_free(s.drop_last());
        assert(s.drop_last().push(s.last()) =~= s);
        assert(seq![s.drop_last()].update(0, s.drop_last().push(s.last())) =~= seq![s]);
    } else {
        assert(s =~= Seq::<char>::empty());
    }
}

/// Splitting at a colon: the pieces of the left part, then those of the right.
proof fn lemma_split_colon_concat(a: Seq<char>, b: Seq<char>)
    ensures
        split_colon(a + seq![':'] + b) == split_colon(a) + split_colon(b),
    decreases b.len(),
{
    let s = a + seq![':'] + b;
    if b.len() == 0 {
        assert(s.drop_last() =~= a);
        assert(split_colon(b) =~= seq![Seq::<char>::empty()]);
    } else {
        lemma_split_colon_concat(a, b.drop_last());
        assert(s.drop_last() =~= a + seq![':'] + b.drop_last());
        lemma_split_len(b.drop_last());
        lemma_split_len(a);
        let pa = split_colon(a);
        let pb = split_colon(b.drop_last());
        if b.last() == ':' {
            assert((pa + pb).push(Seq::empty()) =~= pa + pb.push(Seq::empty()));
        } else {
            assert((pa + pb).update((pa + pb).len() - 1, (pa + pb).last().push(b.last())) =~= pa
                + pb.update(pb.len() - 1, pb.last().push(b.last())));
        }
    }
}

proof fn lemma_split_len(s: Seq<char>)
    ensures
        split_colon(s).len() >= 1,
    decreases s.len(),
{
    if s.len() > 0 {
        lemma_split_len(s.drop_last());
    }
}

/// The pieces of a stored payload are `v1` and the three encodings.
proof fn lemma_payload_parts(x: Seq<char>, y: Seq<char>, z: Seq<char>)
    requires
        colon_free(x),
        colon_free(y),
        colon_free(z),
    ensures
        split_colon("v1:"@ + x + ":"@ + y + ":"@ + z) == seq!["v1"@, x, y, z],
{
    reveal_strlit("v1:");
    reveal_strlit("v1");
    reveal_strlit(":");
    let v1 = "v1"@;
    assert(colon_free(v1));
    lemma_split_colon_free(v1);
    lemma_split_colon_free(x);
    lemma_split_colon_free(y);
    lemma_split_colon_free(z);
    assert("v1:"@ + x + ":"@ + y + ":"@ + z =~= ((v1 + seq![':'] + x) + seq![':'] + y) + seq![':']
        + z);
    lemma_split_colon_concat(v1, x);
    lemma_split_colon_concat(v1 + seq![':'] + x, y);
    lemma_split_colon_concat((v1 + seq![':'] + x) + seq![':'] + y, z);
    assert(seq![v1] + seq![x] + seq![y] + seq![z] =~= seq![v1, x, y, z]);
}

proof fn lemma_sealed_parts(key: Seq<u8>, nonce: Seq<u8>, plain: Seq<char>, payload: Seq<char>)
    requires
        sealed_payload(key, nonce, plain, payload),
    ensures
        ({
            let sealed = aes_gcm_seal(key, nonce, encode_utf8(plain));
            split_colon(payload) == seq![
                "v1"@,
                base64_encode(nonce),
                base64_encode(sealed.skip(sealed.len() - 16)),
                base64_encode(sealed.take(sealed.len() - 16)),
            ]
        }),
{
    let sealed = aes_gcm_seal(key, nonce, encode_utf8(plain));
    lemma_payload_parts(
        base64_encode(nonce),
        base64_encode(sealed.skip(sealed.len() - 16)),
        base64_encode(sealed.take(sealed.len() - 16)),
    );
}

/// The pieces of `s` between colons, in order.
fn split_on_colon(s: &str) -> (parts: Vec<String>)
    ensures
        parts@.len() == split_colon(s@).len(),
        forall|i: int| 0 <= i < parts@.len() ==> #[trigger] parts@[i]@ == split_colon(s@)[i],
{
    let v = to_chars(s);
    let mut parts: Vec<String> = Vec::new();
    parts.push(String::new());
    let mut i: usize = 0;
    while i < v.len()
        invariant
            i <= v.len(),
            v@ == s@,
            parts@.len() == split_colon(v@.take(i as int)).len(),
            forall|j: int| 0 <= j < parts@.len() ==> #[trigger] parts@[j]@ == split_colon(
                v@.take(i as int),
            )[j],
        decreases v.len() - i,
    {
        let c = v[i];
        let ghost prev = split_colon(v@.take(i as int));
        proof {
            lemma_split_len(v@.take(i as int));
            assert(v@.take(i + 1).drop_last() =~= v@.take(i as int));
        }
        if c == ':' {
            parts.push(String::new());
        } else {
            let last = parts.len() - 1;
            let mut piece = parts[last].clone();
            push_char(&mut piece, c);
            parts.set(last, piece);
        }
        i = i + 1;
        proof {
            let now = split_colon(v@.take(i as int));
            assert forall|j: int| 0 <= j < parts@.len() implies #[trigger] parts@[j]@ == now[j] by {
            }
        }
    }
    assert(v@.take(v.len() as int) =~= v@);
    parts
}

fn str_is(s: &str, lit: &str) -> (r: bool)
    ensures
        r == (s@ == lit@),
{
    let v = to_chars(s);
    crate::text::chars_eq_str(&v, lit)
}

fn concat_bytes(a: &Vec<u8>, b: &Vec<u8>) -> (r: Vec<u8>)
    ensures
        r@ == a@ + b@,
{
    let mut r: Vec<u8> = Vec::new();
    let mut i: usize = 0;
    while i < a.len()
        invariant
            i <= a.len(),
            r@ == a@.take(i as int),
        decreases a.len() - i,
    {
        r.push(a[i]);
        i = i + 1;
        assert(r@ =~= a@.take(i as int));
    }
    let mut j: usize = 0;
    while j < b.len()
        invariant
            j <= b.len(),
            i == a.len(),
            r@ == a@ + b@.take(j as int),
        decreases b.len() - j,
    {
        r.push(b[j]);
        j = j + 1;
        assert(r@ =~= a@ + b@.take(j as int));
    }
    assert(a@.take(a.len() as int) =~= a@);
    assert(b@.take(b.len() as int) =~= b@);
    r
}

fn byte_range(v: &Vec<u8>, from: usize, to: usize) -> (r: Vec<u8>)
    requires
        from <= to <= v.len(),
    ensures
        r@ == v@.subrange(from as int, to as int),
{
    let mut r: Vec<u8> = Vec::new();
    let mut i = from;
    while i < to
        invariant
            from <= i <= to <= v.len(),
            r@ == v@.subrange(from as int, i as int),
        decreases to - i,
    {
        r.push(v[i]);
        i = i + 1;
        assert(r@ =~= v@.subrange(from as int, i as int));
    }
    r
}

fn str_bytes(s: &str) -> (r: Vec<u8>)
    ensures
        r@ == encode_utf8(s@),
{
    let b = s.as_bytes();
    let mut r: Vec<u8> = Vec::new();
    let mut i: usize = 0;
    while i < b.len()
        invariant
            i <= b.len(),
            b@ == s.spec_bytes(),
            r@ == b@.take(i as int),
        decreases b.len() - i,
    {
        r.push(b[i]);
        i = i + 1;
        assert(r@ =~= b@.take(i as int));
    }
    assert(b@.take(b.len() as int) =~= b@);
    r
}

// ---------------------------------------------------------------------------
// Encryption and decryption
// ---------------------------------------------------------------------------

/// Encrypts with the given nonce.  The empty string only when the plaintext
/// is beyond what AES-GCM encrypts.
pub fn seal_with_nonce(key: &[u8; 32], nonce: &[u8; 12], plain: &str) -> (r: String)
    ensures
        encode_utf8(plain@).len() <= P_MAX ==> sealed_payload(key@, nonce@, plain@, r@),
        encode_utf8(plain@).len() > P_MAX ==> r@.len() == 0,
{
    let bytes = str_bytes(plain);
    let sealed = match aes_seal(key, nonce, &bytes) {
        Some(c) => c,
        None => {
            return String::new();
        },
    };
    if sealed.len() < 16 {
        return String::new();
    }
    let n = sealed.len() - 16;
    let ct = byte_range(&sealed, 0, n);
    let tag = byte_range(&sealed, n, sealed.len());
    let e_iv = b64_encode(nonce);
    let e_tag = b64_encode(&tag);
    let e_ct = b64_encode(&ct);
    let mut out = "v1:".to_owned();
    push_all(&mut out, e_iv.as_str());
    push_all(&mut out, ":");
    push_all(&mut out, e_tag.as_str());
    push_all(&mut out, ":");
    push_all(&mut out, e_ct.as_str());
    proof {
        reveal_strlit(":");
        assert(tag@ =~= sealed@.skip(n as int));
        assert(ct@ =~= sealed@.take(n as int));
        assert forall|i: int| 0 <= i < e_iv@.len() implies e_iv@[i] != ':' by {
            assert(base64_char(e_iv@[i]));
        }
        assert forall|i: int| 0 <= i < e_tag@.len() implies e_tag@[i] != ':' by {
            assert(base64_char(e_tag@[i]));
        }
        assert forall|i: int| 0 <= i < e_ct@.len() implies e_ct@[i] != ':' by {
            assert(base64_char(e_ct@[i]));
        }
    }
    out
}

/// Encrypts with a fresh random nonce (`encrypt_secret` with the key loaded).
pub fn encrypt_with_key(key: &[u8; 32], plain: &str) -> (r: String)
    ensures
        encode_utf8(plain@).len() <= P_MAX ==> exists|nonce: Seq<u8>|
            sealed_payload(key@, nonce, plain@, r@),
        encode_utf8(plain@).len() > P_MAX ==> r@.len() == 0,
{
    let nonce = random_12();
    seal_with_nonce(key, &nonce, plain)
}

/// The nonce, tag and ciphertext of a payload, when it has them.
fn parse_payload(payload: &str) -> (r: Option<(Vec<u8>, Vec<u8>, Vec<u8>)>)
    ensures
        match r {
            Some((iv, tag, data)) => payload_parts(payload@) == Some((iv@, tag@, data@)),
            None => payload_parts(payload@) is None,
        },
        forall|key: Seq<u8>, nonce: Seq<u8>, plain: Seq<char>|
            #[trigger] sealed_payload(key, nonce, plain, payload@) ==> match r {
                Some((iv, tag, data)) => iv@ == nonce && data@ + tag@ == aes_gcm_seal(
                    key,
                    nonce,
                    encode_utf8(plain),
                ),
                None => false,
            },
{
    let parts = split_on_colon(payload);
    proof {
        assert forall|key: Seq<u8>, nonce: Seq<u8>, plain: Seq<char>|
            sealed_payload(key, nonce, plain, payload@) implies split_colon(payload@).len() == 4
            && split_colon(payload@)[0] == "v1"@ by {
            lemma_sealed_parts(key, nonce, plain, payload@);
        }
    }
    if parts.len() != 4 || !str_is(parts[0].as_str(), "v1") {
        return None;
    }
    let iv = match b64_decode(parts[1].as_str()) {
        Some(v) => v,
        None => {
            proof {
                assert forall|key: Seq<u8>, nonce: Seq<u8>, plain: Seq<char>|
                    sealed_payload(key, nonce, plain, payload@) implies false by {
                    lemma_sealed_parts(key, nonce, plain, payload@);
                }
            }
            return None;
        },
    };
    let tag = match b64_decode(parts[2].as_str()) {
        Some(v) => v,
        None => {
            proof {
                assert forall|key: Seq<u8>, nonce: Seq<u8>, plain: Seq<char>|
                    sealed_payload(key, nonce, plain, payload@) implies false by {
                    lemma_sealed_parts(key, nonce, plain, payload@);
                }
            }
            return None;
        },
    };
    let data = match b64_decode(parts[3].as_str()) {
        Some(v) => v,
        None => {
            proof {
                assert forall|key: Seq<u8>, nonce: Seq<u8>, plain: Seq<char>|
                    sealed_payload(key, nonce, plain, payload@) implies false by {
                    lemma_sealed_parts(key, nonce, plain, payload@);
                }
            }
            return None;
        },
    };
    proof {
        assert forall|key: Seq<u8>, nonce: Seq<u8>, plain: Seq<char>|
            sealed_payload(key, nonce, plain, payload@) implies iv@ == nonce && tag@.len() == 16
            && data@ + tag@ == aes_gcm_seal(key, nonce, encode_utf8(plain)) by {
            let sealed = aes_gcm_seal(key, nonce, encode_utf8(plain));
            lemma_sealed_parts(key, nonce, plain, payload@);
            assert(sealed.take(sealed.len() - 16) + sealed.skip(sealed.len() - 16) =~= sealed);
        }
    }
    if iv.len() != 12 || tag.len() != 16 {
        return None;
    }
    Some((iv, tag, data))
}

/// Whether decrypting the payload needs the key at all: a payload without
/// its `v1` form, its base64 parts, a 12-byte nonce and a 16-byte tag
/// decrypts to the empty string under every key.
pub fn payload_needs_key(payload: &str) -> (r: bool)
    ensures
        r == payload_parts(payload@) is Some,
        !r ==> forall|key: Seq<u8>| #[trigger] decrypt_spec(key, payload@) == Seq::<char>::empty(),
{
    parse_payload(payload).is_some()
}

/// Decrypts a stored payload; the empty string when it is malformed,
/// damaged, or encrypted under another key (`decrypt_secret` with the key loaded).
pub fn decrypt_with_key(key: &[u8; 32], payload: &str) -> (r: String)
    ensures
        r@ == decrypt_spec(key@, payload@),
        forall|nonce: Seq<u8>, plain: Seq<char>|
            sealed_payload(key@, nonce, plain, payload@) ==> r@ == plain,
{
    let (iv, tag, data) = match parse_payload(payload) {
        Some(t) => t,
        None => {
            return String::new();
        },
    };
    let sealed = concat_bytes(&data, &tag);
    match aes_open(key, &iv, &sealed) {
        Some(p) => {
            let r = from_utf8_lossy(&p);
            proof {
                assert(p@.len() <= C_MAX && aes_gcm_seal(key@, iv@, p@) == data@ + tag@);
                let c = choose|q: Seq<u8>| q.len() <= C_MAX && aes_gcm_seal(key@, iv@, q) == data@ + tag@;
                assert(c == p@);
                assert(payload_parts(payload@) == Some((iv@, tag@, data@)));
                assert(exists|q: Seq<u8>| q.len() <= C_MAX && aes_gcm_seal(key@, iv@, q) == data@ + tag@);
                assert(open_spec(key@, iv@, tag@, data@) == utf8_lossy(c));
                assert forall|nonce: Seq<u8>, plain: Seq<char>|
                    sealed_payload(key@, nonce, plain, payload@) implies r@ == plain by {
                    assert(aes_gcm_seal(key@, iv@, encode_utf8(plain)) == data@ + tag@);
                    assert(encode_utf8(plain) == p@);
                }
            }
            r
        },
        None => {
            proof {
                assert(payload_parts(payload@) == Some((iv@, tag@, data@)));
                assert(!exists|q: Seq<u8>| q.len() <= C_MAX && aes_gcm_seal(key@, iv@, q) == data@ + tag@);
                assert(open_spec(key@, iv@, tag@, data@) == Seq::<char>::empty());
                assert forall|nonce: Seq<u8>, plain: Seq<char>|
                    sealed_payload(key@, nonce, plain, payload@) implies false by {
                    assert(encode_utf8(plain).len() <= P_MAX);
                    assert(aes_gcm_seal(key@, iv@, encode_utf8(plain)) == data@ + tag@);
                }
            }
            String::new()
        },
    }
}

/// An encrypted secret is stored as `v1` and three more parts, separated by
/// colons: it starts with `v1:` and splits into exactly four pieces.
pub proof fn law_payload_format(key: Seq<u8>, nonce: Seq<u8>, plain: Seq<char>, payload: Seq<char>)
    requires
        sealed_payload(key, nonce, plain, payload),
    ensures
        "v1:"@.is_prefix_of(payload),
        split_colon(payload).len() == 4,
        split_colon(payload)[0] == "v1"@,
{
    let sealed = aes_gcm_seal(key, nonce, encode_utf8(plain));
    let x = base64_encode(nonce);
    let y = base64_encode(sealed.skip(sealed.len() - 16));
    let z = base64_encode(sealed.take(sealed.len() - 16));
    lemma_payload_parts(x, y, z);
    assert(payload == "v1:"@ + x + ":"@ + y + ":"@ + z);
    assert(payload.take(3) =~= "v1:"@) by {
        reveal_strlit("v1:");
    }
}

// ---------------------------------------------------------------------------
// Key and cookie
// ---------------------------------------------------------------------------

/// The key file in the data directory.
pub fn secret_file(data_dir: &str) -> (p: String)
    ensures
        p@ == crate::files::path_joined(data_dir@, SECRET_FILE_NAME@),
{
    crate::files::join_path(data_dir, SECRET_FILE_NAME)
}

/// A UC cookie is stored when its setting is not empty.
pub fn has_cookie_setting(stored: &str) -> (r: bool)
    ensures
        r == (stored@.len() > 0),
{
    !stored.is_empty()
}

/// The key to use given the content of the key file: the file's 32 bytes, or
/// a fresh random key that is to be written back (`must_write`).
pub fn choose_key(file_content: Option<Vec<u8>>) -> (r: ([u8; 32], bool))
    ensures
        match file_content {
            Some(b) => if b@.len() == 32 {
                r.0@ == b@ && !r.1
            } else {
                r.1
            },
            None => r.1,
        },
{
    if let Some(b) = file_content {
        if b.len() == 32 {
            let mut key = [0u8; 32];
            let mut i: usize = 0;
            while i < 32
                invariant
                    i <= 32,
                    b@.len() == 32,
                    forall|j: int| 0 <= j < i ==> key@[j] == b@[j],
                decreases 32 - i,
            {
                key.set(i, b[i]);
                i = i + 1;
            }
            assert(key@ =~= b@);
            return (key, false);
        }
    }
    (random_32(), true)
}

/// The stored value for a UC cookie: the trimmed cookie, encrypted.
pub fn cookie_setting_value(key: &[u8; 32], cookie: &str) -> (r: String)
    ensures
        encode_utf8(trim(cookie@)).len() <= P_MAX ==> exists|nonce: Seq<u8>|
            sealed_payload(key@, nonce, trim(cookie@), r@),
{
    let t = trim_str(cookie);
    encrypt_with_key(key, t.as_str())
}

/// The UC cookie from its stored value: empty when nothing is stored.
pub fn cookie_from_setting(key: &[u8; 32], stored: &str) -> (r: String)
    ensures
        stored@.len() == 0 ==> r@.len() == 0,
        stored@.len() > 0 ==> r@ == decrypt_spec(key@, stored@),
{
    if stored.is_empty() {
        String::new()
    } else {
        decrypt_with_key(key, stored)
    }
}

} // verus!
