//! Credential encryption: the record is serialized to its canonical JSON
//! text, sealed with AES-256-GCM under a key derived by
//! PBKDF2-HMAC-SHA-256 from a key text and a fresh salt, and packaged as
//! base64 of `salt (16) + nonce (12) + ciphertext`.
//!
//! The outside primitives (the cipher, the key derivation, base64, the
//! random source and the machine identifier) are called through trusted
//! wrappers; the packaging, parsing and error mapping around them are
//! verified, and sealing followed by opening under the same key text
//! provably recovers the record.

use vstd::prelude::*;
use vstd::string::StringSliceAdditionalSpecFns;
use vstd::utf8::{decode_utf8, encode_utf8, valid_utf8};

use aes_gcm::aead::{Aead, KeyInit};

use crate::credjson::{
    cred_json, lemma_cred_json_round_trip, opt_str_view, parse_cred_json, spec_cred_json,
    spec_parse_cred,
};

verus! {

/// PBKDF2 round count for key derivation.
pub const PBKDF2_ITERATIONS: u32 = 100000;

/// Sensitive SSH credentials.
#[derive(Debug, PartialEq)]
pub struct SensitiveData {
    /// SSH password.
    pub password: Option<String>,
    /// Passphrase for private keys.
    pub key_passphrase: Option<String>,
}

impl SensitiveData {
    /// The record's mathematical content: both members as character
    /// sequences.
    pub open spec fn model(self) -> (Option<Seq<char>>, Option<Seq<char>>) {
        (opt_str_view(self.password), opt_str_view(self.key_passphrase))
    }

    /// The canonical JSON text of the record.
    pub fn to_json(&self) -> (r: String)
        ensures
            r@ == spec_cred_json(self.model().0, self.model().1),
    {
        cred_json(&self.password, &self.key_passphrase)
    }

    /// Parses the canonical JSON text of a record.
    pub fn from_json(s: &str) -> (r: Option<SensitiveData>)
        ensures
            (match r {
                Some(d) => spec_parse_cred(s@) == Some(d.model()),
                None => spec_parse_cred(s@) is None,
            }),
    {
        match parse_cred_json(s) {
            Some((password, key_passphrase)) => Some(
                SensitiveData { password, key_passphrase },
            ),
            None => None,
        }
    }
}

impl Clone for SensitiveData {
    fn clone(&self) -> (r: Self)
        ensures
            r == *self,
    {
        let password = match &self.password {
            Some(p) => Some(p.clone()),
            None => None,
        };
        let key_passphrase = match &self.key_passphrase {
            Some(p) => Some(p.clone()),
            None => None,
        };
        SensitiveData { password, key_passphrase }
    }
}

/// Relies on `rand::thread_rng` / `RngCore::fill_bytes`: a freshly drawn
/// byte string of the requested length; nothing is promised of its values.
#[verifier::external_body]
fn random_bytes(n: usize) -> (r: Vec<u8>)
    ensures
        r@.len() == n,
{
    let mut v = vec![0u8; n];
    rand::RngCore::fill_bytes(&mut rand::thread_rng(), &mut v);
    v
}

/// What PBKDF2-HMAC-SHA-256 derives: a function of the password bytes,
/// the salt, the round count and the output length alone.
pub uninterp spec fn pbkdf2_sha256_of(
    password: Seq<u8>,
    salt: Seq<u8>,
    rounds: u32,
    out_len: nat,
) -> Seq<u8>;

/// Relies on `pbkdf2::pbkdf2_hmac` with `sha2::Sha256`: deterministic key
/// derivation into a 32-byte key.
#[verifier::external_body]
fn derive_key(password: &[u8], salt: &Vec<u8>, rounds: u32) -> (r: Vec<u8>)
    ensures
        r@.len() == 32,
        r@ == pbkdf2_sha256_of(password@, salt@, rounds, 32),
{
    let mut key = [0u8; 32];
    pbkdf2::pbkdf2_hmac::<sha2::Sha256>(password, salt, rounds, &mut key);
    key.to_vec()
}

/// What AES-256-GCM seals a plaintext to: a function of key, nonce and
/// plaintext alone (the aead interface can refuse over-long inputs).
pub uninterp spec fn aes256_gcm_seal_of(key: Seq<u8>, nonce: Seq<u8>, plain: Seq<u8>) -> Option<
    Seq<u8>,
>;

/// What AES-256-GCM opens a ciphertext to, if anything.
pub uninterp spec fn aes256_gcm_open_of(key: Seq<u8>, nonce: Seq<u8>, cipher: Seq<u8>) -> Option<
    Seq<u8>,
>;

/// Relies on `aes_gcm::Aes256Gcm` through `aead::Aead::encrypt`: sealing
/// is deterministic for a fixed key and nonce, the ciphertext is the
/// plaintext plus the 16-byte postfix tag, and the same cipher's
/// `decrypt` inverts it.
#[verifier::external_body]
fn aes_seal(key: &Vec<u8>, nonce: &Vec<u8>, plain: &[u8]) -> (r: Result<Vec<u8>, String>)
    requires
        key@.len() == 32,
        nonce@.len() == 12,
    ensures
        (match r {
            Ok(c) => aes256_gcm_seal_of(key@, nonce@, plain@) == Some(c@) && c@.len()
                == plain@.len() + 16 && aes256_gcm_open_of(key@, nonce@, c@) == Some(plain@),
            Err(_) => aes256_gcm_seal_of(key@, nonce@, plain@) is None,
        }),
{
    match aes_gcm::Aes256Gcm::new_from_slice(key) {
        Ok(cipher) => cipher.encrypt(aes_gcm::Nonce::from_slice(nonce), plain).map_err(
            |e| e.to_string(),
        ),
        Err(e) => Err(e.to_string()),
    }
}

/// Relies on `aes_gcm::Aes256Gcm` through `aead::Aead::decrypt`: opening
/// is a function of key, nonce and ciphertext; failure means these bytes
/// were not sealed under this key and nonce.
#[verifier::external_body]
fn aes_open(key: &Vec<u8>, nonce: &[u8], cipher_text: &[u8]) -> (r: Result<Vec<u8>, String>)
    requires
        key@.len() == 32,
        nonce@.len() == 12,
    ensures
        (match r {
            Ok(p) => aes256_gcm_open_of(key@, nonce@, cipher_text@) == Some(p@),
            Err(_) => aes256_gcm_open_of(key@, nonce@, cipher_text@) is None,
        }),
{
    match aes_gcm::Aes256Gcm::new_from_slice(key) {
        Ok(cipher) => cipher.decrypt(aes_gcm::Nonce::from_slice(nonce), cipher_text).map_err(
            |e| e.to_string(),
        ),
        Err(e) => Err(e.to_string()),
    }
}

/// What the base64 standard alphabet encodes a byte string to.
pub uninterp spec fn base64_std_of(b: Seq<u8>) -> Seq<char>;

/// What standard base64 decoding yields, where the text is valid.
pub uninterp spec fn base64_std_decode_of(s: Seq<char>) -> Option<Seq<u8>>;

/// Relies on `base64::engine::general_purpose::STANDARD` encoding: a
/// function of the bytes alone, inverted by the same engine's decode.
#[verifier::external_body]
fn base64_encode(b: &Vec<u8>) -> (r: String)
    ensures
        r@ == base64_std_of(b@),
        base64_std_decode_of(r@) == Some(b@),
{
    base64::Engine::encode(&base64::engine::general_purpose::STANDARD, b)
}

/// Relies on the same engine's decode: a function of the text alone.
#[verifier::external_body]
fn base64_decode(s: &str) -> (r: Result<Vec<u8>, String>)
    ensures
        (match r {
            Ok(v) => base64_std_decode_of(s@) == Some(v@),
            Err(_) => base64_std_decode_of(s@) is None,
        }),
{
    base64::Engine::decode(&base64::engine::general_purpose::STANDARD, s).map_err(
        |e| e.to_string(),
    )
}

/// Relies on `machine_uid::get`: the machine's identifier from the
/// operating system; nothing is promised of the value.
#[verifier::external_body]
fn machine_uid_raw() -> (r: Option<String>) {
    machine_uid::get().ok()
}

/// Relies on `String::from_utf8`: succeeds exactly on valid UTF-8 and
/// yields the characters the bytes encode.
#[verifier::external_body]
fn bytes_to_string(v: Vec<u8>) -> (r: Result<String, String>)
    ensures
        (match r {
            Ok(s) => valid_utf8(v@) && s@ == decode_utf8(v@),
            Err(_) => !valid_utf8(v@),
        }),
{
    String::from_utf8(v).map_err(|e| e.to_string())
}

/// Encrypts and decrypts credential records under a machine-specific key,
/// so no keychain prompt is needed.
pub struct EncryptionManager;

/// How an encryption output relates to the record, key text, salt and
/// nonce that produced it: the key is derived from the key text and salt,
/// the canonical JSON of the record is sealed under it, and the output is
/// base64 of salt + nonce + ciphertext.
pub open spec fn spec_sealed_package(
    model: (Option<Seq<char>>, Option<Seq<char>>),
    key_str: Seq<u8>,
    salt: Seq<u8>,
    iv: Seq<u8>,
    out: Seq<char>,
) -> bool {
    &&& salt.len() == 16
    &&& iv.len() == 12
    &&& (match aes256_gcm_seal_of(
        pbkdf2_sha256_of(key_str, salt, PBKDF2_ITERATIONS, 32),
        iv,
        encode_utf8(spec_cred_json(model.0, model.1)),
    ) {
        Some(ct) => {
            &&& ct.len() == encode_utf8(spec_cred_json(model.0, model.1)).len() + 16
            &&& out == base64_std_of(salt + iv + ct)
            &&& base64_std_decode_of(out) == Some(salt + iv + ct)
            &&& aes256_gcm_open_of(
                pbkdf2_sha256_of(key_str, salt, PBKDF2_ITERATIONS, 32),
                iv,
                ct,
            ) == Some(encode_utf8(spec_cred_json(model.0, model.1)))
        },
        None => false,
    })
}

/// When encryption can fail at all: the cipher refused to seal the
/// record's canonical JSON under a key derived from some well-sized salt
/// and nonce.  A body that fails without the cipher's refusal cannot meet
/// this.
pub open spec fn spec_seal_refused(
    model: (Option<Seq<char>>, Option<Seq<char>>),
    key_str: Seq<u8>,
) -> bool {
    exists|salt: Seq<u8>, iv: Seq<u8>|
        salt.len() == 16 && iv.len() == 12 && aes256_gcm_seal_of(
            pbkdf2_sha256_of(key_str, salt, PBKDF2_ITERATIONS, 32),
            iv,
            encode_utf8(spec_cred_json(model.0, model.1)),
        ) is None
}

/// What decryption returns for a given input text and key text: each
/// error names the stage that rejected the input, and success carries the
/// record whose canonical JSON was sealed.
pub open spec fn spec_decrypt_outcome(
    input: Seq<char>,
    key_str: Seq<u8>,
    r: Result<SensitiveData, String>,
) -> bool {
    match base64_std_decode_of(input) {
        None => (r matches Err(m) && exists|t: Seq<char>| m@ == "Invalid base64: "@ + t),
        Some(combined) => if combined.len() < 28 {
            (r matches Err(m) && m@ == "Invalid encrypted data format"@)
        } else {
            let salt = combined.take(16);
            let iv = combined.subrange(16, 28);
            let ct = combined.skip(28);
            match aes256_gcm_open_of(
                pbkdf2_sha256_of(key_str, salt, PBKDF2_ITERATIONS, 32),
                iv,
                ct,
            ) {
                None => (r matches Err(m) && exists|t: Seq<char>|
                    m@ == "Decryption failed (possibly wrong key): "@ + t),
                Some(plain) => if !valid_utf8(plain) {
                    (r matches Err(m) && m@ == "Invalid credentials data"@)
                } else {
                    match spec_parse_cred(decode_utf8(plain)) {
                        None => (r matches Err(m) && m@ == "Invalid credentials data"@),
                        Some(model) => (r matches Ok(d) && d.model() == model),
                    }
                },
            }
        },
    }
}

impl EncryptionManager {
    fn machine_key() -> String {
        match machine_uid_raw() {
            Some(s) => s,
            None => String::from_str("nexashell-fallback-id"),
        }
    }

    /// Encrypts the record with the machine-specific key.
    pub fn encrypt(data: &SensitiveData) -> (r: Result<String, String>)
        ensures
            r is Ok ==> exists|key: Seq<u8>, salt: Seq<u8>, iv: Seq<u8>|
                spec_sealed_package(data.model(), key, salt, iv, (r->Ok_0)@),
            r is Err ==> (exists|key: Seq<u8>| spec_seal_refused(data.model(), key)) && exists|
                t: Seq<char>,
            | (r->Err_0)@ == "Encryption failed: "@ + t,
    {
        let key = Self::machine_key();
        let ks = key.as_str();
        let r = Self::encrypt_with_key(data, ks);
        proof {
            if r is Ok {
                let out = r->Ok_0;
                let (salt, iv) = choose|salt: Seq<u8>, iv: Seq<u8>|
                    spec_sealed_package(data.model(), ks.spec_bytes(), salt, iv, out@);
                assert(exists|key: Seq<u8>, salt2: Seq<u8>, iv2: Seq<u8>|
                    spec_sealed_package(data.model(), key, salt2, iv2, out@)) by {
                    assert(spec_sealed_package(data.model(), ks.spec_bytes(), salt, iv, out@));
                }
            } else {
                assert(exists|key: Seq<u8>| spec_seal_refused(data.model(), key)) by {
                    assert(spec_seal_refused(data.model(), ks.spec_bytes()));
                }
            }
        }
        r
    }

    /// Decrypts a record encrypted with the machine-specific key.
    pub fn decrypt(encrypted_base64: &str) -> (r: Result<SensitiveData, String>)
        ensures
            exists|key: Seq<u8>| spec_decrypt_outcome(encrypted_base64@, key, r),
    {
        let key = Self::machine_key();
        let ks = key.as_str();
        let r = Self::decrypt_with_key(encrypted_base64, ks);
        proof {
            assert(exists|key: Seq<u8>| spec_decrypt_outcome(encrypted_base64@, key, r)) by {
                assert(spec_decrypt_outcome(encrypted_base64@, ks.spec_bytes(), r));
            }
        }
        r
    }

    /// Encrypts the record with a caller-provided key text: serialize,
    /// draw a fresh 16-byte salt and 12-byte nonce, derive the key, seal,
    /// and package salt + nonce + ciphertext in base64.
    pub fn encrypt_with_key(data: &SensitiveData, key_str: &str) -> (r: Result<String, String>)
        ensures
            r is Ok ==> exists|salt: Seq<u8>, iv: Seq<u8>|
                spec_sealed_package(data.model(), key_str.spec_bytes(), salt, iv, (r->Ok_0)@),
            r is Err ==> spec_seal_refused(data.model(), key_str.spec_bytes()) && exists|
                t: Seq<char>,
            | (r->Err_0)@ == "Encryption failed: "@ + t,
    {
        let json = data.to_json();
        let salt = random_bytes(16);
        let key = derive_key(key_str.as_bytes(), &salt, PBKDF2_ITERATIONS);
        let iv = random_bytes(12);
        let ghost salt0 = salt@;
        let ghost iv0 = iv@;
        let res: Result<String, String> = match aes_seal(&key, &iv, json.as_str().as_bytes()) {
            Ok(ct) => {
                let mut combined = salt;
                let mut iv_tail = iv;
                combined.append(&mut iv_tail);
                let mut ct_tail = ct;
                combined.append(&mut ct_tail);
                Ok(base64_encode(&combined))
            },
            Err(e) => {
                let mut m = String::from_str("Encryption failed: ");
                m.append(e.as_str());
                Err(m)
            },
        };
        proof {
            if res is Ok {
                assert(exists|salt: Seq<u8>, iv: Seq<u8>|
                    spec_sealed_package(
                        data.model(),
                        key_str.spec_bytes(),
                        salt,
                        iv,
                        (res->Ok_0)@,
                    )) by {
                    assert(spec_sealed_package(
                        data.model(),
                        key_str.spec_bytes(),
                        salt0,
                        iv0,
                        (res->Ok_0)@,
                    ));
                }
            } else {
                assert(spec_seal_refused(data.model(), key_str.spec_bytes())) by {
                    assert(salt0.len() == 16 && iv0.len() == 12 && aes256_gcm_seal_of(
                        pbkdf2_sha256_of(key_str.spec_bytes(), salt0, PBKDF2_ITERATIONS, 32),
                        iv0,
                        encode_utf8(spec_cred_json(data.model().0, data.model().1)),
                    ) is None);
                }
            }
        }
        res
    }

    /// Decrypts a record with a caller-provided key text, reversing the
    /// packaging: base64, then salt, nonce and ciphertext, then the
    /// sealed canonical JSON.
    pub fn decrypt_with_key(encrypted_base64: &str, key_str: &str) -> (r: Result<
        SensitiveData,
        String,
    >)
        ensures
            spec_decrypt_outcome(encrypted_base64@, key_str.spec_bytes(), r),
    {
        let combined = match base64_decode(encrypted_base64) {
            Ok(v) => v,
            Err(e) => {
                let mut m = String::from_str("Invalid base64: ");
                m.append(e.as_str());
                return Err(m);
            },
        };
        if combined.len() < 28 {
            return Err(String::from_str("Invalid encrypted data format"));
        }
        let mut salt: Vec<u8> = Vec::new();
        for i in 0..16
            invariant
                combined@.len() >= 28,
                salt@ == combined@.subrange(0, i as int),
        {
            salt.push(combined[i]);
        }
        let mut iv: Vec<u8> = Vec::new();
        for i in 16..28
            invariant
                combined@.len() >= 28,
                iv@ == combined@.subrange(16, i as int),
        {
            iv.push(combined[i]);
        }
        let n = combined.len();
        let mut ct: Vec<u8> = Vec::new();
        for i in 28..n
            invariant
                n == combined@.len() >= 28,
                ct@ == combined@.subrange(28, i as int),
        {
            ct.push(combined[i]);
        }
        proof {
            assert(salt@ =~= combined@.take(16));
            assert(ct@ =~= combined@.skip(28));
        }
        let key = derive_key(key_str.as_bytes(), &salt, PBKDF2_ITERATIONS);
        let plain = match aes_open(&key, iv.as_slice(), ct.as_slice()) {
            Ok(p) => p,
            Err(e) => {
                let mut m = String::from_str("Decryption failed (possibly wrong key): ");
                m.append(e.as_str());
                return Err(m);
            },
        };
        let text = match bytes_to_string(plain) {
            Ok(t) => t,
            Err(_) => {
                return Err(String::from_str("Invalid credentials data"));
            },
        };
        match SensitiveData::from_json(text.as_str()) {
            Some(d) => Ok(d),
            None => Err(String::from_str("Invalid credentials data")),
        }
    }
}

/// Sealing then opening under the same key text recovers the record: any
/// output `encrypt_with_key` can produce is mapped back by
/// `decrypt_with_key` to a record with the same content.
pub proof fn lemma_encrypt_decrypt_round_trip(
    model: (Option<Seq<char>>, Option<Seq<char>>),
    key_str: Seq<u8>,
    salt: Seq<u8>,
    iv: Seq<u8>,
    out: Seq<char>,
    r: Result<SensitiveData, String>,
)
    requires
        spec_sealed_package(model, key_str, salt, iv, out),
        spec_decrypt_outcome(out, key_str, r),
    ensures
        r matches Ok(d) && d.model() == model,
{
    let json = spec_cred_json(model.0, model.1);
    let derived = pbkdf2_sha256_of(key_str, salt, PBKDF2_ITERATIONS, 32);
    let ct = (match aes256_gcm_seal_of(derived, iv, encode_utf8(json)) {
        Some(c) => c,
        None => Seq::empty(),
    });
    let combined = salt + iv + ct;
    assert(combined.len() >= 28);
    assert(combined.take(16) =~= salt);
    assert(combined.subrange(16, 28) =~= iv);
    assert(combined.skip(28) =~= ct);
    vstd::utf8::encode_utf8_valid_utf8(json);
    vstd::utf8::encode_utf8_decode_utf8(json);
    lemma_cred_json_round_trip(model.0, model.1);
}

} // verus!
