//! License tokens: an encrypted expiry timestamp.
//!
//! A license is `base64(nonce || ciphertext)` where the ciphertext is the
//! AES-256-GCM encryption of the expiry's eight little-endian bytes under
//! a key derived by hashing a fixed seed.  The authentication tag makes
//! tampering detectable.  Encoding, hashing and the cipher come from
//! outside crates behind the trusted items below; everything around them
//! — framing, length checks, byte packing, expiry comparison — is
//! verified.

use aes_gcm::aead::{Aead, AeadCore, KeyInit, OsRng};
use sha2::Digest;
use vstd::prelude::*;

verus! {

/// SHA-256 digest of a byte string.
pub uninterp spec fn sha256_of(data: Seq<u8>) -> Seq<u8>;

/// Standard (padded) base64 encoding of a byte string.
pub uninterp spec fn base64_of(data: Seq<u8>) -> Seq<char>;

/// Standard (padded) base64 decoding: the bytes, or nothing for invalid
/// input.
pub uninterp spec fn base64_decoded(text: Seq<char>) -> Option<Seq<u8>>;

/// AES-256-GCM decryption (with authentication): the plaintext, or
/// nothing when the ciphertext does not authenticate under key and
/// nonce.
pub uninterp spec fn aes256gcm_opened(key: Seq<u8>, nonce: Seq<u8>, ciphertext: Seq<u8>) -> Option<
    Seq<u8>,
>;

/// Relies on sha2's `Sha256::digest`: the 32-byte digest is a function
/// of the input bytes alone.
#[verifier::external_body]
fn sha256(data: &Vec<u8>) -> (r: Vec<u8>)
    ensures
        r@ == sha256_of(data@),
        r@.len() == 32,
{
    sha2::Sha256::digest(data.as_slice()).to_vec()
}

/// Relies on base64's `Engine::encode` with the standard alphabet: the
/// output is a function of the input bytes, four characters for every
/// three bytes begun.
#[verifier::external_body]
fn base64_encode(data: &Vec<u8>) -> (r: String)
    ensures
        r@ == base64_of(data@),
        r@.len() == ((data@.len() + 2) / 3) * 4,
{
    base64::Engine::encode(&base64::engine::general_purpose::STANDARD, data)
}

/// Relies on base64's `Engine::decode` with the standard alphabet: it
/// returns the decoded bytes exactly for valid input and an error
/// otherwise.
#[verifier::external_body]
fn base64_decode(text: &str) -> (r: Option<Vec<u8>>)
    ensures
        r is Some <==> base64_decoded(text@) is Some,
        r matches Some(v) ==> base64_decoded(text@) == Some(v@),
{
    base64::Engine::decode(&base64::engine::general_purpose::STANDARD, text).ok()
}

/// Relies on aes-gcm's `Aead::encrypt` for `Aes256Gcm` and
/// `AeadCore::generate_nonce`: the nonce is drawn fresh from the OS
/// random source (so nothing relates it to the arguments), and the
/// ciphertext is the plaintext's length plus the 16-byte tag.
#[verifier::external_body]
fn aes256gcm_seal(key: &Vec<u8>, plaintext: &Vec<u8>) -> (r: Option<(Vec<u8>, Vec<u8>)>)
    requires
        key@.len() == 32,
    ensures
        r matches Some(p) ==> p.0@.len() == 12 && p.1@.len() == plaintext@.len() + 16,
{
    let cipher = aes_gcm::Aes256Gcm::new_from_slice(key.as_slice()).ok()?;
    let nonce = aes_gcm::Aes256Gcm::generate_nonce(&mut OsRng);
    let ciphertext = cipher.encrypt(&nonce, plaintext.as_slice()).ok()?;
    Some((nonce.to_vec(), ciphertext))
}

/// Relies on aes-gcm's `Aead::decrypt` for `Aes256Gcm`: the result is a
/// function of key, nonce and ciphertext; it fails exactly when the
/// ciphertext does not authenticate, and an authenticated plaintext is
/// the ciphertext minus the 16-byte tag.
#[verifier::external_body]
fn aes256gcm_open(key: &Vec<u8>, nonce: &Vec<u8>, ciphertext: &Vec<u8>) -> (r: Option<Vec<u8>>)
    requires
        key@.len() == 32,
        nonce@.len() == 12,
    ensures
        r is Some <==> aes256gcm_opened(key@, nonce@, ciphertext@) is Some,
        r matches Some(v) ==> aes256gcm_opened(key@, nonce@, ciphertext@) == Some(v@) && v@.len()
            + 16 == ciphertext@.len(),
{
    let cipher = aes_gcm::Aes256Gcm::new_from_slice(key.as_slice()).ok()?;
    let nonce_arr: [u8; 12] = nonce.as_slice().try_into().ok()?;
    cipher.decrypt(&aes_gcm::Nonce::from(nonce_arr), ciphertext.as_slice()).ok()
}

/// Relies on std's `SystemTime::now` and `duration_since`: seconds since
/// the Unix epoch, or nothing when the clock reads earlier than the
/// epoch.  Two calls need not agree.
#[verifier::external_body]
pub fn now_secs() -> (r: Option<u64>)
{
    std::time::SystemTime::now().duration_since(std::time::UNIX_EPOCH).map(
        |d| d.as_secs(),
    ).ok()
}

/// Why a license token was rejected or could not be produced.
#[derive(Clone, Copy, Debug, PartialEq, Eq, Structural)]
pub enum LicenseError {
    /// The token is not valid base64.
    InvalidEncoding,
    /// The decoded payload is shorter than a nonce.
    Truncated,
    /// Decryption or authentication failed.
    Tampered,
    /// The authenticated plaintext is not an eight-byte timestamp.
    MalformedContent,
    /// The cipher could not be driven (never observed in practice).
    EncryptionFailed,
}

/// The seed the encryption key is derived from.
pub open spec fn spec_license_seed() -> Seq<u8> {
    seq![
        0x70u8, 0x6fu8, 0x6cu8, 0x79u8, 0x5fu8, 0x31u8, 0x35u8, 0x6du8, 0x69u8, 0x6eu8, 0x5fu8,
        0x62u8, 0x6fu8, 0x74u8, 0x5fu8, 0x74u8, 0x72u8, 0x69u8, 0x61u8, 0x6cu8, 0x5fu8, 0x73u8,
        0x65u8, 0x65u8, 0x64u8, 0x5fu8, 0x32u8, 0x30u8, 0x32u8, 0x35u8,
    ]
}

fn license_seed() -> (r: Vec<u8>)
    ensures
        r@ == spec_license_seed(),
{
    let r: Vec<u8> = vec![
        0x70u8, 0x6fu8, 0x6cu8, 0x79u8, 0x5fu8, 0x31u8, 0x35u8, 0x6du8, 0x69u8, 0x6eu8, 0x5fu8,
        0x62u8, 0x6fu8, 0x74u8, 0x5fu8, 0x74u8, 0x72u8, 0x69u8, 0x61u8, 0x6cu8, 0x5fu8, 0x73u8,
        0x65u8, 0x65u8, 0x64u8, 0x5fu8, 0x32u8, 0x30u8, 0x32u8, 0x35u8,
    ];
    proof {
        assert(r@ =~= spec_license_seed());
    }
    r
}

/// The little-endian bytes of a timestamp.
pub open spec fn spec_u64_le_bytes(x: u64) -> Seq<u8> {
    seq![
        (x & 0xff) as u8,
        ((x >> 8) & 0xff) as u8,
        ((x >> 16) & 0xff) as u8,
        ((x >> 24) & 0xff) as u8,
        ((x >> 32) & 0xff) as u8,
        ((x >> 40) & 0xff) as u8,
        ((x >> 48) & 0xff) as u8,
        ((x >> 56) & 0xff) as u8,
    ]
}

/// The timestamp read from eight little-endian bytes.
pub open spec fn spec_u64_from_le(b: Seq<u8>) -> u64
    recommends
        b.len() == 8,
{
    (b[0] as u64) | ((b[1] as u64) << 8) | ((b[2] as u64) << 16) | ((b[3] as u64) << 24) | ((
    b[4] as u64) << 32) | ((b[5] as u64) << 40) | ((b[6] as u64) << 48) | ((b[7] as u64) << 56)
}

fn u64_to_le_bytes(x: u64) -> (r: Vec<u8>)
    ensures
        r@ == spec_u64_le_bytes(x),
{
    let r: Vec<u8> = vec![
        (x & 0xff) as u8,
        ((x >> 8) & 0xff) as u8,
        ((x >> 16) & 0xff) as u8,
        ((x >> 24) & 0xff) as u8,
        ((x >> 32) & 0xff) as u8,
        ((x >> 40) & 0xff) as u8,
        ((x >> 48) & 0xff) as u8,
        ((x >> 56) & 0xff) as u8,
    ];
    proof {
        assert(r@ =~= spec_u64_le_bytes(x));
    }
    r
}

fn u64_from_le_bytes(b: &Vec<u8>) -> (r: u64)
    requires
        b@.len() == 8,
    ensures
        r == spec_u64_from_le(b@),
{
    (b[0] as u64) | ((b[1] as u64) << 8) | ((b[2] as u64) << 16) | ((b[3] as u64) << 24) | ((
    b[4] as u64) << 32) | ((b[5] as u64) << 40) | ((b[6] as u64) << 48) | ((b[7] as u64) << 56)
}

/// Packing a timestamp into its bytes and reading them back is the
/// identity.
pub proof fn lemma_u64_le_roundtrip(x: u64)
    ensures
        spec_u64_from_le(spec_u64_le_bytes(x)) == x,
{
    assert(((x & 0xff) as u8) as u64 | ((((x >> 8) & 0xff) as u8) as u64) << 8 | ((((x >> 16)
        & 0xff) as u8) as u64) << 16 | ((((x >> 24) & 0xff) as u8) as u64) << 24 | ((((x >> 32)
        & 0xff) as u8) as u64) << 32 | ((((x >> 40) & 0xff) as u8) as u64) << 40 | ((((x >> 48)
        & 0xff) as u8) as u64) << 48 | ((((x >> 56) & 0xff) as u8) as u64) << 56 == x)
        by (bit_vector);
}

/// Generates a license token for the given expiry: the encrypted
/// timestamp, base64-encoded.  A successful token is always 48
/// characters — a 12-byte nonce and a 24-byte ciphertext, encoded.
pub fn create_license(expiry_secs: u64) -> (r: Result<String, LicenseError>)
    ensures
        r matches Ok(s) ==> s@.len() == 48,
        r matches Err(e) ==> e == LicenseError::EncryptionFailed,
{
    let seed = license_seed();
    let key = sha256(&seed);
    let plaintext = u64_to_le_bytes(expiry_secs);
    match aes256gcm_seal(&key, &plaintext) {
        Some((mut nonce, mut ciphertext)) => {
            let mut payload: Vec<u8> = Vec::new();
            payload.append(&mut nonce);
            payload.append(&mut ciphertext);
            Ok(base64_encode(&payload))
        },
        None => Err(LicenseError::EncryptionFailed),
    }
}

/// The expiry a license token decodes to, phrased over the trusted
/// names: base64-decode, split off the 12-byte nonce, authenticate and
/// decrypt, read the eight-byte little-endian timestamp.
pub open spec fn spec_decoded_license(content: Seq<char>) -> Result<u64, LicenseError> {
    match base64_decoded(content) {
        Option::None => Err(LicenseError::InvalidEncoding),
        Option::Some(payload) => {
            if payload.len() < 12 {
                Err(LicenseError::Truncated)
            } else {
                let nonce = payload.subrange(0, 12);
                let ciphertext = payload.subrange(12, payload.len() as int);
                match aes256gcm_opened(sha256_of(spec_license_seed()), nonce, ciphertext) {
                    Option::None => Err(LicenseError::Tampered),
                    Option::Some(plaintext) => {
                        if plaintext.len() != 8 {
                            Err(LicenseError::MalformedContent)
                        } else {
                            Ok(spec_u64_from_le(plaintext))
                        }
                    },
                }
            }
        },
    }
}

/// Decodes and authenticates a license token, returning the expiry
/// timestamp it carries.
pub fn decode_license(content: &str) -> (r: Result<u64, LicenseError>)
    ensures
        r == spec_decoded_license(content@),
{
    let payload = match base64_decode(content) {
        Some(p) => p,
        None => {
            return Err(LicenseError::InvalidEncoding);
        },
    };
    if payload.len() < 12 {
        return Err(LicenseError::Truncated);
    }
    let mut nonce: Vec<u8> = Vec::new();
    let mut ciphertext: Vec<u8> = Vec::new();
    let n = payload.len();
    let mut i: usize = 0;
    while i < 12
        invariant
            i <= 12,
            12 <= n == payload@.len(),
            nonce@ == payload@.subrange(0, i as int),
        decreases 12 - i,
    {
        nonce.push(payload[i]);
        proof {
            assert(nonce@ =~= payload@.subrange(0, i as int + 1));
        }
        i = i + 1;
    }
    let mut j: usize = 12;
    while j < n
        invariant
            12 <= j <= n,
            n == payload@.len(),
            ciphertext@ == payload@.subrange(12, j as int),
        decreases n - j,
    {
        ciphertext.push(payload[j]);
        proof {
            assert(ciphertext@ =~= payload@.subrange(12, j as int + 1));
        }
        j = j + 1;
    }
    let seed = license_seed();
    let key = sha256(&seed);
    let plaintext = match aes256gcm_open(&key, &nonce, &ciphertext) {
        Some(p) => p,
        None => {
            return Err(LicenseError::Tampered);
        },
    };
    if plaintext.len() != 8 {
        return Err(LicenseError::MalformedContent);
    }
    Ok(u64_from_le_bytes(&plaintext))
}

/// Standing of a license at one moment.
#[derive(Clone, Copy, Debug, PartialEq, Eq, Structural)]
pub enum LicenseStatus {
    /// Still valid, with this many seconds to go.
    Valid { remaining_secs: u64 },
    /// `now` has reached or passed the expiry.
    Expired,
}

/// A license is expired from the moment `now` reaches its expiry;
/// otherwise it is valid for the difference.
pub fn license_status(now: u64, expiry_secs: u64) -> (r: LicenseStatus)
    ensures
        now >= expiry_secs ==> r == LicenseStatus::Expired,
        now < expiry_secs ==> r == (LicenseStatus::Valid {
            remaining_secs: (expiry_secs - now) as u64,
        }),
{
    if now >= expiry_secs {
        LicenseStatus::Expired
    } else {
        LicenseStatus::Valid { remaining_secs: expiry_secs - now }
    }
}

} // verus!
