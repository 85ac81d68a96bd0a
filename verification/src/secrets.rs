//! Encryption of customer RPC endpoints at rest, with AES-256-GCM.
use vstd::prelude::*;
use vstd::utf8::{encode_utf8, decode_utf8, valid_utf8, is_char_boundary};
use crate::text::{trim, trim_str, utf8_len, byte_len};
use crate::secret_tokens::random_bytes;
use aes_gcm::{Aes256Gcm, Nonce, aead::{Aead, KeyInit}};

verus! {

/// What `Aes256Gcm` produces when it seals `plaintext` under `key` and `nonce`
/// (the ciphertext followed by its tag).
pub uninterp spec fn aes_gcm_seal(key: Seq<u8>, nonce: Seq<u8>, plaintext: Seq<u8>) -> Seq<u8>;

/// What `Aes256Gcm` recovers when it opens `ciphertext` under `key` and
/// `nonce`, or `None` where the tag does not authenticate it.
pub uninterp spec fn aes_gcm_open(key: Seq<u8>, nonce: Seq<u8>, ciphertext: Seq<u8>) -> Option<Seq<u8>>;

/// `Aead::encrypt` of `aes_gcm::Aes256Gcm`.
///
/// Trusted: the result is the crate's sealing of exactly these inputs, and, as
/// for every AEAD, opening it with the same key and nonce gives the plaintext
/// back. The crate refuses exactly the plaintexts longer than its limit of
/// 2^36 bytes (there is no associated data).
#[verifier::external_body]
fn seal(key: &[u8; 32], nonce: &[u8; 12], plaintext: &[u8]) -> (r: Option<Vec<u8>>)
    ensures
        r is Some <==> plaintext@.len() <= MAX_SEALED_BYTES,
        r matches Some(c) ==> c@ == aes_gcm_seal(key@, nonce@, plaintext@) && aes_gcm_open(
            key@,
            nonce@,
            c@,
        ) == Some(plaintext@),
{
    Aes256Gcm::new(key.into()).encrypt(Nonce::from_slice(nonce), plaintext).ok()
}

/// The longest plaintext AES-GCM seals: 2^36 bytes.
pub const MAX_SEALED_BYTES: u64 = 68_719_476_736;

/// `Aead::decrypt` of `aes_gcm::Aes256Gcm`.
///
/// Trusted: the result is the crate's opening of exactly these inputs.
#[verifier::external_body]
fn open(key: &[u8; 32], nonce: &[u8; 12], ciphertext: &[u8]) -> (r: Option<Vec<u8>>)
    ensures
        match aes_gcm_open(key@, nonce@, ciphertext@) {
            Some(p) => r matches Some(v) && v@ == p,
            None => r is None,
        },
{
    Aes256Gcm::new(key.into()).decrypt(Nonce::from_slice(nonce), ciphertext).ok()
}

/// `String::from_utf8`.
///
/// Trusted: std documents that it succeeds exactly on valid UTF-8 and then
/// holds the text those bytes encode.
#[verifier::external_body]
fn utf8_text(bytes: Vec<u8>) -> (r: Option<String>)
    ensures
        r is Some <==> valid_utf8(bytes@),
        r matches Some(s) ==> s@ == decode_utf8(bytes@),
{
    String::from_utf8(bytes).ok()
}

/// Missing or invalid deployment secret configuration.
#[derive(Debug, Clone, Copy, PartialEq, Eq, Structural)]
pub enum SecretConfigError {
    UnreadableKey,
    InvalidKey,
}

impl SecretConfigError {
    /// The operator-facing explanation.
    pub fn message(&self) -> (m: &'static str)
        ensures
            m@ == "LANDFALL_ROUTE_SECRETS_KEY must be a 32-byte hex key"@,
    {
        "LANDFALL_ROUTE_SECRETS_KEY must be a 32-byte hex key"
    }
}

/// An endpoint could not be encrypted or decrypted.
#[derive(Debug, Clone, Copy, PartialEq, Eq, Structural)]
pub struct SecretCryptoError;

/// The value of a hexadecimal digit byte, either case.
pub open spec fn hex_value(b: u8) -> Option<nat> {
    if 48 <= b <= 57 {
        Some((b - 48) as nat)
    } else if 97 <= b <= 102 {
        Some((b - 87) as nat)
    } else if 65 <= b <= 70 {
        Some((b - 55) as nat)
    } else {
        None
    }
}

/// The byte two hexadecimal digits write, high digit first.
pub open spec fn pair_value(b0: u8, b1: u8) -> Option<nat> {
    match (hex_value(b0), hex_value(b1)) {
        (Some(h), Some(l)) => Some(h * 16 + l),
        _ => None,
    }
}

/// The key written as 64 bytes, two per key byte.
pub open spec fn hex_key(bytes: Seq<u8>) -> Option<Seq<u8>> {
    if bytes.len() == 64 && forall|k: int| 0 <= k < 32 ==> #[trigger] pair_value(bytes[2 * k], bytes[2 * k + 1]) is Some {
        Some(Seq::new(32, |k: int| pair_value(bytes[2 * k], bytes[2 * k + 1])->0 as u8))
    } else {
        None
    }
}

fn hex_digit(b: u8) -> (r: Option<u8>)
    ensures
        match hex_value(b) {
            Some(v) => r == Some(v as u8),
            None => r is None,
        },
{
    if 48 <= b && b <= 57 {
        Some(b - 48)
    } else if 97 <= b && b <= 102 {
        Some(b - 87)
    } else if 65 <= b && b <= 70 {
        Some(b - 55)
    } else {
        None
    }
}

fn parse_pair(b0: u8, b1: u8) -> (r: Option<u8>)
    ensures
        match pair_value(b0, b1) {
            Some(v) => v < 256 && r == Some(v as u8),
            None => r is None,
        },
{
    match (hex_digit(b0), hex_digit(b1)) {
        (Some(h), Some(l)) => Some(h * 16 + l),
        _ => None,
    }
}

/// Decodes a 32-byte key from exactly 64 hexadecimal digits, either case. The
/// text is cut in two-byte pieces, so every even offset must fall between
/// characters.
pub fn decode_hex_key(value: &str) -> (r: Option<[u8; 32]>)
    requires
        byte_len(value@) == 64 ==> forall|k: int|
            0 <= k <= 32 ==> is_char_boundary(encode_utf8(value@), #[trigger] (2 * k)),
    ensures
        match hex_key(encode_utf8(value@)) {
            Some(key) => r matches Some(b) && b@ == key,
            None => r is None,
        },
{
    let bytes = value.as_bytes();
    if bytes.len() != 64 {
        return None;
    }
    let mut key = [0u8; 32];
    let mut k: usize = 0;
    while k < 32
        invariant
            bytes@ == encode_utf8(value@),
            bytes@.len() == 64,
            k <= 32,
            forall|j: int| 0 <= j < k ==> #[trigger] pair_value(bytes@[2 * j], bytes@[2 * j + 1]) is Some
                && key@[j] == pair_value(bytes@[2 * j], bytes@[2 * j + 1])->0 as u8,
        decreases 32 - k,
    {
        match parse_pair(bytes[2 * k], bytes[2 * k + 1]) {
            Some(v) => {
                key[k] = v;
            },
            None => {
                assert(pair_value(bytes@[2 * k as int], bytes@[2 * k as int + 1]) is None);
                return None;
            },
        }
        k = k + 1;
    }
    assert(key@ == Seq::new(32, |j: int| pair_value(bytes@[2 * j], bytes@[2 * j + 1])->0 as u8));
    Some(key)
}

/// The AES-256-GCM key that protects route endpoints, loaded only from
/// deployment configuration.
#[derive(Clone)]
pub struct RouteSecretCipher {
    key: [u8; 32],
}

impl RouteSecretCipher {
    /// The key bytes.
    pub closed spec fn key(&self) -> Seq<u8> {
        self.key@
    }

    /// A cipher over the given key.
    pub fn new(key: [u8; 32]) -> (c: RouteSecretCipher)
        ensures
            c.key() == key@,
    {
        RouteSecretCipher { key }
    }

    /// The cipher of a configured key text (from the key file, else the key
    /// variable); `None` where no key is configured.
    pub fn from_env(configured: Option<&str>) -> (r: Result<Option<RouteSecretCipher>, SecretConfigError>)
        requires
            configured matches Some(text) ==> (byte_len(trim(text@)) == 64 ==> forall|k: int|
                0 <= k <= 32 ==> is_char_boundary(encode_utf8(trim(text@)), #[trigger] (2 * k))),
        ensures
            configured is None ==> r matches Ok(None),
            configured matches Some(text) ==> match hex_key(encode_utf8(trim(text@))) {
                Some(key) => r matches Ok(Some(c)) && c.key() == key,
                None => r == Err::<Option<RouteSecretCipher>, SecretConfigError>(
                    SecretConfigError::InvalidKey,
                ),
            },
    {
        match configured {
            None => Ok(None),
            Some(text) => match decode_hex_key(trim_str(text)) {
                Some(key) => Ok(Some(RouteSecretCipher { key })),
                None => Err(SecretConfigError::InvalidKey),
            },
        }
    }

    /// Encrypts one endpoint under the given 96-bit nonce; an endpoint
    /// beyond the AES-GCM limit is refused.
    pub fn encrypt_with_nonce(&self, endpoint: &str, nonce: [u8; 12]) -> (r: Result<Vec<u8>, SecretCryptoError>)
        ensures
            r is Ok <==> encode_utf8(endpoint@).len() <= MAX_SEALED_BYTES,
            r matches Ok(ciphertext) ==> ciphertext@ == aes_gcm_seal(self.key(), nonce@, encode_utf8(endpoint@))
                && aes_gcm_open(self.key(), nonce@, ciphertext@) == Some(encode_utf8(endpoint@)),
    {
        match seal(&self.key, &nonce, endpoint.as_bytes()) {
            Some(c) => Ok(c),
            None => Err(SecretCryptoError),
        }
    }

    /// Encrypts one endpoint under a fresh random 96-bit nonce, returning the
    /// ciphertext and the nonce. An endpoint beyond the AES-GCM limit is
    /// refused; otherwise it fails only where the random source fails.
    pub fn encrypt(&self, endpoint: &str) -> (r: Result<(Vec<u8>, Vec<u8>), SecretCryptoError>)
        ensures
            encode_utf8(endpoint@).len() > MAX_SEALED_BYTES ==> r is Err,
            r matches Ok((ciphertext, nonce)) ==> nonce@.len() == 12 && ciphertext@ == aes_gcm_seal(
                self.key(),
                nonce@,
                encode_utf8(endpoint@),
            ) && aes_gcm_open(self.key(), nonce@, ciphertext@) == Some(encode_utf8(endpoint@)),
    {
        let nonce = match random_bytes::<12>() {
            Some(n) => n,
            None => {
                return Err(SecretCryptoError);
            },
        };
        let ciphertext = match self.encrypt_with_nonce(endpoint, nonce) {
            Ok(c) => c,
            Err(e) => {
                return Err(e);
            },
        };
        let mut nonce_bytes: Vec<u8> = Vec::new();
        let mut i: usize = 0;
        while i < 12
            invariant
                i <= 12,
                nonce_bytes@ == nonce@.subrange(0, i as int),
            decreases 12 - i,
        {
            nonce_bytes.push(nonce[i]);
            i = i + 1;
        }
        assert(nonce@.subrange(0, 12) == nonce@);
        Ok((ciphertext, nonce_bytes))
    }

    /// Decrypts an endpoint; a nonce of the wrong length, a ciphertext that does
    /// not authenticate, or a plaintext that is not UTF-8 is an error.
    pub fn decrypt(&self, ciphertext: &[u8], nonce: &[u8]) -> (r: Result<String, SecretCryptoError>)
        ensures
            r is Ok <==> (nonce@.len() == 12 && (aes_gcm_open(self.key(), nonce@, ciphertext@) matches Some(
                p,
            ) && valid_utf8(p))),
            r matches Ok(s) ==> aes_gcm_open(self.key(), nonce@, ciphertext@) matches Some(p) && s@
                == decode_utf8(p),
    {
        if nonce.len() != 12 {
            return Err(SecretCryptoError);
        }
        let mut n = [0u8; 12];
        let mut i: usize = 0;
        while i < 12
            invariant
                i <= 12,
                nonce@.len() == 12,
                forall|j: int| 0 <= j < i ==> n@[j] == nonce@[j],
            decreases 12 - i,
        {
            n[i] = nonce[i];
            i = i + 1;
        }
        assert(n@ == nonce@);
        let bytes = match open(&self.key, &n, ciphertext) {
            Some(b) => b,
            None => {
                return Err(SecretCryptoError);
            },
        };
        match utf8_text(bytes) {
            Some(s) => Ok(s),
            None => Err(SecretCryptoError),
        }
    }
}

/// What an encryption gives back when it is decrypted with the same key and
/// nonce: exactly the endpoint that was encrypted.
pub proof fn encrypted_endpoint_round_trips(key: Seq<u8>, nonce: Seq<u8>, endpoint: Seq<char>)
    requires
        aes_gcm_open(key, nonce, aes_gcm_seal(key, nonce, encode_utf8(endpoint))) == Some(encode_utf8(endpoint)),
    ensures
        aes_gcm_open(key, nonce, aes_gcm_seal(key, nonce, encode_utf8(endpoint))) matches Some(p) && valid_utf8(p)
            && decode_utf8(p) == endpoint,
{
    vstd::utf8::encode_utf8_valid_utf8(endpoint);
    vstd::utf8::encode_utf8_decode_utf8(endpoint);
}

/// Chooses the RPC endpoint of a route: an encrypted endpoint needs the
/// deployment's cipher; a route without ciphertext and nonce uses its
/// plaintext endpoint.
pub fn route_endpoint(
    ciphertext: Option<&[u8]>,
    nonce: Option<&[u8]>,
    cipher: Option<&RouteSecretCipher>,
    plaintext: Option<&str>,
) -> (r: Result<String, &'static str>)
    ensures
        match (ciphertext, nonce, cipher) {
            (Some(c), Some(n), Some(k)) => (r is Ok <==> (n@.len() == 12 && (aes_gcm_open(k.key(), n@, c@) matches Some(p)
                && valid_utf8(p)))) && match r {
                Ok(s) => n@.len() == 12 && (aes_gcm_open(k.key(), n@, c@) matches Some(p) && s@ == decode_utf8(p)),
                Err(e) => e@ == "rpc endpoint decryption failed"@,
            },
            (None, None, _) => match plaintext {
                Some(p) => r matches Ok(s) && s@ == p@,
                None => r matches Err(e) && e@ == "configured route has no endpoint"@,
            },
            _ => r matches Err(e) && e@ == "encrypted RPC route requires route secret key"@,
        },
{
    match (ciphertext, nonce, cipher) {
        (Some(c), Some(n), Some(k)) => match k.decrypt(c, n) {
            Ok(s) => Ok(s),
            Err(_) => Err("rpc endpoint decryption failed"),
        },
        (None, None, _) => match plaintext {
            Some(p) => Ok(crate::text::owned(p)),
            None => Err("configured route has no endpoint"),
        },
        _ => Err("encrypted RPC route requires route secret key"),
    }
}

} // verus!
