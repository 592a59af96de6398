//! The sealed format of stored API keys: AES-256-GCM, written as
//! `base64(nonce).base64(ciphertext).base64(tag)`.
//!
//! The key file is read and written by the application.
use vstd::prelude::*;
use vstd::utf8::{valid_utf8, decode_utf8, encode_utf8};
use aes_gcm::aead::{Aead, AeadCore, KeyInit, OsRng};
use rand_core::RngCore;
use crate::text::{append_chars, chars_of, decimal, decimal_chars, split_chars, split_on, string_of};

verus! {

broadcast use vstd::utf8::group_utf8_lib;

/// Errors of the key box.
#[derive(Debug)]
pub enum CryptoError {
    AesError(String),
    EncodingError(String),
    IoError(String),
    InvalidKeyLength,
    Other(String),
}

#[verifier::external_type_specification]
#[verifier::external_body]
pub struct ExAeadError(aes_gcm::Error);

// ---------------------------------------------------------------------------
// Outside functions
// ---------------------------------------------------------------------------

/// The characters of the standard base64 alphabet with padding.
pub open spec fn is_base64_char(c: char) -> bool {
    ('A' <= c && c <= 'Z') || ('a' <= c && c <= 'z') || ('0' <= c && c <= '9') || c == '+' || c
        == '/' || c == '='
}

/// What `data_encoding::BASE64.encode` returns for the given bytes.
pub uninterp spec fn spec_base64_encode(bytes: Seq<u8>) -> Seq<char>;

/// What `data_encoding::BASE64.decode` returns for the bytes of the given text
/// (`None` for a decoding error).
pub uninterp spec fn spec_base64_decode(text: Seq<char>) -> Option<Seq<u8>>;

/// `data_encoding::BASE64.encode`. The result uses only the base64 alphabet
/// and decodes back to the input, as the crate documents for its encodings.
#[verifier::external_body]
fn base64_encode(bytes: &[u8]) -> (r: String)
    ensures
        r@ == spec_base64_encode(bytes@),
        spec_base64_decode(r@) == Some(bytes@),
        forall|i: int| 0 <= i < r@.len() ==> is_base64_char(#[trigger] r@[i]),
{
    data_encoding::BASE64.encode(bytes)
}

/// `data_encoding::BASE64.decode` of the bytes of a text. A character
/// outside the alphabet (and `=`) is refused as an invalid symbol.
#[verifier::external_body]
fn base64_decode(text: &str) -> (r: Option<Vec<u8>>)
    ensures
        r is Some <==> spec_base64_decode(text@) is Some,
        (exists|i: int| 0 <= i < text@.len() && !is_base64_char(#[trigger] text@[i])) ==> r is None,
        r matches Some(v) ==> Some(v@) == spec_base64_decode(text@),
{
    data_encoding::BASE64.decode(text.as_bytes()).ok()
}

/// What AES-256-GCM sealing returns: ciphertext followed by the 16-byte tag.
pub uninterp spec fn spec_aes_seal(key: Seq<u8>, nonce: Seq<u8>, plaintext: Seq<u8>) -> Seq<u8>;

/// What AES-256-GCM opening returns (`None` when authentication fails).
pub uninterp spec fn spec_aes_open(key: Seq<u8>, nonce: Seq<u8>, sealed: Seq<u8>) -> Option<
    Seq<u8>,
>;

/// `Aes256Gcm::generate_nonce` with the operating system's generator,
/// followed by `Aead::encrypt`. The nonce is random and 12 bytes long; the
/// sealed text is the ciphertext followed by a 16-byte tag, and opening it
/// with the same key and nonce gives back the plaintext. Sealing refuses only
/// a plaintext longer than `P_MAX` (2^36 bytes); a 32-byte key is always
/// accepted.
#[verifier::external_body]
fn aes_seal(key: &[u8], plaintext: &[u8]) -> (r: Result<(Vec<u8>, Vec<u8>), aes_gcm::Error>)
    requires
        key@.len() == 32,
    ensures
        plaintext@.len() <= 68719476736 ==> r is Ok,
        r matches Ok((nonce, sealed)) ==> {
            &&& nonce@.len() == 12
            &&& sealed@ == spec_aes_seal(key@, nonce@, plaintext@)
            &&& sealed@.len() == plaintext@.len() + 16
            &&& spec_aes_open(key@, nonce@, sealed@) == Some(plaintext@)
        },
{
    let cipher = aes_gcm::Aes256Gcm::new_from_slice(key).map_err(|_| aes_gcm::Error)?;
    let nonce = aes_gcm::Aes256Gcm::generate_nonce(&mut OsRng);
    let sealed = cipher.encrypt(&nonce, plaintext)?;
    Ok((nonce.to_vec(), sealed))
}

/// `Aead::decrypt` of AES-256-GCM.
#[verifier::external_body]
fn aes_open(key: &[u8], nonce: &[u8], sealed: &[u8]) -> (r: Result<Vec<u8>, aes_gcm::Error>)
    requires
        key@.len() == 32,
        nonce@.len() == 12,
    ensures
        r is Ok <==> spec_aes_open(key@, nonce@, sealed@) is Some,
        r matches Ok(v) ==> Some(v@) == spec_aes_open(key@, nonce@, sealed@),
{
    let cipher = aes_gcm::Aes256Gcm::new_from_slice(key).map_err(|_| aes_gcm::Error)?;
    cipher.decrypt(aes_gcm::Nonce::from_slice(nonce), sealed)
}

/// The text of an `aead::Error`, which its `Display` writes as "aead::Error".
#[verifier::external_body]
fn aead_error_text(e: &aes_gcm::Error) -> (s: String)
    ensures
        s@ == "aead::Error"@,
{
    e.to_string()
}

/// 32 bytes from the operating system's random generator (`OsRng::fill_bytes`).
#[verifier::external_body]
fn random_key() -> (k: Vec<u8>)
    ensures
        k@.len() == 32,
{
    let mut key = [0u8; 32];
    OsRng.fill_bytes(&mut key);
    key.to_vec()
}

/// `String::from_utf8`; the error carries the `Display` text of the failure.
#[verifier::external_body]
pub(crate) fn utf8_string(bytes: Vec<u8>) -> (r: Result<String, String>)
    ensures
        r is Ok <==> valid_utf8(bytes@),
        r matches Ok(s) ==> s@ == decode_utf8(bytes@),
{
    String::from_utf8(bytes).map_err(|e| e.to_string())
}

/// The UTF-8 bytes of a text (`str::as_bytes`).
pub(crate) fn utf8_bytes(s: &str) -> (b: Vec<u8>)
    ensures
        b@ == encode_utf8(s@),
{
    let bytes = s.as_bytes();
    let mut v: Vec<u8> = Vec::new();
    let mut i: usize = 0;
    while i < bytes.len()
        invariant
            i <= bytes@.len(),
            v@ == bytes@.take(i as int),
        decreases bytes@.len() - i,
    {
        v.push(bytes[i]);
        assert(bytes@.take(i + 1) =~= bytes@.take(i as int).push(bytes@[i as int]));
        i = i + 1;
    }
    assert(bytes@.take(bytes@.len() as int) =~= bytes@);
    v
}

// ---------------------------------------------------------------------------
// The format
// ---------------------------------------------------------------------------

/// How reading a sealed text ends.
pub enum Unsealed {
    Plain(Seq<char>),
    BadFormat,
    BadNonceEncoding,
    BadCiphertextEncoding,
    BadTagEncoding,
    BadNonceLength(nat),
    BadTagLength(nat),
    Rejected,
    BadUtf8,
}

/// Reading a sealed text with a key, step by step as `decrypt` does.
pub open spec fn spec_unseal(key: Seq<u8>, text: Seq<char>) -> Unsealed {
    let parts = split_on(text, '.');
    if parts.len() != 3 {
        Unsealed::BadFormat
    } else {
        match spec_base64_decode(parts[0]) {
            None => Unsealed::BadNonceEncoding,
            Some(nonce) => match spec_base64_decode(parts[1]) {
                None => Unsealed::BadCiphertextEncoding,
                Some(ct) => match spec_base64_decode(parts[2]) {
                    None => Unsealed::BadTagEncoding,
                    Some(tag) => if nonce.len() != 12 {
                        Unsealed::BadNonceLength(nonce.len())
                    } else if tag.len() != 16 {
                        Unsealed::BadTagLength(tag.len())
                    } else {
                        match spec_aes_open(key, nonce, ct + tag) {
                            None => Unsealed::Rejected,
                            Some(bytes) => if valid_utf8(bytes) {
                                Unsealed::Plain(decode_utf8(bytes))
                            } else {
                                Unsealed::BadUtf8
                            },
                        }
                    },
                },
            },
        }
    }
}

/// A text has the sealed shape: three dot-separated parts, each valid base64.
pub open spec fn spec_is_sealed(text: Seq<char>) -> bool {
    let parts = split_on(text, '.');
    parts.len() == 3 && (forall|i: int|
        0 <= i < 3 ==> (#[trigger] spec_base64_decode(parts[i])) is Some)
}

pub open spec fn bad_format_message() -> Seq<char> {
    "无效的加密字符串格式"@
}

/// The message of a failed read, for each way of failing.
pub open spec fn unseal_message(u: Unsealed) -> Seq<char> {
    match u {
        Unsealed::BadFormat => bad_format_message(),
        Unsealed::BadNonceEncoding => "无效的nonce编码"@,
        Unsealed::BadCiphertextEncoding => "无效的密文编码"@,
        Unsealed::BadTagEncoding => "无效的标签编码"@,
        Unsealed::BadNonceLength(n) => "无效的nonce长度，预期12字节，实际"@ + decimal(n) + "字节"@,
        Unsealed::BadTagLength(n) => "无效的标签长度，预期16字节，实际"@ + decimal(n) + "字节"@,
        _ => Seq::empty(),
    }
}

/// The written form of a sealed message: the nonce, the ciphertext (all but
/// the last 16 bytes) and the tag (the last 16 bytes), each in base64,
/// joined by dots.
pub open spec fn spec_sealed_text(nonce: Seq<u8>, sealed: Seq<u8>) -> Seq<char> {
    let n = sealed.len() - 16;
    spec_base64_encode(nonce) + seq!['.'] + spec_base64_encode(sealed.take(n)) + seq!['.']
        + spec_base64_encode(sealed.skip(n))
}

/// A text of three dot-separated parts whose base64 contents have the given
/// lengths.
pub open spec fn sealed_lengths(text: Seq<char>, nonce_len: nat, ct_len: nat, tag_len: nat) -> bool {
    let parts = split_on(text, '.');
    &&& parts.len() == 3
    &&& spec_base64_decode(parts[0]) matches Some(n) && n.len() == nonce_len
    &&& spec_base64_decode(parts[1]) matches Some(c) && c.len() == ct_len
    &&& spec_base64_decode(parts[2]) matches Some(t) && t.len() == tag_len
}

/// Writes a nonce and sealed bytes (ciphertext followed by a 16-byte tag) in
/// the sealed format.
pub fn seal_text(nonce: &[u8], sealed: &[u8]) -> (r: String)
    requires
        sealed@.len() >= 16,
    ensures
        r@ == spec_sealed_text(nonce@, sealed@),
        split_on(r@, '.') == seq![
            spec_base64_encode(nonce@),
            spec_base64_encode(sealed@.take(sealed@.len() - 16)),
            spec_base64_encode(sealed@.skip(sealed@.len() - 16)),
        ],
        spec_base64_decode(split_on(r@, '.')[0]) == Some(nonce@),
        spec_base64_decode(split_on(r@, '.')[1]) == Some(sealed@.take(sealed@.len() - 16)),
        spec_base64_decode(split_on(r@, '.')[2]) == Some(sealed@.skip(sealed@.len() - 16)),
{
    let n = sealed.len();
    let mut ct: Vec<u8> = Vec::new();
    let mut tag: Vec<u8> = Vec::new();
    let mut i: usize = 0;
    while i < n
        invariant
            n == sealed@.len(),
            n >= 16,
            i <= n,
            i <= n - 16 ==> ct@ == sealed@.take(i as int) && tag@.len() == 0,
            i > n - 16 ==> ct@ == sealed@.take(n - 16) && tag@ == sealed@.subrange(
                n - 16,
                i as int,
            ),
        decreases n - i,
    {
        if i < n - 16 {
            ct.push(sealed[i]);
            assert(sealed@.take(i + 1) =~= sealed@.take(i as int).push(sealed@[i as int]));
        } else {
            tag.push(sealed[i]);
            assert(sealed@.subrange(n - 16, i + 1) =~= sealed@.subrange(
                n - 16,
                i as int,
            ).push(sealed@[i as int]));
        }
        i = i + 1;
    }
    assert(tag@ =~= sealed@.skip(n - 16));
    let a = base64_encode(nonce);
    let b = base64_encode(ct.as_slice());
    let c = base64_encode(tag.as_slice());
    let mut out: Vec<char> = chars_of(a.as_str());
    out.push('.');
    let bc = chars_of(b.as_str());
    append_chars(&mut out, bc.as_slice());
    out.push('.');
    let cc = chars_of(c.as_str());
    append_chars(&mut out, cc.as_slice());
    proof {
        assert(out@ =~= a@ + seq!['.'] + b@ + seq!['.'] + c@);
        assert(!a@.contains('.'));
        assert(!b@.contains('.'));
        assert(!c@.contains('.'));
        crate::text::lemma_split_three(a@, b@, c@, '.');
        let parts = split_on(out@, '.');
        assert(parts == seq![a@, b@, c@]);
        assert(parts[0] == a@ && parts[1] == b@ && parts[2] == c@);
    }
    string_of(out.as_slice())
}

impl Clone for CryptoError {
    fn clone(&self) -> (r: Self)
        ensures
            r == *self,
    {
        match self {
            CryptoError::AesError(m) => CryptoError::AesError(m.clone()),
            CryptoError::EncodingError(m) => CryptoError::EncodingError(m.clone()),
            CryptoError::IoError(m) => CryptoError::IoError(m.clone()),
            CryptoError::InvalidKeyLength => CryptoError::InvalidKeyLength,
            CryptoError::Other(m) => CryptoError::Other(m.clone()),
        }
    }
}

/// The API-key box.
#[derive(Debug)]
pub struct CryptoManager {
    encryption_key: Vec<u8>,
}

impl CryptoManager {
    pub closed spec fn key(&self) -> Seq<u8> {
        self.encryption_key@
    }

    /// A key box for the stored key, or for a fresh random key when none is
    /// stored; a stored key must be 32 bytes long.
    pub fn new(stored_key: Option<Vec<u8>>) -> (r: Result<Self, CryptoError>)
        ensures
            stored_key matches Some(k) ==> (k@.len() == 32 <==> r is Ok),
            stored_key matches Some(k) ==> (k@.len() != 32 ==> (r matches Err(
                CryptoError::EncodingError(m),
            ) && m@ == "密钥文件内容无效，长度不正确"@)),
            stored_key matches Some(k) ==> (k@.len() == 32 ==> (r matches Ok(c) && c.key() == k@)),
            stored_key is None ==> (r matches Ok(c) && c.key().len() == 32),
            r matches Ok(c) ==> c.wf(),
    {
        match stored_key {
            Some(k) => {
                if k.len() != 32 {
                    return Err(
                        CryptoError::EncodingError(String::from_str("密钥文件内容无效，长度不正确")),
                    );
                }
                Ok(CryptoManager { encryption_key: k })
            },
            None => Ok(CryptoManager { encryption_key: random_key() }),
        }
    }

    /// The key, to be written to the key file.
    pub fn key_bytes(&self) -> (k: Vec<u8>)
        ensures
            k@ == self.key(),
    {
        self.encryption_key.clone()
    }

    /// The key box is usable: its key is 32 bytes long.
    pub closed spec fn wf(&self) -> bool {
        self.encryption_key@.len() == 32
    }

    /// Seals a text under a fresh random nonce. Every text of at most 2^36
    /// bytes is sealed; what is returned is the sealed form of the text under
    /// some 12-byte nonce, reads back as the same text, and has the sealed
    /// shape, with a ciphertext as long as the text's bytes and a 16-byte tag.
    pub fn encrypt(&self, plaintext: &str) -> (r: Result<String, CryptoError>)
        requires
            self.wf(),
        ensures
            encode_utf8(plaintext@).len() <= 68719476736 ==> r is Ok,
            r matches Ok(s) ==> exists|nonce: Seq<u8>|
                nonce.len() == 12 && s@ == #[trigger] spec_sealed_text(
                    nonce,
                    spec_aes_seal(self.key(), nonce, encode_utf8(plaintext@)),
                ),
            r matches Ok(s) ==> spec_unseal(self.key(), s@) == Unsealed::Plain(plaintext@)
                && spec_is_sealed(s@),
            r matches Ok(s) ==> sealed_lengths(s@, 12, encode_utf8(plaintext@).len(), 16),
            r matches Err(e) ==> (e matches CryptoError::AesError(m) && m@ == "aead::Error"@),
    {
        let pt = utf8_bytes(plaintext);
        match aes_seal(self.encryption_key.as_slice(), pt.as_slice()) {
            Err(e) => Err(CryptoError::AesError(aead_error_text(&e))),
            Ok((nonce, sealed)) => {
                let out = seal_text(nonce.as_slice(), sealed.as_slice());
                proof {
                    let n = (sealed@.len() - 16) as int;
                    assert(sealed@.take(n) + sealed@.skip(n) =~= sealed@);
                    assert(spec_sealed_text(nonce@, spec_aes_seal(self.key(), nonce@, encode_utf8(plaintext@))) == out@);
                }
                Ok(out)
            },
        }
    }

    /// Reads a sealed text back: its plaintext, or the reason it cannot be read.
    pub fn decrypt(&self, encrypted_str: &str) -> (r: Result<String, CryptoError>)
        requires
            self.wf(),
        ensures
            spec_unseal(self.key(), encrypted_str@) matches Unsealed::Plain(p) ==> (r matches Ok(
                s,
            ) && s@ == p),
            r is Ok ==> spec_unseal(self.key(), encrypted_str@) is Plain,
            ({
                let u = spec_unseal(self.key(), encrypted_str@);
                (u is BadFormat || u is BadNonceEncoding || u is BadCiphertextEncoding
                    || u is BadTagEncoding || u is BadNonceLength || u is BadTagLength) ==> (
                r matches Err(CryptoError::EncodingError(m)) && m@ == unseal_message(u))
            }),
            spec_unseal(self.key(), encrypted_str@) is Rejected ==> (r matches Err(
                CryptoError::AesError(m),
            ) && m@ == "aead::Error"@),
            spec_unseal(self.key(), encrypted_str@) is BadUtf8 ==> (r matches Err(
                CryptoError::EncodingError(_),
            )),
    {
        let text = chars_of(encrypted_str);
        let parts = split_chars(text.as_slice(), '.');
        if parts.len() != 3 {
            return Err(CryptoError::EncodingError(String::from_str("无效的加密字符串格式")));
        }
        let p0 = string_of(parts[0].as_slice());
        let p1 = string_of(parts[1].as_slice());
        let p2 = string_of(parts[2].as_slice());
        assert(p0@ == split_on(encrypted_str@, '.')[0]);
        assert(p1@ == split_on(encrypted_str@, '.')[1]);
        assert(p2@ == split_on(encrypted_str@, '.')[2]);
        let nonce = match base64_decode(p0.as_str()) {
            Some(v) => v,
            None => {
                return Err(CryptoError::EncodingError(String::from_str("无效的nonce编码")));
            },
        };
        let ciphertext = match base64_decode(p1.as_str()) {
            Some(v) => v,
            None => {
                return Err(CryptoError::EncodingError(String::from_str("无效的密文编码")));
            },
        };
        let tag = match base64_decode(p2.as_str()) {
            Some(v) => v,
            None => {
                return Err(CryptoError::EncodingError(String::from_str("无效的标签编码")));
            },
        };
        if nonce.len() != 12 {
            let mut m = chars_of("无效的nonce长度，预期12字节，实际");
            let d = decimal_chars(nonce.len());
            append_chars(&mut m, d.as_slice());
            let tail = chars_of("字节");
            append_chars(&mut m, tail.as_slice());
            return Err(CryptoError::EncodingError(string_of(m.as_slice())));
        }
        if tag.len() != 16 {
            let mut m = chars_of("无效的标签长度，预期16字节，实际");
            let d = decimal_chars(tag.len());
            append_chars(&mut m, d.as_slice());
            let tail = chars_of("字节");
            append_chars(&mut m, tail.as_slice());
            return Err(CryptoError::EncodingError(string_of(m.as_slice())));
        }
        let mut combined: Vec<u8> = Vec::new();
        let mut i: usize = 0;
        while i < ciphertext.len()
            invariant
                i <= ciphertext@.len(),
                combined@ == ciphertext@.take(i as int),
            decreases ciphertext@.len() - i,
        {
            combined.push(ciphertext[i]);
            assert(ciphertext@.take(i + 1) =~= ciphertext@.take(i as int).push(ciphertext@[i as int]));
            i = i + 1;
        }
        let mut j: usize = 0;
        while j < tag.len()
            invariant
                j <= tag@.len(),
                combined@ == ciphertext@ + tag@.take(j as int),
            decreases tag@.len() - j,
        {
            combined.push(tag[j]);
            assert(tag@.take(j + 1) =~= tag@.take(j as int).push(tag@[j as int]));
            j = j + 1;
        }
        assert(tag@.take(tag@.len() as int) =~= tag@);
        assert(ciphertext@.take(ciphertext@.len() as int) =~= ciphertext@);
        let plain = match aes_open(self.encryption_key.as_slice(), nonce.as_slice(), combined.as_slice()) {
            Ok(v) => v,
            Err(e) => {
                return Err(CryptoError::AesError(aead_error_text(&e)));
            },
        };
        match utf8_string(plain) {
            Ok(s) => Ok(s),
            Err(detail) => {
                let mut m = chars_of("无效的UTF-8数据: ");
                let d = chars_of(detail.as_str());
                append_chars(&mut m, d.as_slice());
                Err(CryptoError::EncodingError(string_of(m.as_slice())))
            },
        }
    }

    /// Whether a text has the sealed shape.
    pub fn is_encrypted(&self, data: &str) -> (r: bool)
        ensures
            r == spec_is_sealed(data@),
    {
        let text = chars_of(data);
        let parts = split_chars(text.as_slice(), '.');
        if parts.len() != 3 {
            return false;
        }
        let mut i: usize = 0;
        while i < 3
            invariant
                parts@.len() == 3,
                split_on(data@, '.').len() == 3,
                i <= 3,
                forall|k: int| 0 <= k < 3 ==> #[trigger] parts@[k]@ == split_on(data@, '.')[k],
                forall|k: int| 0 <= k < i ==> (#[trigger] spec_base64_decode(split_on(data@, '.')[k])) is Some,
            decreases 3 - i,
        {
            let p = string_of(parts[i].as_slice());
            if base64_decode(p.as_str()).is_none() {
                return false;
            }
            i = i + 1;
        }
        true
    }
}

} // verus!
