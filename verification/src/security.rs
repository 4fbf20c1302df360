//! Sealed storage: data encrypted under a 256-bit master key, laid out as
//! a 12-byte nonce followed by the ciphertext with its tag.
//!
//! The store frames and checks bytes; reading and writing the file, and
//! keeping the master key in the platform's keyring, is the caller's part.

use vstd::prelude::*;
use vstd::slice::slice_subrange;
use chacha20poly1305::aead::{Aead, KeyInit};
use rand::RngCore;

verus! {

/// The length of a master key, in bytes.
pub const KEY_LEN: usize = 32;

/// The length of the nonce that a sealed file begins with, in bytes.
pub const NONCE_LEN: usize = 12;

/// The length of the tag that ends a ciphertext, in bytes.
pub const TAG_LEN: usize = 16;

/// Whether the cipher takes a plaintext of `len` bytes: it encrypts
/// fewer than 2^32 - 1 blocks of 64 bytes under one nonce.
pub open spec fn fits_cipher(len: nat) -> bool {
    len / 64 < 0xffff_ffff
}

/// The error of the cipher. It says nothing of its cause.
#[verifier::external_type_specification]
#[verifier::external_body]
pub struct ExCipherError(chacha20poly1305::Error);

/// The error of the hex decoder.
#[verifier::external_type_specification]
#[verifier::external_body]
pub struct ExFromHexError(hex::FromHexError);

/// What ChaCha20-Poly1305 encryption without associated data makes of a
/// plaintext: the ciphertext followed by its tag, or `None` where the
/// cipher refuses the plaintext.
pub uninterp spec fn chacha20poly1305_encrypted(
    key: Seq<u8>,
    nonce: Seq<u8>,
    plaintext: Seq<u8>,
) -> Option<Seq<u8>>;

/// What ChaCha20-Poly1305 decryption without associated data makes of a
/// ciphertext with its tag: the plaintext, or `None` where the tag does
/// not fit key, nonce and ciphertext.
pub uninterp spec fn chacha20poly1305_decrypted(
    key: Seq<u8>,
    nonce: Seq<u8>,
    ciphertext: Seq<u8>,
) -> Option<Seq<u8>>;

/// Why the store could not do what was asked.
#[derive(Clone, Copy, Debug, PartialEq, Eq, Structural)]
pub enum StoreError {
    /// There is no file to load.
    FileNotFound,
    /// The file is too short to begin with a nonce.
    InvalidDataFormat,
    /// The cipher refused to encrypt.
    Encryption,
    /// The file was not sealed under this key, or was changed since.
    Decryption,
    /// The stored key is not written in hexadecimal digits.
    InvalidKeyEncoding,
    /// The stored key does not have 32 bytes.
    InvalidKeyLength,
}

/// The value of a hexadecimal digit of either case.
pub open spec fn hex_value(c: char) -> Option<int> {
    if '0' <= c <= '9' {
        Some(c as int - '0' as int)
    } else if 'a' <= c <= 'f' {
        Some(c as int - 'a' as int + 10)
    } else if 'A' <= c <= 'F' {
        Some(c as int - 'A' as int + 10)
    } else {
        None
    }
}

/// The lower-case hexadecimal digit of a value below 16.
pub open spec fn hex_digit(value: int) -> char {
    if value < 10 {
        (value + '0' as int) as char
    } else {
        (value - 10 + 'a' as int) as char
    }
}

/// Bytes written as lower-case hexadecimal digits, two for each byte,
/// the high half first.
pub open spec fn hex_encoded(bytes: Seq<u8>) -> Seq<char> {
    Seq::new(
        2 * bytes.len(),
        |i: int|
            if i % 2 == 0 {
                hex_digit(bytes[i / 2] as int / 16)
            } else {
                hex_digit(bytes[i / 2] as int % 16)
            },
    )
}

/// Whether a text is made of hexadecimal digits, an even number of them.
pub open spec fn is_hex(text: Seq<char>) -> bool {
    text.len() % 2 == 0 && forall|i: int| 0 <= i < text.len() ==> hex_value(#[trigger] text[i]) is Some
}

/// The bytes that a text of hexadecimal digits stands for, `None` where
/// the text is not one.
pub open spec fn hex_decoded(text: Seq<char>) -> Option<Seq<u8>> {
    if is_hex(text) {
        Some(
            Seq::new(
                text.len() / 2,
                |i: int| (16 * hex_value(text[2 * i])->0 + hex_value(text[2 * i + 1])->0) as u8,
            ),
        )
    } else {
        None
    }
}

/// Decoding undoes encoding.
pub proof fn lemma_hex_round_trip(bytes: Seq<u8>)
    ensures
        hex_decoded(hex_encoded(bytes)) == Some(bytes),
        hex_encoded(bytes).len() == 2 * bytes.len(),
{
    let text = hex_encoded(bytes);
    assert forall|v: int| 0 <= v < 16 implies hex_value(#[trigger] hex_digit(v)) == Some(v) by {}
    assert forall|i: int| 0 <= i < text.len() implies hex_value(#[trigger] text[i]) is Some by {
        let b = bytes[i / 2] as int;
        assert(0 <= b / 16 < 16 && 0 <= b % 16 < 16);
    }
    assert(is_hex(text));
    let back = hex_decoded(text)->0;
    assert forall|i: int| 0 <= i < bytes.len() implies back[i] == bytes[i] by {
        let b = bytes[i] as int;
        assert((2 * i) / 2 == i && (2 * i) % 2 == 0);
        assert((2 * i + 1) / 2 == i && (2 * i + 1) % 2 == 1);
        assert(0 <= b / 16 < 16 && 0 <= b % 16 < 16);
        assert(text[2 * i] == hex_digit(b / 16));
        assert(text[2 * i + 1] == hex_digit(b % 16));
        assert(16 * (b / 16) + b % 16 == b);
    }
    assert(back =~= bytes);
}

/// The file that sealing `data` under `key` with `nonce` gives: the nonce,
/// then the ciphertext with its tag.
pub open spec fn sealed_file(key: Seq<u8>, nonce: Seq<u8>, data: Seq<u8>) -> Option<Seq<u8>> {
    match chacha20poly1305_encrypted(key, nonce, data) {
        Some(ciphertext) => Some(nonce + ciphertext),
        None => None,
    }
}

/// What loading gives for the content of a file, `None` where there is
/// no file.
pub open spec fn opened_file(key: Seq<u8>, file: Option<Seq<u8>>) -> Result<Seq<u8>, StoreError> {
    match file {
        None => Err(StoreError::FileNotFound),
        Some(bytes) => if bytes.len() < NONCE_LEN {
            Err(StoreError::InvalidDataFormat)
        } else {
            match chacha20poly1305_decrypted(
                key,
                bytes.subrange(0, NONCE_LEN as int),
                bytes.subrange(NONCE_LEN as int, bytes.len() as int),
            ) {
                Some(data) => Ok(data),
                None => Err(StoreError::Decryption),
            }
        },
    }
}

/// Calls `encrypt` of the `Aead` trait on a `ChaCha20Poly1305` cipher
/// made from `key`, with no associated data. Trusted: the result is a
/// function of key, nonce and plaintext alone; the cipher refuses a
/// plaintext only for its length; the ciphertext is as long as the
/// plaintext and its tag of 16 bytes; and what was encrypted decrypts to
/// the plaintext under the same key and nonce.
#[verifier::external_body]
fn cipher_encrypt(key: &[u8; 32], nonce: &[u8], plaintext: &[u8]) -> (out: Result<
    Vec<u8>,
    chacha20poly1305::Error,
>)
    requires
        nonce@.len() == NONCE_LEN,
    ensures
        out matches Ok(ciphertext) ==> chacha20poly1305_encrypted(key@, nonce@, plaintext@) == Some(
            ciphertext@,
        ) && chacha20poly1305_decrypted(key@, nonce@, ciphertext@) == Some(plaintext@),
        out is Err ==> chacha20poly1305_encrypted(key@, nonce@, plaintext@) is None,
        out matches Ok(ciphertext) ==> ciphertext@.len() == plaintext@.len() + TAG_LEN,
        out is Ok <==> fits_cipher(plaintext@.len()),
{
    let cipher = chacha20poly1305::ChaCha20Poly1305::new(chacha20poly1305::Key::from_slice(key));
    cipher.encrypt(chacha20poly1305::Nonce::from_slice(nonce), plaintext)
}

/// Calls `decrypt` of the `Aead` trait on a `ChaCha20Poly1305` cipher
/// made from `key`, with no associated data. Trusted: the result is a
/// function of key, nonce and ciphertext alone, and a ciphertext too
/// short to end with a tag is refused.
#[verifier::external_body]
fn cipher_decrypt(key: &[u8; 32], nonce: &[u8], ciphertext: &[u8]) -> (out: Result<
    Vec<u8>,
    chacha20poly1305::Error,
>)
    requires
        nonce@.len() == NONCE_LEN,
    ensures
        out matches Ok(plaintext) ==> chacha20poly1305_decrypted(key@, nonce@, ciphertext@) == Some(
            plaintext@,
        ),
        out is Err ==> chacha20poly1305_decrypted(key@, nonce@, ciphertext@) is None,
        ciphertext@.len() < TAG_LEN ==> out is Err,
{
    let cipher = chacha20poly1305::ChaCha20Poly1305::new(chacha20poly1305::Key::from_slice(key));
    cipher.decrypt(chacha20poly1305::Nonce::from_slice(nonce), ciphertext)
}

/// Fills an array with `fill_bytes` of `rand::thread_rng()`. Nothing is
/// known of the bytes. The generator panics if the operating system has
/// no entropy for it when a thread first uses it.
#[verifier::external_body]
fn random_bytes<const N: usize>() -> (bytes: [u8; N]) {
    let mut bytes = [0u8; N];
    rand::thread_rng().fill_bytes(&mut bytes);
    bytes
}

/// Calls `hex::encode`. Trusted: the text holds two lower-case digits for
/// each byte, the high half first.
#[verifier::external_body]
fn hex_encode(bytes: &[u8]) -> (text: String)
    ensures
        text@ == hex_encoded(bytes@),
{
    hex::encode(bytes)
}

/// Calls `hex::decode`. Trusted: a text of an even number of hexadecimal
/// digits of either case gives the bytes they stand for, any other text
/// an error.
#[verifier::external_body]
fn hex_decode(text: &str) -> (out: Result<Vec<u8>, hex::FromHexError>)
    ensures
        out matches Ok(bytes) ==> hex_decoded(text@) == Some(bytes@),
        out is Err ==> hex_decoded(text@) is None,
{
    hex::decode(text)
}

impl StoreError {
    /// The words for the error.
    pub fn message(&self) -> (text: String)
        ensures
            text@ == match *self {
                StoreError::FileNotFound => "File not found"@,
                StoreError::InvalidDataFormat => "Invalid data format"@,
                StoreError::Encryption => "aead::Error"@,
                StoreError::Decryption => "aead::Error"@,
                StoreError::InvalidKeyEncoding => "Invalid key encoding"@,
                StoreError::InvalidKeyLength => "Invalid key length"@,
            },
    {
        match self {
            StoreError::FileNotFound => "File not found".to_owned(),
            StoreError::InvalidDataFormat => "Invalid data format".to_owned(),
            StoreError::Encryption => "aead::Error".to_owned(),
            StoreError::Decryption => "aead::Error".to_owned(),
            StoreError::InvalidKeyEncoding => "Invalid key encoding".to_owned(),
            StoreError::InvalidKeyLength => "Invalid key length".to_owned(),
        }
    }
}

/// A store that seals data under one master key.
pub struct EncryptedStore {
    key: [u8; 32],
}

impl EncryptedStore {
    /// The master key.
    pub closed spec fn key(self) -> Seq<u8> {
        self.key@
    }

    /// A store with a given key.
    pub fn new_test(key: [u8; 32]) -> (store: EncryptedStore)
        ensures
            store.key() == key@,
    {
        EncryptedStore { key }
    }

    /// A fresh master key of random bytes, in the hexadecimal form in
    /// which it is kept in the keyring: 64 lower-case digits that
    /// [`EncryptedStore::from_key_hex`] accepts.
    pub fn generate_key_hex() -> (text: String)
        ensures
            text@.len() == 2 * KEY_LEN,
            hex_decoded(text@) matches Some(key) && key.len() == KEY_LEN,
            exists|key: Seq<u8>| key.len() == KEY_LEN && text@ == #[trigger] hex_encoded(key),
    {
        let key: [u8; 32] = random_bytes::<32>();
        proof {
            lemma_hex_round_trip(key@);
        }
        hex_encode(key.as_slice())
    }

    /// A store whose key is given in hexadecimal digits.
    pub fn from_key_hex(text: &str) -> (out: Result<EncryptedStore, StoreError>)
        ensures
            match out {
                Ok(store) => hex_decoded(text@) == Some(store.key()),
                Err(e) => match hex_decoded(text@) {
                    None => e == StoreError::InvalidKeyEncoding,
                    Some(bytes) => bytes.len() != KEY_LEN && e == StoreError::InvalidKeyLength,
                },
            },
    {
        match hex_decode(text) {
            Err(_) => Err(StoreError::InvalidKeyEncoding),
            Ok(bytes) => {
                if bytes.len() != 32 {
                    return Err(StoreError::InvalidKeyLength);
                }
                let mut key: [u8; 32] = [0u8; 32];
                let mut i: usize = 0;
                while i < 32
                    invariant
                        i <= 32,
                        bytes.len() == 32,
                        forall|j: int| 0 <= j < i ==> key@[j] == bytes@[j],
                    decreases 32 - i,
                {
                    key[i] = bytes[i];
                    i = i + 1;
                }
                assert(key@ =~= bytes@);
                Ok(EncryptedStore { key })
            },
        }
    }

    /// Seals `data` with a given nonce of 12 bytes.
    pub fn seal_with_nonce(&self, nonce: &[u8; 12], data: &[u8]) -> (out: Result<
        Vec<u8>,
        StoreError,
    >)
        ensures
            match out {
                Ok(file) => sealed_file(self.key(), nonce@, data@) == Some(file@) && opened_file(
                    self.key(),
                    Some(file@),
                ) == Ok::<Seq<u8>, StoreError>(data@),
                Err(e) => sealed_file(self.key(), nonce@, data@) is None && e
                    == StoreError::Encryption,
            },
            out is Ok <==> fits_cipher(data@.len()),
            out matches Ok(file) ==> file@.len() == data@.len() + NONCE_LEN + TAG_LEN,
    {
        match cipher_encrypt(&self.key, nonce.as_slice(), data) {
            Err(_) => Err(StoreError::Encryption),
            Ok(ciphertext) => {
                let mut file: Vec<u8> = Vec::new();
                let mut i: usize = 0;
                while i < 12
                    invariant
                        i <= 12,
                        file@ == nonce@.subrange(0, i as int),
                    decreases 12 - i,
                {
                    file.push(nonce[i]);
                    i = i + 1;
                }
                assert(file@ == nonce@);
                let mut j: usize = 0;
                while j < ciphertext.len()
                    invariant
                        j <= ciphertext.len(),
                        file@ == nonce@ + ciphertext@.subrange(0, j as int),
                    decreases ciphertext.len() - j,
                {
                    file.push(ciphertext[j]);
                    j = j + 1;
                }
                proof {
                    assert(ciphertext@.subrange(0, ciphertext.len() as int) == ciphertext@);
                    assert(file@.subrange(0, NONCE_LEN as int) == nonce@);
                    assert(file@.subrange(NONCE_LEN as int, file@.len() as int) == ciphertext@);
                }
                Ok(file)
            },
        }
    }

    /// Seals `data` for writing to a file: a fresh random nonce, then the
    /// ciphertext with its tag, 28 bytes more than the data.
    /// [`EncryptedStore::load`] gives the data back from it. Only data
    /// too long for the cipher is refused.
    pub fn save(&self, data: &[u8]) -> (out: Result<Vec<u8>, StoreError>)
        ensures
            match out {
                Ok(file) => opened_file(self.key(), Some(file@)) == Ok::<Seq<u8>, StoreError>(data@)
                    && exists|nonce: Seq<u8>|
                    nonce.len() == NONCE_LEN && #[trigger] sealed_file(self.key(), nonce, data@)
                        == Some(file@),
                Err(e) => e == StoreError::Encryption && exists|nonce: Seq<u8>|
                    nonce.len() == NONCE_LEN && #[trigger] sealed_file(self.key(), nonce, data@)
                        is None,
            },
            out is Ok <==> fits_cipher(data@.len()),
            out matches Ok(file) ==> file@.len() == data@.len() + NONCE_LEN + TAG_LEN,
    {
        let nonce: [u8; 12] = random_bytes::<12>();
        self.seal_with_nonce(&nonce, data)
    }

    /// Opens the content of a sealed file; `None` stands for a file that
    /// does not exist.
    pub fn load(&self, file: Option<&[u8]>) -> (out: Result<Vec<u8>, StoreError>)
        ensures
            match out {
                Ok(data) => opened_file(
                    self.key(),
                    match file {
                        Some(bytes) => Some(bytes@),
                        None => None,
                    },
                ) == Ok::<Seq<u8>, StoreError>(data@),
                Err(e) => opened_file(
                    self.key(),
                    match file {
                        Some(bytes) => Some(bytes@),
                        None => None,
                    },
                ) == Err::<Seq<u8>, StoreError>(e),
            },
    {
        match file {
            None => Err(StoreError::FileNotFound),
            Some(bytes) => {
                if bytes.len() < 12 {
                    return Err(StoreError::InvalidDataFormat);
                }
                let nonce = slice_subrange(bytes, 0, 12);
                let ciphertext = slice_subrange(bytes, 12, bytes.len());
                match cipher_decrypt(&self.key, nonce, ciphertext) {
                    Ok(data) => Ok(data),
                    Err(_) => Err(StoreError::Decryption),
                }
            },
        }
    }
}

} // verus!
