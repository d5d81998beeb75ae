//! Password-based encryption of a module's entry file.
//!
//! A scheme holds what is needed to derive the key again from a later
//! password attempt: the Argon2 parameters, the salt and the nonce. Neither
//! the password nor the key is ever part of it. The key comes from Argon2,
//! the sealing from ChaCha20-Poly1305 with the file's identity as associated
//! data.
//!
//! A new scheme starts with a random nonce. Each time contents are sealed
//! again under a scheme, the counter in the first eight bytes of the nonce
//! goes up by one and the last four bytes are drawn anew, so that the nonces
//! of one scheme never repeat.

use crate::error::StoreError;
use argon2::PasswordHasher;
use chacha20poly1305::aead::{Aead, AeadCore, KeyInit};
use vstd::prelude::*;
use vstd::string::StringSliceAdditionalSpecFns;

verus! {

/// The error type of `password_hash`; carried through, never inspected.
#[verifier::external_type_specification]
#[verifier::external_body]
pub struct ExPasswordHashError(password_hash::Error);

/// The error type of the AEAD; carried through, never inspected.
#[verifier::external_type_specification]
#[verifier::external_body]
pub struct ExAeadError(chacha20poly1305::aead::Error);

/// The hash that Argon2, set up with the named algorithm, version number and
/// cost parameters, gives for the password under the salt (in its textual
/// form), or `None` where any of them is rejected.
pub uninterp spec fn argon2_hash(
    algorithm: Seq<char>,
    version: u32,
    m_cost: u32,
    t_cost: u32,
    p_cost: u32,
    output_len: u32,
    salt: Seq<char>,
    password: Seq<u8>,
) -> Option<Seq<u8>>;

/// The ciphertext with its tag that ChaCha20-Poly1305 produces, or `None`
/// where it refuses the message.
pub uninterp spec fn chacha20poly1305_sealed(
    key: Seq<u8>,
    nonce: Seq<u8>,
    aad: Seq<u8>,
    plaintext: Seq<u8>,
) -> Option<Seq<u8>>;

/// The plaintext that ChaCha20-Poly1305 recovers, or `None` where the tag does
/// not verify.
pub uninterp spec fn chacha20poly1305_opened(
    key: Seq<u8>,
    nonce: Seq<u8>,
    aad: Seq<u8>,
    ciphertext: Seq<u8>,
) -> Option<Seq<u8>>;

/// The length of a ChaCha20-Poly1305 key.
pub const KEY_LEN: usize = 32;

/// The length of a ChaCha20-Poly1305 nonce.
pub const NONCE_LEN: usize = 12;

/// The length of the counter at the head of a nonce.
pub const COUNTER_LEN: usize = 8;

/// The length of the tag that ChaCha20-Poly1305 puts behind the ciphertext.
pub const TAG_LEN: usize = 16;

/// The largest degree of parallelism that Argon2 accepts.
pub const MAX_P_COST: u32 = 0x00FF_FFFF;

/// The variant of Argon2.
#[derive(Clone, Copy, Debug, PartialEq, Eq, Structural)]
pub enum KdfAlgorithm {
    Argon2d,
    Argon2i,
    Argon2id,
}

/// The version of Argon2.
#[derive(Clone, Copy, Debug, PartialEq, Eq, Structural)]
pub enum KdfVersion {
    V0x10,
    V0x13,
}

/// What fixes the key derivation apart from salt and password.
#[derive(Clone, Copy, Debug, PartialEq, Eq, Structural)]
pub struct KdfParameters {
    pub algorithm: KdfAlgorithm,
    pub version: KdfVersion,
    /// Memory in KiB.
    pub m_cost: u32,
    /// Number of passes.
    pub t_cost: u32,
    /// Degree of parallelism.
    pub p_cost: u32,
    /// Length of the derived key in bytes.
    pub output_len: u32,
}

/// Whether two texts are the same.
pub fn text_eq(a: &str, b: &str) -> (r: bool)
    ensures
        r == (a@ == b@),
{
    a.to_owned() == b.to_owned()
}

/// Whether two byte strings are the same.
pub fn bytes_eq(a: &[u8], b: &[u8]) -> (r: bool)
    ensures
        r == (a@ == b@),
{
    if a.len() != b.len() {
        return false;
    }
    let mut i: usize = 0;
    while i < a.len()
        invariant
            i <= a@.len(),
            a@.len() == b@.len(),
            forall|k: int| 0 <= k < i ==> a@[k] == b@[k],
        decreases a@.len() - i,
    {
        if a[i] != b[i] {
            return false;
        }
        i += 1;
    }
    assert(a@ =~= b@);
    true
}

impl KdfAlgorithm {
    /// The identifier by which the algorithm is written down.
    pub open spec fn ident_text(self) -> Seq<char> {
        match self {
            KdfAlgorithm::Argon2d => "argon2d"@,
            KdfAlgorithm::Argon2i => "argon2i"@,
            KdfAlgorithm::Argon2id => "argon2id"@,
        }
    }

    /// The identifier by which the algorithm is written down.
    pub fn ident(&self) -> (text: &'static str)
        ensures
            text@ == self.ident_text(),
    {
        match self {
            KdfAlgorithm::Argon2d => "argon2d",
            KdfAlgorithm::Argon2i => "argon2i",
            KdfAlgorithm::Argon2id => "argon2id",
        }
    }

    /// The algorithm that an identifier names.
    pub open spec fn named(text: Seq<char>) -> Option<KdfAlgorithm> {
        if text == "argon2d"@ {
            Some(KdfAlgorithm::Argon2d)
        } else if text == "argon2i"@ {
            Some(KdfAlgorithm::Argon2i)
        } else if text == "argon2id"@ {
            Some(KdfAlgorithm::Argon2id)
        } else {
            None
        }
    }

    /// Reads an identifier.
    pub fn from_ident(text: &str) -> (r: Option<KdfAlgorithm>)
        ensures
            r == Self::named(text@),
    {
        if text_eq(text, "argon2d") {
            Some(KdfAlgorithm::Argon2d)
        } else if text_eq(text, "argon2i") {
            Some(KdfAlgorithm::Argon2i)
        } else if text_eq(text, "argon2id") {
            Some(KdfAlgorithm::Argon2id)
        } else {
            None
        }
    }

    /// Every algorithm is the one that its identifier names.
    pub proof fn lemma_ident_round_trip(self)
        ensures
            Self::named(self.ident_text()) == Some(self),
    {
        reveal_strlit("argon2d");
        reveal_strlit("argon2i");
        reveal_strlit("argon2id");
        assert("argon2d"@[6] != "argon2i"@[6]);
        assert("argon2d"@.len() != "argon2id"@.len());
        assert("argon2i"@.len() != "argon2id"@.len());
    }
}

impl KdfVersion {
    /// The number by which the version is written down.
    pub open spec fn number_of(self) -> u32 {
        match self {
            KdfVersion::V0x10 => 0x10,
            KdfVersion::V0x13 => 0x13,
        }
    }

    /// The number by which the version is written down.
    pub fn number(&self) -> (n: u32)
        ensures
            n == self.number_of(),
    {
        match self {
            KdfVersion::V0x10 => 0x10,
            KdfVersion::V0x13 => 0x13,
        }
    }

    /// The version that a number stands for.
    pub open spec fn numbered(n: u32) -> Option<KdfVersion> {
        if n == 0x10 {
            Some(KdfVersion::V0x10)
        } else if n == 0x13 {
            Some(KdfVersion::V0x13)
        } else {
            None
        }
    }

    /// Reads a version number.
    pub fn from_number(n: u32) -> (r: Option<KdfVersion>)
        ensures
            r == Self::numbered(n),
            r matches Some(v) ==> v.number_of() == n,
    {
        if n == 0x10 {
            Some(KdfVersion::V0x10)
        } else if n == 0x13 {
            Some(KdfVersion::V0x13)
        } else {
            None
        }
    }
}

impl KdfParameters {
    /// Argon2id, version 0x13, 19 MiB, two passes, one lane, a 32-byte key.
    pub open spec fn standard() -> KdfParameters {
        KdfParameters {
            algorithm: KdfAlgorithm::Argon2id,
            version: KdfVersion::V0x13,
            m_cost: 19456,
            t_cost: 2,
            p_cost: 1,
            output_len: 32,
        }
    }
}

impl Default for KdfParameters {
    fn default() -> (p: KdfParameters)
        ensures
            p == KdfParameters::standard(),
    {
        KdfParameters {
            algorithm: KdfAlgorithm::Argon2id,
            version: KdfVersion::V0x13,
            m_cost: 19456,
            t_cost: 2,
            p_cost: 1,
            output_len: 32,
        }
    }
}

/// What a scheme is, as plain values.
pub struct SchemeView {
    pub kdf: KdfParameters,
    pub salt: Seq<char>,
    pub nonce: Seq<u8>,
}

/// The key that a password gives under the parameters and the salt, or `None`
/// where the key derivation rejects them.
pub open spec fn derived_key(kdf: KdfParameters, salt: Seq<char>, password: Seq<u8>) -> Option<
    Seq<u8>,
> {
    if kdf.p_cost > MAX_P_COST {
        None
    } else {
        argon2_hash(
            kdf.algorithm.ident_text(),
            kdf.version.number_of(),
            kdf.m_cost,
            kdf.t_cost,
            kdf.p_cost,
            kdf.output_len,
            salt,
            password,
        )
    }
}

/// What the derivation gave, as a key for the cipher: a missing key is a
/// failure of the derivation, a key of the wrong length one of the cipher.
pub open spec fn usable_key(derived: Option<Seq<u8>>) -> Result<Seq<u8>, StoreError> {
    match derived {
        None => Err(StoreError::KeyDerivationError),
        Some(key) => if key.len() == KEY_LEN {
            Ok(key)
        } else {
            Err(StoreError::EncryptionError)
        },
    }
}

/// Key and nonce have the lengths that the cipher takes.
pub open spec fn cipher_ready(key: Seq<u8>, nonce: Seq<u8>) -> bool {
    key.len() == KEY_LEN && nonce.len() == NONCE_LEN
}

/// What sealing under a key gives: the ciphertext, provided that key and
/// nonce fit the cipher, that the cipher produced a ciphertext and that it
/// opens to the plaintext again.
pub open spec fn sealed_under(key: Seq<u8>, nonce: Seq<u8>, aad: Seq<u8>, plaintext: Seq<u8>) -> Result<
    Seq<u8>,
    StoreError,
> {
    if !cipher_ready(key, nonce) {
        Err(StoreError::EncryptionError)
    } else {
        match chacha20poly1305_sealed(key, nonce, aad, plaintext) {
            None => Err(StoreError::EncryptionError),
            Some(ciphertext) => if chacha20poly1305_opened(key, nonce, aad, ciphertext) == Some(
                plaintext,
            ) {
                Ok(ciphertext)
            } else {
                Err(StoreError::EncryptionError)
            },
        }
    }
}

/// What opening under a key gives: the plaintext, or an authentication
/// failure; where key or nonce do not fit the cipher, a failure of the
/// cipher.
pub open spec fn opened_under(key: Seq<u8>, nonce: Seq<u8>, aad: Seq<u8>, ciphertext: Seq<u8>) -> Result<
    Seq<u8>,
    StoreError,
> {
    if !cipher_ready(key, nonce) {
        Err(StoreError::EncryptionError)
    } else {
        match chacha20poly1305_opened(key, nonce, aad, ciphertext) {
            None => Err(StoreError::AuthenticationError),
            Some(plaintext) => Ok(plaintext),
        }
    }
}

/// What `encrypt` returns.
pub open spec fn encrypted(scheme: SchemeView, password: Seq<u8>, plaintext: Seq<u8>, aad: Seq<u8>) -> Result<
    Seq<u8>,
    StoreError,
> {
    match usable_key(derived_key(scheme.kdf, scheme.salt, password)) {
        Err(e) => Err(e),
        Ok(key) => sealed_under(key, scheme.nonce, aad, plaintext),
    }
}

/// What `decrypt` returns.
pub open spec fn decrypted(scheme: SchemeView, password: Seq<u8>, ciphertext: Seq<u8>, aad: Seq<u8>) -> Result<
    Seq<u8>,
    StoreError,
> {
    match usable_key(derived_key(scheme.kdf, scheme.salt, password)) {
        Err(e) => Err(e),
        Ok(key) => opened_under(key, scheme.nonce, aad, ciphertext),
    }
}

/// What a new scheme looks like: the standard parameters, a salt of 22
/// characters and a nonce of the cipher's length.
pub open spec fn fresh_scheme(scheme: SchemeView) -> bool {
    scheme.kdf == KdfParameters::standard() && scheme.salt.len() == 22 && scheme.nonce.len()
        == NONCE_LEN
}

/// The scheme with another nonce.
pub open spec fn with_nonce(scheme: SchemeView, nonce: Seq<u8>) -> SchemeView {
    SchemeView { kdf: scheme.kdf, salt: scheme.salt, nonce }
}

/// Sealing was tried under some new scheme and gave this error.
pub open spec fn fresh_seal_refused(
    password: Seq<u8>,
    plaintext: Seq<u8>,
    aad: Seq<u8>,
    e: StoreError,
) -> bool {
    exists|scheme: SchemeView|
        fresh_scheme(scheme) && #[trigger] encrypted(scheme, password, plaintext, aad) == Err::<
            Seq<u8>,
            StoreError,
        >(e)
}

/// Sealing was tried under the scheme with a nonce that follows its own and
/// gave this error.
pub open spec fn renonced_seal_refused(
    scheme: SchemeView,
    password: Seq<u8>,
    plaintext: Seq<u8>,
    aad: Seq<u8>,
    e: StoreError,
) -> bool {
    exists|nonce: Seq<u8>|
        nonce_follows(scheme.nonce, nonce) && nonce != scheme.nonce && #[trigger] encrypted(
            with_nonce(scheme, nonce),
            password,
            plaintext,
            aad,
        ) == Err::<Seq<u8>, StoreError>(e)
}

/// An outcome with its bytes as a sequence.
pub open spec fn outcome_view(r: Result<Vec<u8>, StoreError>) -> Result<Seq<u8>, StoreError> {
    match r {
        Ok(bytes) => Ok(bytes@),
        Err(e) => Err(e),
    }
}

/// A ciphertext that was handed out is the plaintext's length and a tag long.
pub open spec fn sealed_length(r: Result<Vec<u8>, StoreError>, plaintext: Seq<u8>) -> bool {
    match r {
        Ok(ciphertext) => ciphertext@.len() == plaintext.len() + TAG_LEN,
        Err(_) => true,
    }
}

/// A plaintext that was handed out is a tag shorter than the ciphertext, so
/// nothing is handed out for a ciphertext that is too short to hold a tag.
pub open spec fn opened_length(r: Result<Vec<u8>, StoreError>, ciphertext: Seq<u8>) -> bool {
    match r {
        Ok(plaintext) => plaintext@.len() + TAG_LEN == ciphertext.len(),
        Err(_) => true,
    }
}

/// `argon2::Argon2::hash_password`, on an `Argon2` made by `Argon2::new` from
/// `Algorithm::new`, `Version::try_from` and `Params::new`, with the salt read
/// by `Salt::from_b64`: the raw hash, or the error of whichever step refused.
/// The bound on `p_cost` keeps `Params::new` from overflowing. The call
/// allocates `m_cost` KiB of memory.
#[verifier::external_body]
fn argon2_derive(
    algorithm: &str,
    version: u32,
    m_cost: u32,
    t_cost: u32,
    p_cost: u32,
    output_len: u32,
    salt: &str,
    password: &[u8],
) -> (r: Result<Vec<u8>, password_hash::Error>)
    requires
        p_cost <= MAX_P_COST,
    ensures
        match r {
            Ok(key) => argon2_hash(
                algorithm@,
                version,
                m_cost,
                t_cost,
                p_cost,
                output_len,
                salt@,
                password@,
            ) == Some(key@),
            Err(_) => argon2_hash(
                algorithm@,
                version,
                m_cost,
                t_cost,
                p_cost,
                output_len,
                salt@,
                password@,
            ) is None,
        },
{
    let algorithm = argon2::Algorithm::new(algorithm)?;
    let version = argon2::Version::try_from(version)?;
    let params = argon2::Params::new(m_cost, t_cost, p_cost, Some(output_len as usize))?;
    let salt = password_hash::Salt::from_b64(salt)?;
    let hash = argon2::Argon2::new(algorithm, version, params).hash_password(password, salt)?;
    Ok(hash.hash.ok_or(password_hash::Error::Crypto)?.as_bytes().to_vec())
}

/// `chacha20poly1305::ChaCha20Poly1305::encrypt`, on a cipher made by
/// `new_from_slice` from a key of 32 bytes, with a nonce of 12 bytes: the
/// ciphertext followed by its tag of 16 bytes, or the cipher's error.
#[verifier::external_body]
fn aead_seal(key: &[u8], nonce: &[u8], aad: &[u8], plaintext: &[u8]) -> (r: Result<
    Vec<u8>,
    chacha20poly1305::aead::Error,
>)
    requires
        key@.len() == KEY_LEN,
        nonce@.len() == NONCE_LEN,
    ensures
        match r {
            Ok(ciphertext) => chacha20poly1305_sealed(key@, nonce@, aad@, plaintext@) == Some(
                ciphertext@,
            ) && ciphertext@.len() == plaintext@.len() + TAG_LEN,
            Err(_) => chacha20poly1305_sealed(key@, nonce@, aad@, plaintext@) is None,
        },
{
    let cipher = chacha20poly1305::ChaCha20Poly1305::new_from_slice(key).map_err(|_| chacha20poly1305::aead::Error)?;
    let payload = chacha20poly1305::aead::Payload { msg: plaintext, aad };
    cipher.encrypt(chacha20poly1305::Nonce::from_slice(nonce), payload)
}

/// `chacha20poly1305::ChaCha20Poly1305::decrypt`, on a cipher made by
/// `new_from_slice` from a key of 32 bytes, with a nonce of 12 bytes: the
/// plaintext, which is the ciphertext without its tag of 16 bytes, or the
/// cipher's error where the tag does not verify; an input too short to hold
/// a tag is always refused.
#[verifier::external_body]
fn aead_open(key: &[u8], nonce: &[u8], aad: &[u8], ciphertext: &[u8]) -> (r: Result<
    Vec<u8>,
    chacha20poly1305::aead::Error,
>)
    requires
        key@.len() == KEY_LEN,
        nonce@.len() == NONCE_LEN,
    ensures
        match r {
            Ok(plaintext) => chacha20poly1305_opened(key@, nonce@, aad@, ciphertext@) == Some(
                plaintext@,
            ) && plaintext@.len() + TAG_LEN == ciphertext@.len(),
            Err(_) => chacha20poly1305_opened(key@, nonce@, aad@, ciphertext@) is None,
        },
{
    let cipher = chacha20poly1305::ChaCha20Poly1305::new_from_slice(key).map_err(|_| chacha20poly1305::aead::Error)?;
    let payload = chacha20poly1305::aead::Payload { msg: ciphertext, aad };
    cipher.decrypt(chacha20poly1305::Nonce::from_slice(nonce), payload)
}

/// `chacha20poly1305::ChaCha20Poly1305::generate_nonce` with the system's
/// random source: some twelve bytes.
#[verifier::external_body]
fn random_nonce() -> (nonce: Vec<u8>)
    ensures
        nonce@.len() == NONCE_LEN,
{
    chacha20poly1305::ChaCha20Poly1305::generate_nonce(&mut chacha20poly1305::aead::OsRng).to_vec()
}

/// `password_hash::SaltString::generate` with the system's random source:
/// sixteen random bytes in their textual form of 22 characters.
#[verifier::external_body]
fn random_salt() -> (salt: String)
    ensures
        salt@.len() == 22,
{
    password_hash::SaltString::generate(&mut chacha20poly1305::aead::OsRng).as_str().to_owned()
}

/// The persisted parameters of one module's encryption.
pub struct EncryptionScheme {
    pub kdf: KdfParameters,
    pub salt: String,
    pub nonce: Vec<u8>,
}

impl View for EncryptionScheme {
    type V = SchemeView;

    open spec fn view(&self) -> SchemeView {
        SchemeView { kdf: self.kdf, salt: self.salt@, nonce: self.nonce@ }
    }
}

impl Default for EncryptionScheme {
    /// A scheme with the standard parameters, a fresh salt and a fresh nonce.
    fn default() -> (scheme: EncryptionScheme)
        ensures
            scheme.wf(),
            scheme.kdf == KdfParameters::standard(),
            scheme.salt@.len() == 22,
            fresh_scheme(scheme@),
    {
        EncryptionScheme { kdf: KdfParameters::default(), salt: random_salt(), nonce: random_nonce() }
    }
}

impl EncryptionScheme {
    /// The nonce has the cipher's nonce length.
    pub open spec fn wf(&self) -> bool {
        self.nonce@.len() == NONCE_LEN
    }

    /// A second copy of the scheme.
    pub fn duplicate(&self) -> (copy: EncryptionScheme)
        ensures
            copy@ == self@,
            copy.wf() == self.wf(),
    {
        EncryptionScheme { kdf: self.kdf, salt: self.salt.clone(), nonce: self.nonce.clone() }
    }

    /// Whether two schemes agree in every field.
    pub fn same(&self, other: &EncryptionScheme) -> (r: bool)
        ensures
            r == (self@ == other@),
    {
        self.kdf.algorithm == other.kdf.algorithm && self.kdf.version == other.kdf.version
            && self.kdf.m_cost == other.kdf.m_cost && self.kdf.t_cost == other.kdf.t_cost
            && self.kdf.p_cost == other.kdf.p_cost && self.kdf.output_len == other.kdf.output_len
            && self.salt == other.salt && bytes_eq(self.nonce.as_slice(), other.nonce.as_slice())
    }

    /// Derives the key for a password.
    pub fn derive_key(&self, password: &str) -> (r: Result<Vec<u8>, StoreError>)
        ensures
            outcome_view(r) == usable_key(derived_key(self.kdf, self.salt@, password.spec_bytes())),
    {
        if self.kdf.p_cost > MAX_P_COST {
            return Err(StoreError::KeyDerivationError);
        }
        let derived = match argon2_derive(
            self.kdf.algorithm.ident(),
            self.kdf.version.number(),
            self.kdf.m_cost,
            self.kdf.t_cost,
            self.kdf.p_cost,
            self.kdf.output_len,
            self.salt.as_str(),
            password.as_bytes(),
        ) {
            Ok(key) => Some(key),
            Err(_) => None,
        };
        Self::key_from(derived)
    }

    /// Judges what the key derivation gave: no key is a failure of the
    /// derivation, a key that is not 32 bytes long a failure of the cipher.
    pub fn key_from(derived: Option<Vec<u8>>) -> (r: Result<Vec<u8>, StoreError>)
        ensures
            outcome_view(r) == usable_key(
                match derived {
                    Some(key) => Some(key@),
                    None => None,
                },
            ),
    {
        match derived {
            None => Err(StoreError::KeyDerivationError),
            Some(key) => {
                if key.len() == KEY_LEN {
                    Ok(key)
                } else {
                    Err(StoreError::EncryptionError)
                }
            },
        }
    }

    /// Seals the plaintext under a key and opens the result again, so that
    /// only a ciphertext that is known to decrypt is handed out. A key or a
    /// nonce of the wrong length is a failure of the cipher.
    pub fn seal_with_key(&self, key: &[u8], plaintext: &[u8], aad: &[u8]) -> (r: Result<
        Vec<u8>,
        StoreError,
    >)
        ensures
            outcome_view(r) == sealed_under(key@, self.nonce@, aad@, plaintext@),
            sealed_length(r, plaintext@),
    {
        if key.len() != KEY_LEN || self.nonce.len() != NONCE_LEN {
            return Err(StoreError::EncryptionError);
        }
        match aead_seal(key, self.nonce.as_slice(), aad, plaintext) {
            Err(_) => Err(StoreError::EncryptionError),
            Ok(ciphertext) => {
                let reopened = match aead_open(key, self.nonce.as_slice(), aad, ciphertext.as_slice()) {
                    Ok(bytes) => Some(bytes),
                    Err(_) => None,
                };
                Self::confirm_sealed(ciphertext, reopened, plaintext)
            },
        }
    }

    /// Accepts a ciphertext only if what it opened to is the plaintext.
    pub fn confirm_sealed(ciphertext: Vec<u8>, reopened: Option<Vec<u8>>, plaintext: &[u8]) -> (r:
        Result<Vec<u8>, StoreError>)
        ensures
            match r {
                Ok(accepted) => accepted == ciphertext && reopened.is_some() && reopened.unwrap()@
                    == plaintext@,
                Err(e) => e == StoreError::EncryptionError && !(reopened.is_some()
                    && reopened.unwrap()@ == plaintext@),
            },
    {
        match reopened {
            Some(bytes) => {
                if bytes_eq(bytes.as_slice(), plaintext) {
                    Ok(ciphertext)
                } else {
                    Err(StoreError::EncryptionError)
                }
            },
            None => Err(StoreError::EncryptionError),
        }
    }

    /// Opens a ciphertext under a key.
    pub fn open_with_key(&self, key: &[u8], ciphertext: &[u8], aad: &[u8]) -> (r: Result<
        Vec<u8>,
        StoreError,
    >)
        ensures
            outcome_view(r) == opened_under(key@, self.nonce@, aad@, ciphertext@),
            opened_length(r, ciphertext@),
    {
        if key.len() != KEY_LEN || self.nonce.len() != NONCE_LEN {
            return Err(StoreError::EncryptionError);
        }
        match aead_open(key, self.nonce.as_slice(), aad, ciphertext) {
            Ok(plaintext) => Ok(plaintext),
            Err(_) => Err(StoreError::AuthenticationError),
        }
    }

    /// Derives the key from the password and seals the plaintext, bound to
    /// the associated data, under the nonce that the scheme holds. To seal
    /// new contents under a scheme that has sealed before, use
    /// `encrypt_fresh`.
    pub fn encrypt(&self, password: &str, plaintext: &[u8], aad: &[u8]) -> (r: Result<
        Vec<u8>,
        StoreError,
    >)
        ensures
            outcome_view(r) == encrypted(self@, password.spec_bytes(), plaintext@, aad@),
            sealed_length(r, plaintext@),
    {
        match self.derive_key(password) {
            Err(e) => Err(e),
            Ok(key) => self.seal_with_key(key.as_slice(), plaintext, aad),
        }
    }

    /// Derives the key from the password and opens the ciphertext. A wrong
    /// password and an altered ciphertext both end in `AuthenticationError`.
    pub fn decrypt(&self, password: &str, ciphertext: &[u8], aad: &[u8]) -> (r: Result<
        Vec<u8>,
        StoreError,
    >)
        ensures
            outcome_view(r) == decrypted(self@, password.spec_bytes(), ciphertext@, aad@),
            opened_length(r, ciphertext@),
    {
        match self.derive_key(password) {
            Err(e) => Err(e),
            Ok(key) => self.open_with_key(key.as_slice(), ciphertext, aad),
        }
    }

    /// Replaces the nonce by the one that follows it: the counter in its
    /// first eight bytes goes up by one, the other four bytes are drawn anew.
    pub fn regenerate_nonce(&mut self)
        ensures
            final(self).wf(),
            nonce_follows(old(self).nonce@, final(self).nonce@),
            final(self).nonce@ != old(self).nonce@,
            final(self).kdf == old(self).kdf,
            final(self).salt == old(self).salt,
    {
        let drawn = random_nonce();
        self.nonce = Self::next_nonce(drawn.as_slice(), self.nonce.as_slice());
    }

    /// The nonce that follows the previous one, with its last four bytes
    /// taken from a nonce that was drawn.
    pub fn next_nonce(drawn: &[u8], previous: &[u8]) -> (nonce: Vec<u8>)
        requires
            drawn@.len() == NONCE_LEN,
        ensures
            nonce@ == nonce_after(drawn@, previous@),
            nonce_follows(previous@, nonce@),
            nonce@ != previous@,
    {
        let counter: u64 = if previous.len() >= COUNTER_LEN {
            vstd::bytes::u64_from_le_bytes(vstd::slice::slice_subrange(previous, 0, COUNTER_LEN))
        } else {
            0
        };
        let next: u64 = if counter == u64::MAX {
            0
        } else {
            counter + 1
        };
        let mut nonce = vstd::bytes::u64_to_le_bytes(next);
        let ghost head = nonce@;
        let mut i: usize = COUNTER_LEN;
        while i < NONCE_LEN
            invariant
                COUNTER_LEN <= i <= NONCE_LEN,
                drawn@.len() == NONCE_LEN,
                head.len() == COUNTER_LEN,
                nonce@ == head + drawn@.subrange(COUNTER_LEN as int, i as int),
            decreases NONCE_LEN - i,
        {
            nonce.push(drawn[i]);
            assert(nonce@ =~= head + drawn@.subrange(COUNTER_LEN as int, i + 1));
            i += 1;
        }
        proof {
            lemma_nonce_after(drawn@, previous@);
        }
        nonce
    }

    /// Seals the plaintext under the nonce that follows the one the scheme
    /// had, and keeps the new nonce in the scheme.
    pub fn encrypt_fresh(&mut self, password: &str, plaintext: &[u8], aad: &[u8]) -> (r: Result<
        Vec<u8>,
        StoreError,
    >)
        ensures
            final(self).wf(),
            nonce_follows(old(self).nonce@, final(self).nonce@),
            final(self).nonce@ != old(self).nonce@,
            final(self).kdf == old(self).kdf,
            final(self).salt == old(self).salt,
            final(self)@ == with_nonce(old(self)@, final(self).nonce@),
            outcome_view(r) == encrypted(final(self)@, password.spec_bytes(), plaintext@, aad@),
            sealed_length(r, plaintext@),
    {
        self.regenerate_nonce();
        self.encrypt(password, plaintext, aad)
    }

    /// Seals the contents of a file, bound to the file's name.
    pub fn encrypt_file(&self, password: &str, file: &str, contents: &[u8]) -> (r: Result<
        Vec<u8>,
        StoreError,
    >)
        ensures
            outcome_view(r) == encrypted(self@, password.spec_bytes(), contents@, file.spec_bytes()),
            sealed_length(r, contents@),
    {
        self.encrypt(password, contents, file.as_bytes())
    }

    /// Opens the contents of a file that was sealed under the file's name.
    pub fn decrypt_file(&self, password: &str, file: &str, contents: &[u8]) -> (r: Result<
        Vec<u8>,
        StoreError,
    >)
        ensures
            outcome_view(r) == decrypted(self@, password.spec_bytes(), contents@, file.spec_bytes()),
            opened_length(r, contents@),
    {
        self.decrypt(password, contents, file.as_bytes())
    }
}

/// The counter that a nonce carries in its first eight bytes, lowest byte
/// first; a nonce too short to carry one counts as zero.
pub open spec fn nonce_counter(nonce: Seq<u8>) -> u64 {
    if nonce.len() >= COUNTER_LEN {
        vstd::bytes::spec_u64_from_le_bytes(nonce.subrange(0, COUNTER_LEN as int))
    } else {
        0
    }
}

/// The counter after this one; the last is followed by the first.
pub open spec fn next_counter(counter: u64) -> u64 {
    if counter == u64::MAX {
        0
    } else {
        (counter + 1) as u64
    }
}

/// The nonce that follows the previous one: its counter is the next, its last
/// four bytes are those of the nonce that was drawn.
pub open spec fn nonce_after(drawn: Seq<u8>, previous: Seq<u8>) -> Seq<u8> {
    vstd::bytes::spec_u64_to_le_bytes(next_counter(nonce_counter(previous))) + drawn.subrange(
        COUNTER_LEN as int,
        NONCE_LEN as int,
    )
}

/// `next` is a nonce of the cipher's length whose counter is the one after
/// the counter of `previous`.
pub open spec fn nonce_follows(previous: Seq<u8>, next: Seq<u8>) -> bool {
    next.len() == NONCE_LEN && nonce_counter(next) == next_counter(nonce_counter(previous))
}

/// Every nonce of the sequence but the first follows the one before it: the
/// nonces that one scheme has held, version after version.
pub open spec fn nonce_chain(versions: Seq<Seq<u8>>) -> bool {
    forall|i: int|
        0 <= i && i + 1 < versions.len() ==> nonce_follows(#[trigger] versions[i], versions[i + 1])
}

/// The nonce after a previous one follows it and differs from it.
pub proof fn lemma_nonce_after(drawn: Seq<u8>, previous: Seq<u8>)
    requires
        drawn.len() == NONCE_LEN,
    ensures
        nonce_follows(previous, nonce_after(drawn, previous)),
        nonce_after(drawn, previous) != previous,
{
    vstd::bytes::lemma_auto_spec_u64_to_from_le_bytes();
    let next = next_counter(nonce_counter(previous));
    let head = vstd::bytes::spec_u64_to_le_bytes(next);
    let nonce = nonce_after(drawn, previous);
    assert(head.len() == 8);
    assert(nonce.subrange(0, COUNTER_LEN as int) =~= head);
    assert(nonce_counter(nonce) == next);
}

/// The counter that stands `steps` after a counter, for fewer than 2^64
/// steps: the sum, taken round once it passes the last counter.
pub open spec fn counter_after(counter: u64, steps: int) -> int {
    if counter + steps < 0x1_0000_0000_0000_0000 {
        counter + steps
    } else {
        counter + steps - 0x1_0000_0000_0000_0000
    }
}

/// In a chain of nonces the counter of each is the counter of the first,
/// advanced by its position.
pub proof fn lemma_chain_counter(versions: Seq<Seq<u8>>, k: int)
    requires
        nonce_chain(versions),
        versions.len() <= 0x1_0000_0000_0000_0000,
        0 <= k < versions.len(),
    ensures
        nonce_counter(versions[k]) as int == counter_after(nonce_counter(versions[0]), k),
    decreases k,
{
    if k > 0 {
        lemma_chain_counter(versions, k - 1);
        assert(nonce_follows(versions[k - 1], versions[k - 1 + 1]));
    }
}

/// However often a scheme is sealed under again, no nonce comes twice: of
/// the nonces that the scheme has held, version after version and no more
/// than 2^64 in all, any two differ. With the password, the parameters and
/// the salt unchanged, no pair of key and nonce is used twice.
pub proof fn lemma_nonces_never_repeat(versions: Seq<Seq<u8>>, i: int, j: int)
    requires
        nonce_chain(versions),
        versions.len() <= 0x1_0000_0000_0000_0000,
        0 <= i < j < versions.len(),
    ensures
        versions[i] != versions[j],
{
    lemma_chain_counter(versions, i);
    lemma_chain_counter(versions, j);
}

/// Whatever `encrypt` hands out, `decrypt` under the same scheme, password and
/// associated data turns back into the plaintext.
pub proof fn lemma_decrypt_inverts_encrypt(
    scheme: SchemeView,
    password: Seq<u8>,
    plaintext: Seq<u8>,
    aad: Seq<u8>,
    ciphertext: Seq<u8>,
)
    requires
        encrypted(scheme, password, plaintext, aad) == Ok::<Seq<u8>, StoreError>(ciphertext),
    ensures
        decrypted(scheme, password, ciphertext, aad) == Ok::<Seq<u8>, StoreError>(plaintext),
{
}

} // verus!
