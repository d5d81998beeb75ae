//! Sealing single files.
//!
//! These functions work on the contents of one file and on a scheme file: a
//! registry with a single scheme, filed under the name of the file that it
//! seals. The file's name is the associated data of its ciphertext. Reading
//! and writing the files is the caller's part.

use crate::error::StoreError;
use crate::password::{json_object_entries, serialized, Password, PasswordEntries};
use crate::pbes::{
    decrypted, derived_key, encrypted, fresh_scheme, fresh_seal_refused, nonce_follows,
    opened_length, outcome_view, renonced_seal_refused, usable_key, with_nonce, EncryptionScheme,
    SchemeView,
};
use crate::registry::{lemma_load_inverts_save, loaded, saved, SchemeRegistry};
use vstd::prelude::*;
use vstd::string::StringSliceAdditionalSpecFns;

verus! {

/// The registry that holds one scheme under one name.
pub open spec fn single(file: Seq<char>, scheme: SchemeView) -> Map<Seq<char>, SchemeView> {
    Map::<Seq<char>, SchemeView>::empty().insert(file, scheme)
}

/// The name of the entry file that is used where none is given.
pub open spec fn entry_file(file: Option<&str>) -> Seq<char> {
    match file {
        Some(name) => name@,
        None => "passwords.json"@,
    }
}

/// The entry file for a store: the name to write to (`passwords.json` where
/// none is given) and the contents.
pub fn write_to_file(file: Option<&str>, entries: &PasswordEntries) -> (r: Result<
    (String, Vec<u8>),
    StoreError,
>)
    requires
        entries.wf(),
    ensures
        match r {
            Ok((name, bytes)) => name@ == entry_file(file) && serialized(entries@) == Some(bytes@),
            Err(e) => e == StoreError::SerializationError && serialized(entries@) is None,
        },
{
    let name = match file {
        Some(name) => name.to_owned(),
        None => "passwords.json".to_owned(),
    };
    match entries.serialize() {
        Ok(bytes) => Ok((name, bytes)),
        Err(e) => Err(e),
    }
}

/// The store that the contents of an entry file hold.
pub fn read_from_file(contents: &[u8]) -> (r: Result<PasswordEntries, StoreError>)
    ensures
        match r {
            Ok(entries) => entries.wf() && json_object_entries(contents@) == Some(entries@),
            Err(e) => e == StoreError::SerializationError && json_object_entries(contents@) is None,
        },
{
    PasswordEntries::deserialize(contents)
}

/// The scheme file for a scheme.
pub fn save_to_der(file: &str, scheme: &EncryptionScheme) -> (r: Result<Vec<u8>, StoreError>)
    requires
        scheme.wf(),
    ensures
        match r {
            Ok(bytes) => saved(single(file@, scheme@)) == Some(bytes@),
            Err(e) => e == StoreError::SerializationError && saved(single(file@, scheme@)) is None,
        },
{
    let mut registry = SchemeRegistry::new();
    registry.insert(file, scheme.duplicate());
    registry.save_scheme_registry()
}

/// Some new scheme has no scheme file under the name.
pub open spec fn fresh_scheme_unsaved(file: Seq<char>) -> bool {
    exists|scheme: SchemeView| fresh_scheme(scheme) && #[trigger] saved(single(file, scheme)) is None
}

/// Some new scheme seals the contents but has no scheme file under the name.
pub open spec fn fresh_seal_unsaved(password: Seq<u8>, file: Seq<char>, contents: Seq<u8>) -> bool {
    exists|scheme: SchemeView|
        fresh_scheme(scheme) && encrypted(
            scheme,
            password,
            contents,
            vstd::utf8::encode_utf8(file),
        ) is Ok && #[trigger] saved(single(file, scheme)) is None
}

/// A new scheme with the standard parameters, and its scheme file. The only
/// failure is that the scheme that was drawn has no scheme file.
pub fn create_and_save_to_der(file: &str) -> (r: Result<(EncryptionScheme, Vec<u8>), StoreError>)
    ensures
        match r {
            Ok((scheme, bytes)) => scheme.wf() && fresh_scheme(scheme@) && saved(
                single(file@, scheme@),
            ) == Some(bytes@),
            Err(e) => e == StoreError::SerializationError && fresh_scheme_unsaved(file@),
        },
{
    let scheme = EncryptionScheme::default();
    match save_to_der(file, &scheme) {
        Ok(bytes) => Ok((scheme, bytes)),
        Err(e) => Err(e),
    }
}

/// Seals the contents of a file under a new scheme and returns the scheme
/// with the ciphertext.
pub fn encrypt_file(password: &str, file: &str, contents: &[u8]) -> (r: Result<
    (EncryptionScheme, Vec<u8>),
    StoreError,
>)
    ensures
        match r {
            Ok((scheme, ciphertext)) => scheme.wf() && fresh_scheme(scheme@) && encrypted(
                scheme@,
                password.spec_bytes(),
                contents@,
                file.spec_bytes(),
            ) == Ok::<Seq<u8>, StoreError>(ciphertext@),
            Err(e) => (e == StoreError::KeyDerivationError || e == StoreError::EncryptionError)
                && fresh_seal_refused(password.spec_bytes(), contents@, file.spec_bytes(), e),
        },
{
    let scheme = EncryptionScheme::default();
    match scheme.encrypt_file(password, file, contents) {
        Ok(ciphertext) => Ok((scheme, ciphertext)),
        Err(e) => Err(e),
    }
}

/// Opens the contents of a file under a scheme.
pub fn decrypt_file(password: &str, file: &str, contents: &[u8], scheme: &EncryptionScheme) -> (r:
    Result<Vec<u8>, StoreError>)
    ensures
        outcome_view(r) == decrypted(scheme@, password.spec_bytes(), contents@, file.spec_bytes()),
        opened_length(r, contents@),
{
    scheme.decrypt_file(password, file, contents)
}

/// What `password_encrypt_file` hands out: the scheme file holds a scheme for
/// the file, and the ciphertext is the contents sealed under it.
pub open spec fn sealed_with_scheme_file(
    password: Seq<u8>,
    file: Seq<char>,
    contents: Seq<u8>,
    ciphertext: Seq<u8>,
    scheme_file: Seq<u8>,
) -> bool {
    match loaded(scheme_file) {
        Some(schemes) => schemes.dom().contains(file) && encrypted(
            schemes[file],
            password,
            contents,
            vstd::utf8::encode_utf8(file),
        ) == Ok::<Seq<u8>, StoreError>(ciphertext),
        None => false,
    }
}

/// Seals the contents of a file under a new scheme and returns the
/// ciphertext with the scheme file.
pub fn password_encrypt_file(password: &str, file: &str, contents: &[u8]) -> (r: Result<
    (Vec<u8>, Vec<u8>),
    StoreError,
>)
    ensures
        match r {
            Ok((ciphertext, scheme_file)) => sealed_with_scheme_file(
                password.spec_bytes(),
                file@,
                contents@,
                ciphertext@,
                scheme_file@,
            ),
            Err(e) => if e == StoreError::SerializationError {
                fresh_seal_unsaved(password.spec_bytes(), file@, contents@)
            } else {
                fresh_seal_refused(password.spec_bytes(), contents@, file.spec_bytes(), e)
            },
        },
{
    match encrypt_file(password, file, contents) {
        Err(e) => Err(e),
        Ok((scheme, ciphertext)) => match save_to_der(file, &scheme) {
            Err(e) => Err(e),
            Ok(scheme_file) => {
                proof {
                    assert(single(file@, scheme@).dom().contains(file@));
                    lemma_load_inverts_save(single(file@, scheme@), scheme_file@);
                }
                Ok((ciphertext, scheme_file))
            },
        },
    }
}

/// What `encrypt_from_der` hands out: the new scheme file is the old one
/// but for the scheme of the file, which has the nonce that follows its old
/// one, and the ciphertext is the contents sealed under that scheme.
pub open spec fn resealed_with_scheme_file(
    password: Seq<u8>,
    file: Seq<char>,
    contents: Seq<u8>,
    scheme_file: Seq<u8>,
    ciphertext: Seq<u8>,
    new_scheme_file: Seq<u8>,
) -> bool {
    match (loaded(scheme_file), loaded(new_scheme_file)) {
        (Some(before), Some(after)) => before.dom().contains(file) && after == before.insert(
            file,
            after[file],
        ) && after[file].kdf == before[file].kdf && after[file].salt == before[file].salt
            && nonce_follows(before[file].nonce, after[file].nonce) && after[file].nonce
            != before[file].nonce && encrypted(
            after[file],
            password,
            contents,
            vstd::utf8::encode_utf8(file),
        ) == Ok::<Seq<u8>, StoreError>(ciphertext),
        _ => false,
    }
}

/// The scheme of the file, with the nonce that follows its own, seals the
/// contents, but the schemes with that nonce in place have no scheme file.
pub open spec fn renonced_seal_unsaved(
    schemes: Map<Seq<char>, SchemeView>,
    password: Seq<u8>,
    file: Seq<char>,
    contents: Seq<u8>,
) -> bool {
    exists|nonce: Seq<u8>|
        nonce_follows(schemes[file].nonce, nonce) && nonce != schemes[file].nonce && encrypted(
            with_nonce(schemes[file], nonce),
            password,
            contents,
            vstd::utf8::encode_utf8(file),
        ) is Ok && #[trigger] saved(schemes.insert(file, with_nonce(schemes[file], nonce)))
            is None
}

/// Why `encrypt_from_der` failed: the scheme file is none, it has no scheme
/// for the file, the key could not be derived, the cipher refused the
/// contents under the next nonce, or the new schemes have no scheme file.
pub open spec fn reseal_refused(
    password: Seq<u8>,
    file: Seq<char>,
    contents: Seq<u8>,
    scheme_file: Seq<u8>,
    e: StoreError,
) -> bool {
    match loaded(scheme_file) {
        None => e == StoreError::SerializationError,
        Some(schemes) => if schemes.dom().contains(file) {
            match usable_key(derived_key(schemes[file].kdf, schemes[file].salt, password)) {
                Err(k) => e == k,
                Ok(_) => if e == StoreError::SerializationError {
                    renonced_seal_unsaved(schemes, password, file, contents)
                } else {
                    e == StoreError::EncryptionError && renonced_seal_refused(
                        schemes[file],
                        password,
                        contents,
                        vstd::utf8::encode_utf8(file),
                        e,
                    )
                },
            }
        } else {
            e == StoreError::NotFound
        },
    }
}

/// What `decrypt_from_der` returns.
pub open spec fn decrypted_from(
    password: Seq<u8>,
    file: Seq<char>,
    contents: Seq<u8>,
    scheme_file: Seq<u8>,
) -> Result<Seq<u8>, StoreError> {
    match loaded(scheme_file) {
        None => Err(StoreError::SerializationError),
        Some(schemes) => if schemes.dom().contains(file) {
            decrypted(schemes[file], password, contents, vstd::utf8::encode_utf8(file))
        } else {
            Err(StoreError::NotFound)
        },
    }
}

/// Seals the contents of a file under the scheme that the scheme file holds
/// for it, under the nonce that follows the one it had, and returns the
/// ciphertext with the scheme file that holds the new nonce.
pub fn encrypt_from_der(password: &str, file: &str, contents: &[u8], scheme_file: &[u8]) -> (r:
    Result<(Vec<u8>, Vec<u8>), StoreError>)
    ensures
        match r {
            Ok((ciphertext, new_scheme_file)) => resealed_with_scheme_file(
                password.spec_bytes(),
                file@,
                contents@,
                scheme_file@,
                ciphertext@,
                new_scheme_file@,
            ),
            Err(e) => reseal_refused(password.spec_bytes(), file@, contents@, scheme_file@, e),
        },
{
    let mut registry = match SchemeRegistry::load_scheme_registry(scheme_file) {
        Err(e) => {
            return Err(e);
        },
        Ok(registry) => registry,
    };
    let mut fresh = match registry.get(file) {
        None => {
            return Err(StoreError::NotFound);
        },
        Some(scheme) => scheme.duplicate(),
    };
    let ciphertext = match fresh.encrypt_fresh(password, contents, file.as_bytes()) {
        Err(e) => {
            return Err(e);
        },
        Ok(ciphertext) => ciphertext,
    };
    registry.insert(file, fresh);
    match registry.save_scheme_registry() {
        Err(e) => Err(e),
        Ok(new_scheme_file) => {
            proof {
                registry.lemma_sound();
                lemma_load_inverts_save(registry@, new_scheme_file@);
            }
            Ok((ciphertext, new_scheme_file))
        },
    }
}

/// Opens the contents of a file under the scheme that the scheme file holds
/// for it.
pub fn decrypt_from_der(password: &str, file: &str, contents: &[u8], scheme_file: &[u8]) -> (r:
    Result<Vec<u8>, StoreError>)
    ensures
        outcome_view(r) == decrypted_from(password.spec_bytes(), file@, contents@, scheme_file@),
        opened_length(r, contents@),
{
    match SchemeRegistry::load_scheme_registry(scheme_file) {
        Err(e) => Err(e),
        Ok(registry) => match registry.get(file) {
            None => Err(StoreError::NotFound),
            Some(scheme) => scheme.decrypt_file(password, file, contents),
        },
    }
}

/// What `password_encrypt_file` sealed, `decrypt_from_der` opens again with
/// the same password and scheme file.
pub proof fn lemma_scheme_file_round_trip(
    password: Seq<u8>,
    file: Seq<char>,
    contents: Seq<u8>,
    ciphertext: Seq<u8>,
    scheme_file: Seq<u8>,
)
    requires
        sealed_with_scheme_file(password, file, contents, ciphertext, scheme_file),
    ensures
        decrypted_from(password, file, ciphertext, scheme_file) == Ok::<Seq<u8>, StoreError>(
            contents,
        ),
{
}

impl Password {
    /// Seals the contents of a file with this secret as the password, under a
    /// new scheme.
    pub fn encrypt_with_password(&self, file: &str, contents: &[u8]) -> (r: Result<
        (EncryptionScheme, Vec<u8>),
        StoreError,
    >)
        ensures
            match r {
                Ok((scheme, ciphertext)) => scheme.wf() && fresh_scheme(scheme@) && encrypted(
                    scheme@,
                    vstd::utf8::encode_utf8(self@),
                    contents@,
                    file.spec_bytes(),
                ) == Ok::<Seq<u8>, StoreError>(ciphertext@),
                Err(e) => (e == StoreError::KeyDerivationError || e == StoreError::EncryptionError)
                    && fresh_seal_refused(
                    vstd::utf8::encode_utf8(self@),
                    contents@,
                    file.spec_bytes(),
                    e,
                ),
            },
    {
        encrypt_file(self.get(), file, contents)
    }
}

} // verus!
