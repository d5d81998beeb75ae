//! Modules and their lifecycle.
//!
//! A module is a named entry store that is either plaintext on disk or sealed
//! under a scheme. Its state says what is in memory: nothing while it is
//! locked, the entries (and, for a sealed module, the password that opened
//! them) while it is unlocked. Every transition is a function from the module
//! and the bytes read from disk to the next module and the bytes to write.
//! The associated data of a module's ciphertext is the module's name.

use crate::assoc::{assoc_put, assoc_take};
use crate::error::StoreError;
use crate::password::{json_object_entries, serialized, well_composed, Password, PasswordEntries};
use crate::pbes::{
    decrypted, derived_key, encrypted, fresh_seal_refused, nonce_follows, renonced_seal_refused,
    usable_key,
    EncryptionScheme, KdfParameters, SchemeView,
};
use vstd::prelude::*;
use vstd::utf8::encode_utf8;

verus! {

/// What of a module is in memory.
#[allow(inconsistent_fields)]
pub enum LockState {
    /// A new module that has no entry file yet.
    Unmanaged,
    /// No scheme; the entries are in memory once the entry file has been read.
    PlaintextUnlocked { entries: Option<PasswordEntries> },
    /// Sealed on disk, nothing in memory.
    Locked,
    /// Sealed on disk, entries in memory, with the password that opened them
    /// kept until the module is sealed again.
    Unlocked { entries: PasswordEntries, cached_password: String },
}

/// How the boundary layer should show a module.
#[derive(Clone, Copy, Debug, PartialEq, Eq, Structural)]
pub enum DisplayHint {
    Unlocked,
    Locked,
    Plaintext,
}

/// A named, independently lockable collection of entries.
pub struct Module {
    pub name: String,
    pub scheme: Option<EncryptionScheme>,
    pub lock_state: LockState,
}

/// Why sealing the entries of an unlocked module failed: they could not be
/// serialized, the key could not be derived, or else the serialized entries
/// were put to the cipher under the next nonce and the cipher refused.
pub open spec fn lock_failure(
    scheme: SchemeView,
    password: Seq<u8>,
    entries: Map<Seq<char>, Seq<char>>,
    aad: Seq<u8>,
    e: StoreError,
) -> bool {
    match serialized(entries) {
        None => e == StoreError::SerializationError,
        Some(text) => match usable_key(derived_key(scheme.kdf, scheme.salt, password)) {
            Err(k) => e == k,
            Ok(_) => e == StoreError::EncryptionError && renonced_seal_refused(
                scheme,
                password,
                text,
                aad,
                e,
            ),
        },
    }
}

/// The ciphertext is the entries, serialized and sealed under the scheme and
/// the password, bound to the associated data.
pub open spec fn seals(
    scheme: SchemeView,
    password: Seq<u8>,
    entries: Map<Seq<char>, Seq<char>>,
    aad: Seq<u8>,
    ciphertext: Seq<u8>,
) -> bool {
    match serialized(entries) {
        Some(text) => encrypted(scheme, password, text, aad) == Ok::<Seq<u8>, StoreError>(
            ciphertext,
        ),
        None => false,
    }
}

impl Module {
    /// A scheme is there exactly while the module is sealed, and what is in
    /// memory is well formed.
    pub open spec fn wf(&self) -> bool {
        match self.lock_state {
            LockState::Unmanaged => self.scheme is None,
            LockState::PlaintextUnlocked { entries } => self.scheme is None && match entries {
                Some(e) => e.wf(),
                None => true,
            },
            LockState::Locked => self.sound_scheme(),
            LockState::Unlocked { entries, cached_password } => self.sound_scheme() && entries.wf(),
        }
    }

    /// The module has a scheme, and its nonce has the right length.
    pub open spec fn sound_scheme(&self) -> bool {
        match self.scheme {
            Some(s) => s.wf(),
            None => false,
        }
    }

    /// The module has an entry file.
    pub open spec fn managed(&self) -> bool {
        !(self.lock_state is Unmanaged)
    }

    /// The entries that are in memory.
    pub open spec fn entries(&self) -> Option<Map<Seq<char>, Seq<char>>> {
        match self.lock_state {
            LockState::PlaintextUnlocked { entries: Some(e) } => Some(e@),
            LockState::Unlocked { entries, cached_password } => Some(entries@),
            _ => None,
        }
    }

    /// The store that is in memory.
    pub open spec fn store(&self) -> Option<PasswordEntries> {
        match self.lock_state {
            LockState::PlaintextUnlocked { entries: Some(e) } => Some(e),
            LockState::Unlocked { entries, cached_password } => Some(entries),
            _ => None,
        }
    }

    /// The rows of the store that is in memory, in display order.
    pub open spec fn rows(&self) -> Option<Seq<(Seq<char>, Seq<char>)>> {
        match self.store() {
            Some(e) => Some(e.pairs()),
            None => None,
        }
    }

    /// The password that is in memory.
    pub open spec fn cached(&self) -> Option<Seq<char>> {
        match self.lock_state {
            LockState::Unlocked { entries, cached_password } => Some(cached_password@),
            _ => None,
        }
    }

    /// Nothing of the module is in memory.
    pub open spec fn at_rest(&self) -> bool {
        self.entries() is None && self.cached() is None
    }

    /// How the module is shown.
    pub open spec fn hint(&self) -> DisplayHint {
        match self.lock_state {
            LockState::Locked => DisplayHint::Locked,
            LockState::Unlocked { entries, cached_password } => DisplayHint::Unlocked,
            _ => DisplayHint::Plaintext,
        }
    }

    /// The associated data of the module's ciphertext: its name.
    pub open spec fn aad(&self) -> Seq<u8> {
        encode_utf8(self.name@)
    }

    /// `create`: a new module gets its entries and its first entry file.
    pub open spec fn create_spec(
        before: Module,
        entries: PasswordEntries,
        after: Module,
        r: Result<Vec<u8>, StoreError>,
    ) -> bool {
        if before.managed() {
            after == before && r == Err::<Vec<u8>, StoreError>(StoreError::AlreadyExists)
        } else {
            match serialized(entries@) {
                None => after == before && r == Err::<Vec<u8>, StoreError>(
                    StoreError::SerializationError,
                ),
                Some(text) => after.name == before.name && after.scheme == before.scheme
                    && after.lock_state == (LockState::PlaintextUnlocked { entries: Some(entries) })
                    && match r {
                    Ok(bytes) => bytes@ == text,
                    Err(_) => false,
                },
            }
        }
    }

    /// `load_plaintext`: the entry file of a plaintext module is read.
    pub open spec fn load_plaintext_spec(
        before: Module,
        bytes: Seq<u8>,
        after: Module,
        r: Result<(), StoreError>,
    ) -> bool {
        match before.lock_state {
            LockState::PlaintextUnlocked { entries: None } => match json_object_entries(bytes) {
                None => after == before && r == Err::<(), StoreError>(
                    StoreError::SerializationError,
                ),
                Some(m) => r == Ok::<(), StoreError>(()) && after.name == before.name
                    && after.scheme == before.scheme && after.hint() == before.hint()
                    && after.entries() == Some(m),
            },
            LockState::PlaintextUnlocked { entries: Some(_) } => after == before && r == Ok::<
                (),
                StoreError,
            >(()),
            _ => after == before && r == Err::<(), StoreError>(StoreError::NotFound),
        }
    }

    /// `encrypt`: a plaintext module is sealed under a new scheme.
    pub open spec fn encrypt_spec(
        before: Module,
        password: Seq<char>,
        after: Module,
        r: Result<Vec<u8>, StoreError>,
    ) -> bool {
        match before.lock_state {
            LockState::PlaintextUnlocked { entries: Some(e) } => match r {
                Ok(ciphertext) => after.name == before.name && after.lock_state is Locked
                    && match after.scheme {
                    Some(s) => s.kdf == KdfParameters::standard() && seals(
                        s@,
                        encode_utf8(password),
                        e@,
                        before.aad(),
                        ciphertext@,
                    ),
                    None => false,
                },
                Err(err) => after == before && match serialized(e@) {
                    None => err == StoreError::SerializationError,
                    Some(text) => (err == StoreError::KeyDerivationError || err
                        == StoreError::EncryptionError) && fresh_seal_refused(
                        encode_utf8(password),
                        text,
                        before.aad(),
                        err,
                    ),
                },
            },
            _ => after == before && r == Err::<Vec<u8>, StoreError>(StoreError::NotFound),
        }
    }

    /// `unlock`: a sealed module is opened with a password.
    pub open spec fn unlock_spec(
        before: Module,
        password: Seq<char>,
        ciphertext: Seq<u8>,
        after: Module,
        r: Result<(), StoreError>,
    ) -> bool {
        match (before.lock_state, before.scheme) {
            (LockState::Locked, Some(s)) => match decrypted(
                s@,
                encode_utf8(password),
                ciphertext,
                before.aad(),
            ) {
                Err(e) => after == before && r == Err::<(), StoreError>(e),
                Ok(text) => match json_object_entries(text) {
                    None => after == before && r == Err::<(), StoreError>(
                        StoreError::SerializationError,
                    ),
                    Some(m) => r == Ok::<(), StoreError>(()) && after.name == before.name
                        && after.scheme == before.scheme && after.hint() == DisplayHint::Unlocked
                        && after.entries() == Some(m) && after.cached() == Some(password),
                },
            },
            _ => after == before && r == Err::<(), StoreError>(StoreError::NotFound),
        }
    }

    /// `add_entry`: a label of an unlocked module is bound to a given or a
    /// generated secret.
    pub open spec fn add_entry_spec(
        before: Module,
        label: Seq<char>,
        secret: Option<Seq<char>>,
        after: Module,
        r: Result<Option<Password>, StoreError>,
    ) -> bool {
        match before.entries() {
            None => after == before && r == Err::<Option<Password>, StoreError>(
                StoreError::NotFound,
            ),
            Some(m) => after.name == before.name && after.scheme == before.scheme && after.hint()
                == before.hint() && after.cached() == before.cached() && match (
                after.entries(),
                r,
            ) {
                (Some(m2), Ok(previous)) => m2.dom().contains(label) && m2 == m.insert(
                    label,
                    m2[label],
                ) && after.rows() == Some(assoc_put(before.rows().unwrap(), label, m2[label]))
                    && match secret {
                    Some(s) => m2[label] == s,
                    None => well_composed(m2[label], 32),
                } && match previous {
                    Some(p) => m.dom().contains(label) && p@ == m[label],
                    None => !m.dom().contains(label),
                },
                _ => false,
            },
        }
    }

    /// `remove_entry`: a label of an unlocked module is taken out.
    pub open spec fn remove_entry_spec(
        before: Module,
        label: Seq<char>,
        after: Module,
        r: Result<Password, StoreError>,
    ) -> bool {
        match before.entries() {
            None => after == before && r == Err::<Password, StoreError>(StoreError::NotFound),
            Some(m) => if m.dom().contains(label) {
                after.name == before.name && after.scheme == before.scheme && after.hint()
                    == before.hint() && after.cached() == before.cached() && after.entries()
                    == Some(m.remove(label)) && after.rows() == Some(
                    assoc_take(before.rows().unwrap(), label),
                ) && match r {
                    Ok(p) => p@ == m[label],
                    Err(_) => false,
                }
            } else {
                after == before && r == Err::<Password, StoreError>(StoreError::NotFound)
            },
        }
    }

    /// `lock`: an unlocked module is sealed again, under the nonce that
    /// follows the one it had.
    pub open spec fn lock_spec(before: Module, after: Module, r: Result<Vec<u8>, StoreError>) -> bool {
        match (before.lock_state, before.scheme) {
            (LockState::Unlocked { entries, cached_password }, Some(s)) => match r {
                Ok(ciphertext) => after.name == before.name && after.lock_state is Locked
                    && match after.scheme {
                    Some(s2) => s2.kdf == s.kdf && s2.salt@ == s.salt@ && nonce_follows(s.nonce@, s2.nonce@) && s2.nonce@ != s.nonce@
                        && seals(
                        s2@,
                        encode_utf8(cached_password@),
                        entries@,
                        before.aad(),
                        ciphertext@,
                    ),
                    None => false,
                },
                Err(e) => after == before && lock_failure(
                    s@,
                    encode_utf8(cached_password@),
                    entries@,
                    before.aad(),
                    e,
                ),
            },
            _ => after == before && r == Err::<Vec<u8>, StoreError>(StoreError::NotFound),
        }
    }

    /// `shut`: whatever is in memory is written out and dropped. A sealed
    /// module whose sealing fails keeps the scheme of the ciphertext on disk.
    pub open spec fn shut_spec(
        before: Module,
        after: Module,
        r: Result<Option<Vec<u8>>, StoreError>,
    ) -> bool {
        match (before.lock_state, before.scheme) {
            (LockState::Unlocked { entries, cached_password }, Some(s)) => after.name
                == before.name && after.lock_state is Locked && match r {
                Ok(Some(ciphertext)) => match after.scheme {
                    Some(s2) => s2.kdf == s.kdf && s2.salt@ == s.salt@ && nonce_follows(s.nonce@, s2.nonce@) && s2.nonce@ != s.nonce@
                        && seals(
                        s2@,
                        encode_utf8(cached_password@),
                        entries@,
                        before.aad(),
                        ciphertext@,
                    ),
                    None => false,
                },
                Ok(None) => false,
                Err(e) => after.scheme == before.scheme && lock_failure(
                    s@,
                    encode_utf8(cached_password@),
                    entries@,
                    before.aad(),
                    e,
                ),
            },
            (LockState::PlaintextUnlocked { entries: Some(e) }, _) => after.name == before.name
                && after.scheme == before.scheme && after.lock_state == (
                LockState::PlaintextUnlocked { entries: None }) && match serialized(e@) {
                Some(text) => match r {
                    Ok(Some(bytes)) => bytes@ == text,
                    _ => false,
                },
                None => r == Err::<Option<Vec<u8>>, StoreError>(StoreError::SerializationError),
            },
            _ => after == before && r == Ok::<Option<Vec<u8>>, StoreError>(None),
        }
    }

    /// A new module without an entry file.
    pub fn new(name: &str) -> (module: Module)
        ensures
            module.wf(),
            module.name@ == name@,
            module.scheme is None,
            module.lock_state is Unmanaged,
    {
        Module { name: name.to_owned(), scheme: None, lock_state: LockState::Unmanaged }
    }

    /// A module found on disk: locked where a scheme is registered for it,
    /// plaintext otherwise. Its entry file is not read yet.
    pub fn discovered(name: String, scheme: Option<EncryptionScheme>) -> (module: Module)
        requires
            match scheme {
                Some(s) => s.wf(),
                None => true,
            },
        ensures
            module.wf(),
            module.managed(),
            module.at_rest(),
            module.name == name,
            module.scheme == scheme,
            module.lock_state == (if scheme is Some {
                LockState::Locked
            } else {
                LockState::PlaintextUnlocked { entries: None }
            }),
    {
        let lock_state = if scheme.is_some() {
            LockState::Locked
        } else {
            LockState::PlaintextUnlocked { entries: None }
        };
        Module { name, scheme, lock_state }
    }

    /// How the module is shown.
    pub fn display_hint(&self) -> (hint: DisplayHint)
        ensures
            hint == self.hint(),
    {
        match &self.lock_state {
            LockState::Locked => DisplayHint::Locked,
            LockState::Unlocked { .. } => DisplayHint::Unlocked,
            _ => DisplayHint::Plaintext,
        }
    }

    /// The entries that are in memory.
    pub fn entry_store(&self) -> (r: Option<&PasswordEntries>)
        requires
            self.wf(),
        ensures
            match r {
                Some(e) => e.wf() && self.entries() == Some(e@) && self.store() == Some(*e),
                None => self.entries() is None && self.store() is None,
            },
    {
        match &self.lock_state {
            LockState::PlaintextUnlocked { entries: Some(e) } => Some(e),
            LockState::Unlocked { entries, .. } => Some(entries),
            _ => None,
        }
    }

    /// Gives a new module its entries and returns its first entry file.
    pub fn create(self, entries: PasswordEntries) -> (out: (Module, Result<Vec<u8>, StoreError>))
        requires
            self.wf(),
            entries.wf(),
        ensures
            out.0.wf(),
            Self::create_spec(self, entries, out.0, out.1),
    {
        match &self.lock_state {
            LockState::Unmanaged => {},
            _ => {
                return (self, Err(StoreError::AlreadyExists));
            },
        }
        match entries.serialize() {
            Err(e) => (self, Err(e)),
            Ok(bytes) => (
                Module {
                    name: self.name,
                    scheme: self.scheme,
                    lock_state: LockState::PlaintextUnlocked { entries: Some(entries) },
                },
                Ok(bytes),
            ),
        }
    }

    /// Reads the entry file of a plaintext module, unless its entries are in
    /// memory already.
    pub fn load_plaintext(self, bytes: &[u8]) -> (out: (Module, Result<(), StoreError>))
        requires
            self.wf(),
        ensures
            out.0.wf(),
            Self::load_plaintext_spec(self, bytes@, out.0, out.1),
    {
        match &self.lock_state {
            LockState::PlaintextUnlocked { entries: None } => {},
            LockState::PlaintextUnlocked { entries: Some(_) } => {
                return (self, Ok(()));
            },
            _ => {
                return (self, Err(StoreError::NotFound));
            },
        }
        match PasswordEntries::deserialize(bytes) {
            Err(e) => (self, Err(e)),
            Ok(entries) => (
                Module {
                    name: self.name,
                    scheme: self.scheme,
                    lock_state: LockState::PlaintextUnlocked { entries: Some(entries) },
                },
                Ok(()),
            ),
        }
    }

    /// Seals a plaintext module whose entries are in memory under a new
    /// scheme and returns the ciphertext for its entry file. The entries
    /// leave memory; the password is not kept.
    pub fn encrypt(self, password: &str) -> (out: (Module, Result<Vec<u8>, StoreError>))
        requires
            self.wf(),
        ensures
            out.0.wf(),
            Self::encrypt_spec(self, password@, out.0, out.1),
    {
        let sealed = match &self.lock_state {
            LockState::PlaintextUnlocked { entries: Some(entries) } => {
                match entries.serialize() {
                    Err(e) => Err(e),
                    Ok(text) => {
                        let scheme = EncryptionScheme::default();
                        match scheme.encrypt(
                            password,
                            text.as_slice(),
                            self.name.as_str().as_bytes(),
                        ) {
                            Err(e) => Err(e),
                            Ok(ciphertext) => Ok((scheme, ciphertext)),
                        }
                    },
                }
            },
            _ => {
                return (self, Err(StoreError::NotFound));
            },
        };
        match sealed {
            Err(e) => (self, Err(e)),
            Ok((scheme, ciphertext)) => (
                Module { name: self.name, scheme: Some(scheme), lock_state: LockState::Locked },
                Ok(ciphertext),
            ),
        }
    }

    /// Opens a locked module: decrypts its entry file with the password and
    /// reads the entries. On any failure the module stays locked.
    pub fn unlock(self, password: &str, ciphertext: &[u8]) -> (out: (
        Module,
        Result<(), StoreError>,
    ))
        requires
            self.wf(),
        ensures
            out.0.wf(),
            Self::unlock_spec(self, password@, ciphertext@, out.0, out.1),
    {
        let opened = match (&self.lock_state, &self.scheme) {
            (LockState::Locked, Some(scheme)) => {
                match scheme.decrypt(password, ciphertext, self.name.as_str().as_bytes()) {
                    Err(e) => Err(e),
                    Ok(text) => PasswordEntries::deserialize(text.as_slice()),
                }
            },
            _ => {
                return (self, Err(StoreError::NotFound));
            },
        };
        match opened {
            Err(e) => (self, Err(e)),
            Ok(entries) => (
                Module {
                    name: self.name,
                    scheme: self.scheme,
                    lock_state: LockState::Unlocked {
                        entries,
                        cached_password: password.to_owned(),
                    },
                },
                Ok(()),
            ),
        }
    }

    /// Binds a label to the given secret, or to a generated one of 32
    /// characters, and returns the secret that the label had.
    pub fn add_entry(self, label: &str, secret: Option<&str>) -> (out: (
        Module,
        Result<Option<Password>, StoreError>,
    ))
        requires
            self.wf(),
        ensures
            out.0.wf(),
            Self::add_entry_spec(
                self,
                label@,
                match secret {
                    Some(s) => Some(s@),
                    None => None,
                },
                out.0,
                out.1,
            ),
    {
        let Module { name, scheme, lock_state } = self;
        match lock_state {
            LockState::PlaintextUnlocked { entries: Some(entries) } => {
                let mut entries = entries;
                let previous = entries.insert(label, Self::secret_for(secret));
                (
                    Module {
                        name,
                        scheme,
                        lock_state: LockState::PlaintextUnlocked { entries: Some(entries) },
                    },
                    Ok(previous),
                )
            },
            LockState::Unlocked { entries, cached_password } => {
                let mut entries = entries;
                let previous = entries.insert(label, Self::secret_for(secret));
                (
                    Module {
                        name,
                        scheme,
                        lock_state: LockState::Unlocked { entries, cached_password },
                    },
                    Ok(previous),
                )
            },
            other => (Module { name, scheme, lock_state: other }, Err(StoreError::NotFound)),
        }
    }

    /// The given secret, or a generated one of 32 characters.
    pub fn secret_for(secret: Option<&str>) -> (p: Password)
        ensures
            match secret {
                Some(s) => p@ == s@,
                None => well_composed(p@, 32),
            },
    {
        match secret {
            Some(s) => Password::new_from(s),
            None => Password::new_password32(),
        }
    }

    /// Takes a label out and returns its secret.
    pub fn remove_entry(self, label: &str) -> (out: (Module, Result<Password, StoreError>))
        requires
            self.wf(),
        ensures
            out.0.wf(),
            Self::remove_entry_spec(self, label@, out.0, out.1),
    {
        let present = match self.entry_store() {
            Some(entries) => entries.get(label).is_some(),
            None => false,
        };
        if !present {
            return (self, Err(StoreError::NotFound));
        }
        let Module { name, scheme, lock_state } = self;
        match lock_state {
            LockState::PlaintextUnlocked { entries: Some(entries) } => {
                let mut entries = entries;
                match entries.remove(label) {
                    Some(p) => (
                        Module {
                            name,
                            scheme,
                            lock_state: LockState::PlaintextUnlocked { entries: Some(entries) },
                        },
                        Ok(p),
                    ),
                    None => (
                        Module {
                            name,
                            scheme,
                            lock_state: LockState::PlaintextUnlocked { entries: Some(entries) },
                        },
                        Err(StoreError::NotFound),
                    ),
                }
            },
            LockState::Unlocked { entries, cached_password } => {
                let mut entries = entries;
                match entries.remove(label) {
                    Some(p) => (
                        Module {
                            name,
                            scheme,
                            lock_state: LockState::Unlocked { entries, cached_password },
                        },
                        Ok(p),
                    ),
                    None => (
                        Module {
                            name,
                            scheme,
                            lock_state: LockState::Unlocked { entries, cached_password },
                        },
                        Err(StoreError::NotFound),
                    ),
                }
            },
            other => (Module { name, scheme, lock_state: other }, Err(StoreError::NotFound)),
        }
    }

    /// Serializes the entries of an unlocked module and seals them with the
    /// cached password under a copy of the scheme with the next nonce.
    fn reseal(&self) -> (r: Result<(EncryptionScheme, Vec<u8>), StoreError>)
        requires
            self.wf(),
            self.lock_state is Unlocked,
        ensures
            match (self.lock_state, self.scheme, r) {
                (LockState::Unlocked { entries, cached_password }, Some(s), Ok((s2, ciphertext))) => {
                    s2.wf() && s2.kdf == s.kdf && s2.salt@ == s.salt@ && nonce_follows(s.nonce@, s2.nonce@) && s2.nonce@ != s.nonce@
                        && seals(
                        s2@,
                        encode_utf8(cached_password@),
                        entries@,
                        self.aad(),
                        ciphertext@,
                    )
                },
                (LockState::Unlocked { entries, cached_password }, Some(s), Err(e)) => lock_failure(
                    s@,
                    encode_utf8(cached_password@),
                    entries@,
                    self.aad(),
                    e,
                ),
                _ => false,
            },
    {
        match (&self.lock_state, &self.scheme) {
            (LockState::Unlocked { entries, cached_password }, Some(scheme)) => {
                match entries.serialize() {
                    Err(e) => Err(e),
                    Ok(text) => {
                        let mut fresh = scheme.duplicate();
                        match fresh.encrypt_fresh(
                            cached_password.as_str(),
                            text.as_slice(),
                            self.name.as_str().as_bytes(),
                        ) {
                            Err(e) => Err(e),
                            Ok(ciphertext) => Ok((fresh, ciphertext)),
                        }
                    },
                }
            },
            _ => Err(StoreError::NotFound),
        }
    }

    /// Seals an unlocked module again and returns the ciphertext for its
    /// entry file. Entries and password leave memory. On failure the module
    /// stays unlocked, with the scheme it had.
    pub fn lock(self) -> (out: (Module, Result<Vec<u8>, StoreError>))
        requires
            self.wf(),
        ensures
            out.0.wf(),
            Self::lock_spec(self, out.0, out.1),
    {
        match &self.lock_state {
            LockState::Unlocked { .. } => {},
            _ => {
                return (self, Err(StoreError::NotFound));
            },
        }
        match self.reseal() {
            Err(e) => (self, Err(e)),
            Ok((scheme, ciphertext)) => (
                Module { name: self.name, scheme: Some(scheme), lock_state: LockState::Locked },
                Ok(ciphertext),
            ),
        }
    }

    /// Writes out what is in memory and drops it: an unlocked module is
    /// sealed again, a plaintext module serialized. Afterwards the module is
    /// at rest, whether or not there was a failure to report.
    pub fn shut(self) -> (out: (Module, Result<Option<Vec<u8>>, StoreError>))
        requires
            self.wf(),
        ensures
            out.0.wf(),
            self.managed() ==> out.0.managed() && out.0.at_rest(),
            Self::shut_spec(self, out.0, out.1),
    {
        match &self.lock_state {
            LockState::Unlocked { .. } => {
                match self.reseal() {
                    Err(e) => (
                        Module { name: self.name, scheme: self.scheme, lock_state: LockState::Locked },
                        Err(e),
                    ),
                    Ok((scheme, ciphertext)) => (
                        Module {
                            name: self.name,
                            scheme: Some(scheme),
                            lock_state: LockState::Locked,
                        },
                        Ok(Some(ciphertext)),
                    ),
                }
            },
            LockState::PlaintextUnlocked { entries: Some(entries) } => {
                let written = match entries.serialize() {
                    Err(e) => Err(e),
                    Ok(bytes) => Ok(Some(bytes)),
                };
                (
                    Module {
                        name: self.name,
                        scheme: self.scheme,
                        lock_state: LockState::PlaintextUnlocked { entries: None },
                    },
                    written,
                )
            },
            _ => (self, Ok(None)),
        }
    }
}


/// Entries that were serialized and sealed come back when the ciphertext is
/// opened under the same scheme, password and associated data and read.
pub proof fn lemma_sealed_entries_reopen(
    scheme: SchemeView,
    password: Seq<u8>,
    entries: Map<Seq<char>, Seq<char>>,
    aad: Seq<u8>,
    ciphertext: Seq<u8>,
)
    requires
        seals(scheme, password, entries, aad, ciphertext),
    ensures
        match decrypted(scheme, password, ciphertext, aad) {
            Ok(text) => json_object_entries(text) == Some(entries),
            Err(_) => false,
        },
{
}

/// A module that was locked opens again with the password it had cached, and
/// then holds the entries and the password that it held before.
pub proof fn lemma_lock_then_unlock(
    before: Module,
    locked: Module,
    ciphertext: Vec<u8>,
    after: Module,
    r: Result<(), StoreError>,
)
    requires
        before.cached() is Some,
        Module::lock_spec(before, locked, Ok(ciphertext)),
        Module::unlock_spec(locked, before.cached().unwrap(), ciphertext@, after, r),
    ensures
        r == Ok::<(), StoreError>(()),
        after.entries() == before.entries(),
        after.cached() == before.cached(),
        after.name == before.name,
{
}

/// What a shutdown wrote for an unlocked module opens with the password the
/// module had cached, and then holds the entries that it held before.
pub proof fn lemma_shut_then_unlock(
    before: Module,
    shut: Module,
    ciphertext: Vec<u8>,
    after: Module,
    r: Result<(), StoreError>,
)
    requires
        before.cached() is Some,
        Module::shut_spec(before, shut, Ok(Some(ciphertext))),
        Module::unlock_spec(shut, before.cached().unwrap(), ciphertext@, after, r),
    ensures
        r == Ok::<(), StoreError>(()),
        shut.at_rest(),
        after.entries() == before.entries(),
        after.name == before.name,
{
}

/// A plaintext module that was sealed under a password opens with that
/// password, and then holds the entries that it held before.
pub proof fn lemma_encrypt_then_unlock(
    before: Module,
    password: Seq<char>,
    locked: Module,
    ciphertext: Vec<u8>,
    after: Module,
    r: Result<(), StoreError>,
)
    requires
        before.entries() is Some,
        Module::encrypt_spec(before, password, locked, Ok(ciphertext)),
        Module::unlock_spec(locked, password, ciphertext@, after, r),
    ensures
        r == Ok::<(), StoreError>(()),
        after.entries() == before.entries(),
        after.cached() == Some(password),
{
}


/// Sealing an unlocked module again takes the nonce that follows the one of
/// the ciphertext that it replaces, while parameters and salt, and so the key
/// that the password gives, stay the same.
pub proof fn lemma_lock_changes_nonce(before: Module, after: Module, ciphertext: Vec<u8>)
    requires
        Module::lock_spec(before, after, Ok(ciphertext)),
    ensures
        before.scheme is Some,
        after.scheme is Some,
        nonce_follows(before.scheme.unwrap().nonce@, after.scheme.unwrap().nonce@),
        after.scheme.unwrap().nonce@ != before.scheme.unwrap().nonce@,
        after.scheme.unwrap().kdf == before.scheme.unwrap().kdf,
        after.scheme.unwrap().salt@ == before.scheme.unwrap().salt@,
{
}

/// A module that was created cannot be created again.
pub proof fn lemma_create_twice(
    new: Module,
    entries: PasswordEntries,
    created: Module,
    first: Vec<u8>,
    again: PasswordEntries,
    after: Module,
    r: Result<Vec<u8>, StoreError>,
)
    requires
        Module::create_spec(new, entries, created, Ok(first)),
        Module::create_spec(created, again, after, r),
    ensures
        r == Err::<Vec<u8>, StoreError>(StoreError::AlreadyExists),
        after == created,
{
}

} // verus!
