//! The list of modules of one store.
//!
//! The list owns its modules in display order. No two modules share a name,
//! and every module in it has an entry file. The scheme registry is not kept
//! beside the modules but read off them, so a name in the registry always
//! belongs to exactly one module.

use crate::error::StoreError;
use crate::modules::{DisplayHint, LockState, Module};
use crate::password::{serialized, Password, PasswordEntries};
use crate::pbes::SchemeView;
use crate::registry::{saved, SchemeRegistry};
use vstd::prelude::*;
use vstd::string::{StrSliceExecFns, StringExecFns};

verus! {

/// The names in the order of their first occurrence, each once.
pub open spec fn first_occurrences(names: Seq<Seq<char>>) -> Seq<Seq<char>>
    decreases names.len(),
{
    if names.len() == 0 {
        Seq::empty()
    } else {
        let rest = first_occurrences(names.drop_last());
        if rest.contains(names.last()) {
            rest
        } else {
            rest.push(names.last())
        }
    }
}

/// The texts of a sequence of strings.
pub open spec fn texts(names: Seq<String>) -> Seq<Seq<char>> {
    Seq::new(names.len(), |i: int| names[i]@)
}

/// The schemes of the first `n` modules, by module name.
pub open spec fn schemes_upto(modules: Seq<Module>, n: nat) -> Map<Seq<char>, SchemeView>
    decreases n,
{
    if n == 0 {
        Map::empty()
    } else {
        let earlier = schemes_upto(modules, (n - 1) as nat);
        match modules[n - 1].scheme {
            Some(s) => earlier.insert(modules[n - 1].name@, s@),
            None => earlier,
        }
    }
}

/// The modules of a store.
pub struct ModuleList {
    pub modules: Vec<Module>,
}

/// What a shutdown pass did: for each module, in order, the bytes to write to
/// its entry file (if any) or the failure; and the registry file.
pub struct CleanupReport {
    pub steps: Vec<Result<Option<Vec<u8>>, StoreError>>,
    pub registry: Result<Vec<u8>, StoreError>,
}

/// The modules are well formed, have entry files, and no two share a name.
pub open spec fn list_wf(modules: Seq<Module>) -> bool {
    &&& forall|i: int| 0 <= i < modules.len() ==> (#[trigger] modules[i]).wf() && modules[i].managed()
    &&& forall|i: int, j: int|
        0 <= i < j < modules.len() ==> (#[trigger] modules[i]).name@ != (#[trigger] modules[j]).name@
}

/// Replacing one module by a well-formed one of the same name keeps the list
/// well formed.
pub proof fn lemma_replace_keeps_wf(modules: Seq<Module>, index: int, module: Module)
    requires
        list_wf(modules),
        0 <= index < modules.len(),
        module.wf(),
        module.managed(),
        module.name@ == modules[index].name@,
    ensures
        list_wf(modules.update(index, module)),
        modules.remove(index).insert(index, module) == modules.update(index, module),
{
    let t = modules.update(index, module);
    assert forall|i: int, j: int| 0 <= i < j < t.len() implies (#[trigger] t[i]).name@ != (
    #[trigger] t[j]).name@ by {
        assert(modules[i].name@ != modules[j].name@);
    }
    assert(modules.remove(index).insert(index, module) =~= t);
}

/// Up to any position, a name has a scheme in the registry exactly if one of
/// the modules before that position has the name and a scheme, and then it is
/// that module's scheme.
pub proof fn lemma_schemes_upto(modules: Seq<Module>, n: nat)
    requires
        list_wf(modules),
        n <= modules.len(),
    ensures
        forall|k: Seq<char>| #[trigger]
            schemes_upto(modules, n).dom().contains(k) <==> exists|i: int|
                0 <= i < n && (#[trigger] modules[i]).name@ == k && modules[i].scheme is Some,
        forall|i: int|
            0 <= i < n && (#[trigger] modules[i]).scheme is Some ==> schemes_upto(
                modules,
                n,
            )[modules[i].name@] == modules[i].scheme.unwrap()@,
    decreases n,
{
    if n > 0 {
        lemma_schemes_upto(modules, (n - 1) as nat);
        let last = modules[n - 1];
        assert forall|k: Seq<char>| #[trigger]
            schemes_upto(modules, n).dom().contains(k) <==> exists|i: int|
                0 <= i < n && (#[trigger] modules[i]).name@ == k && modules[i].scheme is Some by {
            if schemes_upto(modules, n).dom().contains(k) {
                if last.scheme is Some && last.name@ == k {
                    assert(modules[n - 1].name@ == k);
                } else {
                    assert(schemes_upto(modules, (n - 1) as nat).dom().contains(k));
                    let i = choose|i: int|
                        0 <= i < n - 1 && (#[trigger] modules[i]).name@ == k
                            && modules[i].scheme is Some;
                    assert(0 <= i < n && modules[i].name@ == k && modules[i].scheme is Some);
                }
            }
            if exists|i: int|
                0 <= i < n && (#[trigger] modules[i]).name@ == k && modules[i].scheme is Some {
                let i = choose|i: int|
                    0 <= i < n && (#[trigger] modules[i]).name@ == k && modules[i].scheme is Some;
                if i < n - 1 {
                    assert(schemes_upto(modules, (n - 1) as nat).dom().contains(k));
                }
            }
        }
        assert forall|i: int| 0 <= i < n && (#[trigger] modules[i]).scheme is Some implies schemes_upto(
            modules,
            n,
        )[modules[i].name@] == modules[i].scheme.unwrap()@ by {
            if i < n - 1 {
                assert(modules[i].name@ != modules[n - 1].name@);
            }
        }
    }
}

/// An entry file's name belongs to one module only: two names with the same
/// entry file name are the same.
pub proof fn lemma_stem_unique(a: Seq<char>, b: Seq<char>)
    requires
        a + ".json"@ == b + ".json"@,
    ensures
        a == b,
{
    assert((a + ".json"@).len() == a.len() + ".json"@.len());
    assert((b + ".json"@).len() == b.len() + ".json"@.len());
    assert forall|i: int| 0 <= i < a.len() implies a[i] == b[i] by {
        assert((a + ".json"@)[i] == a[i]);
        assert((b + ".json"@)[i] == b[i]);
    }
    assert(a =~= b);
}

impl ModuleList {
    /// The list is well formed.
    pub open spec fn wf(&self) -> bool {
        list_wf(self.modules@)
    }

    /// The names of the modules, in order.
    pub open spec fn names(&self) -> Seq<Seq<char>> {
        Seq::new(self.modules@.len(), |i: int| self.modules@[i].name@)
    }

    /// Some module has the name.
    pub open spec fn has_name(&self, name: Seq<char>) -> bool {
        exists|i: int| 0 <= i < self.modules@.len() && (#[trigger] self.modules@[i]).name@ == name
    }

    /// The scheme registry: the schemes of the sealed modules, by name.
    pub open spec fn scheme_map(&self) -> Map<Seq<char>, SchemeView> {
        schemes_upto(self.modules@, self.modules@.len())
    }

    /// Every name in the scheme registry belongs to exactly one module, and
    /// the registry holds that module's scheme.
    pub proof fn lemma_scheme_map(&self)
        requires
            self.wf(),
        ensures
            forall|k: Seq<char>| #[trigger]
                self.scheme_map().dom().contains(k) <==> exists|i: int|
                    0 <= i < self.modules@.len() && (#[trigger] self.modules@[i]).name@ == k
                        && self.modules@[i].scheme is Some,
            forall|i: int|
                0 <= i < self.modules@.len() && (#[trigger] self.modules@[i]).scheme is Some
                    ==> self.scheme_map()[self.modules@[i].name@]
                    == self.modules@[i].scheme.unwrap()@,
            forall|i: int, j: int|
                0 <= i < self.modules@.len() && 0 <= j < self.modules@.len() && (
                #[trigger] self.modules@[i]).name@ == (#[trigger] self.modules@[j]).name@ ==> i
                    == j,
    {
        lemma_schemes_upto(self.modules@, self.modules@.len());
        assert forall|i: int, j: int|
            0 <= i < self.modules@.len() && 0 <= j < self.modules@.len() && (
            #[trigger] self.modules@[i]).name@ == (#[trigger] self.modules@[j]).name@ implies i
            == j by {
            if i < j {
                assert(self.modules@[i].name@ != self.modules@[j].name@);
            } else if j < i {
                assert(self.modules@[j].name@ != self.modules@[i].name@);
            }
        }
    }

    /// Nothing of any module is in memory.
    pub open spec fn all_at_rest(&self) -> bool {
        forall|i: int| 0 <= i < self.modules@.len() ==> (#[trigger] self.modules@[i]).at_rest()
    }

    /// An empty list.
    pub fn new() -> (list: ModuleList)
        ensures
            list.wf(),
            list.modules@.len() == 0,
    {
        ModuleList { modules: Vec::new() }
    }

    /// The number of modules.
    pub fn len(&self) -> (n: usize)
        ensures
            n == self.modules@.len(),
    {
        self.modules.len()
    }

    /// The position of the module with the name.
    pub fn find(&self, name: &str) -> (r: Option<usize>)
        ensures
            match r {
                Some(i) => i < self.modules@.len() && self.modules@[i as int].name@ == name@,
                None => !self.has_name(name@),
            },
    {
        let owned = name.to_owned();
        let mut i: usize = 0;
        while i < self.modules.len()
            invariant
                i <= self.modules@.len(),
                owned@ == name@,
                forall|k: int| 0 <= k < i ==> (#[trigger] self.modules@[k]).name@ != name@,
            decreases self.modules@.len() - i,
        {
            if self.modules[i].name == owned {
                return Some(i);
            }
            i += 1;
        }
        None
    }

    /// The module at a position.
    pub fn module(&self, index: usize) -> (r: Option<&Module>)
        ensures
            match r {
                Some(m) => index < self.modules@.len() && *m == self.modules@[index as int],
                None => index >= self.modules@.len(),
            },
    {
        if index < self.modules.len() {
            Some(&self.modules[index])
        } else {
            None
        }
    }

    /// How the module at a position is shown.
    pub fn display_hint(&self, index: usize) -> (r: Option<DisplayHint>)
        ensures
            match r {
                Some(h) => index < self.modules@.len() && h == self.modules@[index as int].hint(),
                None => index >= self.modules@.len(),
            },
    {
        if index < self.modules.len() {
            Some(self.modules[index].display_hint())
        } else {
            None
        }
    }

    /// The name of the entry file of a module: the module's name with `.json`.
    pub fn entry_file_name(name: &str) -> (file: String)
        ensures
            file@ == name@ + ".json"@,
    {
        name.to_owned().concat(".json")
    }

    /// The name of the module that a file is the entry file of: what stands
    /// before `.json`, where the file's name ends so.
    pub fn entry_file_stem(file_name: &str) -> (r: Option<String>)
        ensures
            match r {
                Some(stem) => file_name@ == stem@ + ".json"@,
                None => forall|stem: Seq<char>| file_name@ != #[trigger] (stem + ".json"@),
            },
    {
        proof {
            reveal_strlit(".json");
        }
        let n = file_name.unicode_len();
        if n < 5 {
            return None;
        }
        let cut = n - 5;
        if file_name.get_char(cut) == '.' && file_name.get_char(cut + 1) == 'j'
            && file_name.get_char(cut + 2) == 's' && file_name.get_char(cut + 3) == 'o'
            && file_name.get_char(cut + 4) == 'n' {
            let stem = file_name.substring_char(0, cut).to_owned();
            assert(file_name@ =~= stem@ + ".json"@);
            Some(stem)
        } else {
            assert forall|stem: Seq<char>| file_name@ != #[trigger] (stem + ".json"@) by {
                let whole = stem + ".json"@;
                if file_name@ == whole {
                    assert(whole.len() == stem.len() + 5);
                    assert(whole[cut as int] == ".json"@[0]);
                    assert(whole[cut + 1] == ".json"@[1]);
                    assert(whole[cut + 2] == ".json"@[2]);
                    assert(whole[cut + 3] == ".json"@[3]);
                    assert(whole[cut + 4] == ".json"@[4]);
                }
            }
            None
        }
    }

    /// The entry file for the entries of a module: its name and its contents.
    pub fn write_module(name: &str, entries: &PasswordEntries) -> (r: Result<
        (String, Vec<u8>),
        StoreError,
    >)
        requires
            entries.wf(),
        ensures
            match r {
                Ok((file, bytes)) => file@ == name@ + ".json"@ && serialized(entries@) == Some(
                    bytes@,
                ),
                Err(e) => e == StoreError::SerializationError && serialized(entries@) is None,
            },
    {
        match entries.serialize() {
            Ok(bytes) => Ok((Self::entry_file_name(name), bytes)),
            Err(e) => Err(e),
        }
    }

    /// Registers a new plaintext module and returns its first entry file. A
    /// name that has an entry file already, on disk or in the list, is
    /// refused.
    pub fn add_module(&mut self, name: &str, entries: PasswordEntries, file_exists: bool) -> (r:
        Result<Vec<u8>, StoreError>)
        requires
            old(self).wf(),
            entries.wf(),
        ensures
            final(self).wf(),
            match r {
                Ok(bytes) => !file_exists && !old(self).has_name(name@) && serialized(entries@)
                    == Some(bytes@) && final(self).modules@.len() == old(self).modules@.len() + 1
                    && final(self).modules@.drop_last() == old(self).modules@ && final(self).modules@.last().name@ == name@ && final(self).modules@.last().scheme is None
                    && final(self).modules@.last().lock_state == (LockState::PlaintextUnlocked {
                    entries: Some(entries),
                }),
                Err(e) => final(self).modules@ == old(self).modules@ && if file_exists || old(self).has_name(name@) {
                    e == StoreError::AlreadyExists
                } else {
                    e == StoreError::SerializationError && serialized(entries@) is None
                },
            },
    {
        if file_exists || self.find(name).is_some() {
            return Err(StoreError::AlreadyExists);
        }
        let (module, written) = Module::new(name).create(entries);
        match written {
            Err(e) => Err(e),
            Ok(bytes) => {
                self.modules.push(module);
                proof {
                    let t = self.modules@;
                    assert(t.drop_last() =~= old(self).modules@);
                    assert forall|i: int, j: int| 0 <= i < j < t.len() implies (#[trigger] t[i]).name@
                        != (#[trigger] t[j]).name@ by {
                        if j < t.len() - 1 {
                            assert(old(self).modules@[i].name@ != old(self).modules@[j].name@);
                        } else {
                            assert(old(self).modules@[i].name@ != name@);
                        }
                    }
                }
                Ok(bytes)
            },
        }
    }

    /// The list for the entry files found on disk: one module for each name,
    /// in the order of first occurrence, locked where the registry has a
    /// scheme for the name and plaintext otherwise. No entry file is read.
    pub fn get_module_files(names: &Vec<String>, schemes: &SchemeRegistry) -> (list: ModuleList)
        requires
            schemes.wf(),
        ensures
            list.wf(),
            list.all_at_rest(),
            list.names() == first_occurrences(texts(names@)),
            forall|i: int|
                0 <= i < list.modules@.len() ==> match (#[trigger] list.modules@[i]).scheme {
                    Some(s) => schemes@.dom().contains(list.modules@[i].name@) && s@
                        == schemes@[list.modules@[i].name@] && list.modules@[i].lock_state is Locked,
                    None => !schemes@.dom().contains(list.modules@[i].name@)
                        && list.modules@[i].lock_state == (LockState::PlaintextUnlocked {
                        entries: None,
                    }),
                },
    {
        let mut list = ModuleList::new();
        let mut i: usize = 0;
        assert(list.names() =~= first_occurrences(texts(names@).take(0)));
        while i < names.len()
            invariant
                i <= names@.len(),
                schemes.wf(),
                list.wf(),
                list.all_at_rest(),
                list.names() == first_occurrences(texts(names@).take(i as int)),
                forall|k: int|
                    0 <= k < list.modules@.len() ==> match (#[trigger] list.modules@[k]).scheme {
                        Some(s) => schemes@.dom().contains(list.modules@[k].name@) && s@
                            == schemes@[list.modules@[k].name@]
                            && list.modules@[k].lock_state is Locked,
                        None => !schemes@.dom().contains(list.modules@[k].name@)
                            && list.modules@[k].lock_state == (LockState::PlaintextUnlocked {
                            entries: None,
                        }),
                    },
            decreases names@.len() - i,
        {
            let ghost before = list;
            let ghost seen = texts(names@).take(i as int);
            let ghost next = texts(names@).take(i as int + 1);
            proof {
                assert(next.drop_last() =~= seen);
                assert(next.last() == names@[i as int]@);
            }
            let found = list.find(names[i].as_str());
            proof {
                if found is Some {
                    assert(list.names()[found.unwrap() as int] == names@[i as int]@);
                } else {
                    if list.names().contains(names@[i as int]@) {
                        let w = choose|w: int|
                            0 <= w < list.names().len() && list.names()[w] == names@[i as int]@;
                        assert(list.modules@[w].name@ == names@[i as int]@);
                    }
                }
            }
            if found.is_none() {
                let scheme = match schemes.get(names[i].as_str()) {
                    Some(s) => Some(s.duplicate()),
                    None => None,
                };
                let module = Module::discovered(names[i].clone(), scheme);
                list.modules.push(module);
                proof {
                    let t = list.modules@;
                    assert forall|a: int, b: int| 0 <= a < b < t.len() implies (#[trigger] t[a]).name@
                        != (#[trigger] t[b]).name@ by {
                        if b < t.len() - 1 {
                            assert(before.modules@[a].name@ != before.modules@[b].name@);
                        } else {
                            assert(before.modules@[a].name@ != names@[i as int]@);
                        }
                    }
                    assert(list.names() =~= before.names().push(names@[i as int]@));
                }
            }
            i += 1;
        }
        assert(texts(names@).take(names@.len() as int) =~= texts(names@));
        list
    }

    /// Reads the entry file of the plaintext module at a position.
    pub fn load_plaintext(&mut self, index: usize, bytes: &[u8]) -> (r: Result<(), StoreError>)
        requires
            old(self).wf(),
        ensures
            final(self).wf(),
            final(self).modules@.len() == old(self).modules@.len(),
            forall|j: int|
                0 <= j < old(self).modules@.len() && j != index ==> final(self).modules@[j] == old(self).modules@[j],
            if index < old(self).modules@.len() {
                Module::load_plaintext_spec(
                    old(self).modules@[index as int],
                    bytes@,
                    final(self).modules@[index as int],
                    r,
                )
            } else {
                r == Err::<(), StoreError>(StoreError::NotFound)
            },
    {
        if index >= self.modules.len() {
            return Err(StoreError::NotFound);
        }
        let module = self.modules.remove(index);
        let (module, r) = module.load_plaintext(bytes);
        proof {
            lemma_replace_keeps_wf(old(self).modules@, index as int, module);
        }
        self.modules.insert(index, module);
        r
    }

    /// Seals the plaintext module at a position under a new scheme and
    /// returns the ciphertext for its entry file.
    pub fn encrypt_module(&mut self, index: usize, password: &str) -> (r: Result<
        Vec<u8>,
        StoreError,
    >)
        requires
            old(self).wf(),
        ensures
            final(self).wf(),
            final(self).modules@.len() == old(self).modules@.len(),
            forall|j: int|
                0 <= j < old(self).modules@.len() && j != index ==> final(self).modules@[j] == old(self).modules@[j],
            if index < old(self).modules@.len() {
                Module::encrypt_spec(
                    old(self).modules@[index as int],
                    password@,
                    final(self).modules@[index as int],
                    r,
                )
            } else {
                r == Err::<Vec<u8>, StoreError>(StoreError::NotFound)
            },
    {
        if index >= self.modules.len() {
            return Err(StoreError::NotFound);
        }
        let module = self.modules.remove(index);
        let (module, r) = module.encrypt(password);
        proof {
            lemma_replace_keeps_wf(old(self).modules@, index as int, module);
        }
        self.modules.insert(index, module);
        r
    }

    /// Opens the locked module at a position with a password and the
    /// contents of its entry file.
    pub fn unlock(&mut self, index: usize, password: &str, ciphertext: &[u8]) -> (r: Result<
        (),
        StoreError,
    >)
        requires
            old(self).wf(),
        ensures
            final(self).wf(),
            final(self).modules@.len() == old(self).modules@.len(),
            forall|j: int|
                0 <= j < old(self).modules@.len() && j != index ==> final(self).modules@[j] == old(self).modules@[j],
            if index < old(self).modules@.len() {
                Module::unlock_spec(
                    old(self).modules@[index as int],
                    password@,
                    ciphertext@,
                    final(self).modules@[index as int],
                    r,
                )
            } else {
                r == Err::<(), StoreError>(StoreError::NotFound)
            },
    {
        if index >= self.modules.len() {
            return Err(StoreError::NotFound);
        }
        let module = self.modules.remove(index);
        let (module, r) = module.unlock(password, ciphertext);
        proof {
            lemma_replace_keeps_wf(old(self).modules@, index as int, module);
        }
        self.modules.insert(index, module);
        r
    }

    /// Binds a label of the module at a position to the given secret, or to
    /// a generated one.
    pub fn add_entry(&mut self, index: usize, label: &str, secret: Option<&str>) -> (r: Result<
        Option<Password>,
        StoreError,
    >)
        requires
            old(self).wf(),
        ensures
            final(self).wf(),
            final(self).modules@.len() == old(self).modules@.len(),
            forall|j: int|
                0 <= j < old(self).modules@.len() && j != index ==> final(self).modules@[j] == old(self).modules@[j],
            if index < old(self).modules@.len() {
                Module::add_entry_spec(
                    old(self).modules@[index as int],
                    label@,
                    match secret {
                        Some(s) => Some(s@),
                        None => None,
                    },
                    final(self).modules@[index as int],
                    r,
                )
            } else {
                r == Err::<Option<Password>, StoreError>(StoreError::NotFound)
            },
    {
        if index >= self.modules.len() {
            return Err(StoreError::NotFound);
        }
        let module = self.modules.remove(index);
        let (module, r) = module.add_entry(label, secret);
        proof {
            lemma_replace_keeps_wf(old(self).modules@, index as int, module);
        }
        self.modules.insert(index, module);
        r
    }

    /// Takes a label out of the module at a position.
    pub fn remove_entry(&mut self, index: usize, label: &str) -> (r: Result<Password, StoreError>)
        requires
            old(self).wf(),
        ensures
            final(self).wf(),
            final(self).modules@.len() == old(self).modules@.len(),
            forall|j: int|
                0 <= j < old(self).modules@.len() && j != index ==> final(self).modules@[j] == old(self).modules@[j],
            if index < old(self).modules@.len() {
                Module::remove_entry_spec(
                    old(self).modules@[index as int],
                    label@,
                    final(self).modules@[index as int],
                    r,
                )
            } else {
                r == Err::<Password, StoreError>(StoreError::NotFound)
            },
    {
        if index >= self.modules.len() {
            return Err(StoreError::NotFound);
        }
        let module = self.modules.remove(index);
        let (module, r) = module.remove_entry(label);
        proof {
            lemma_replace_keeps_wf(old(self).modules@, index as int, module);
        }
        self.modules.insert(index, module);
        r
    }

    /// Seals the unlocked module at a position again and returns the
    /// ciphertext for its entry file.
    pub fn lock(&mut self, index: usize) -> (r: Result<Vec<u8>, StoreError>)
        requires
            old(self).wf(),
        ensures
            final(self).wf(),
            final(self).modules@.len() == old(self).modules@.len(),
            forall|j: int|
                0 <= j < old(self).modules@.len() && j != index ==> final(self).modules@[j] == old(self).modules@[j],
            if index < old(self).modules@.len() {
                Module::lock_spec(
                    old(self).modules@[index as int],
                    final(self).modules@[index as int],
                    r,
                )
            } else {
                r == Err::<Vec<u8>, StoreError>(StoreError::NotFound)
            },
    {
        if index >= self.modules.len() {
            return Err(StoreError::NotFound);
        }
        let module = self.modules.remove(index);
        let (module, r) = module.lock();
        proof {
            lemma_replace_keeps_wf(old(self).modules@, index as int, module);
        }
        self.modules.insert(index, module);
        r
    }

    /// The scheme registry of the list.
    pub fn scheme_registry(&self) -> (registry: SchemeRegistry)
        requires
            self.wf(),
        ensures
            registry.wf(),
            registry@ == self.scheme_map(),
    {
        let mut registry = SchemeRegistry::new();
        let mut i: usize = 0;
        while i < self.modules.len()
            invariant
                i <= self.modules@.len(),
                self.wf(),
                registry.wf(),
                registry@ == schemes_upto(self.modules@, i as nat),
            decreases self.modules@.len() - i,
        {
            assert(self.modules@[i as int].wf());
            match &self.modules[i].scheme {
                Some(scheme) => {
                    registry.insert(self.modules[i].name.as_str(), scheme.duplicate());
                },
                None => {},
            }
            i += 1;
        }
        registry
    }

    /// The shutdown pass: every unlocked module is sealed again with its
    /// cached password, every plaintext module in memory is serialized, and
    /// the scheme registry is written. Afterwards no entries and no password
    /// are left in memory, whatever failed on the way.
    pub fn clean_up(&mut self) -> (report: CleanupReport)
        requires
            old(self).wf(),
        ensures
            final(self).wf(),
            final(self).all_at_rest(),
            final(self).modules@.len() == old(self).modules@.len(),
            report.steps@.len() == old(self).modules@.len(),
            forall|i: int|
                0 <= i < old(self).modules@.len() ==> Module::shut_spec(
                    old(self).modules@[i],
                    #[trigger] final(self).modules@[i],
                    report.steps@[i],
                ),
            match report.registry {
                Ok(bytes) => saved(final(self).scheme_map()) == Some(bytes@),
                Err(e) => e == StoreError::SerializationError && saved(final(self).scheme_map())
                    is None,
            },
    {
        let ghost before = self.modules@;
        let mut steps: Vec<Result<Option<Vec<u8>>, StoreError>> = Vec::new();
        let mut i: usize = 0;
        while i < self.modules.len()
            invariant
                i <= self.modules@.len(),
                self.modules@.len() == before.len(),
                list_wf(before),
                list_wf(self.modules@),
                steps@.len() == i,
                forall|k: int| 0 <= k < before.len() ==> (#[trigger] self.modules@[k]).name@ == before[k].name@,
                forall|k: int|
                    0 <= k < i ==> Module::shut_spec(before[k], #[trigger] self.modules@[k], steps@[k])
                        && self.modules@[k].at_rest(),
                forall|k: int| i <= k < before.len() ==> #[trigger] self.modules@[k] == before[k],
            decreases self.modules@.len() - i,
        {
            let ghost current = self.modules@;
            let module = self.modules.remove(i);
            let (module, step) = module.shut();
            proof {
                lemma_replace_keeps_wf(current, i as int, module);
            }
            self.modules.insert(i, module);
            steps.push(step);
            i += 1;
        }
        let registry = self.scheme_registry().save_scheme_registry();
        CleanupReport { steps, registry }
    }
}

} // verus!
