//! Secrets and the entry store of a module.
//!
//! A `Password` is one secret; `PasswordEntries` maps labels to secrets and is
//! what a module holds while it is unlocked. On disk an entry store is a JSON
//! object from label to secret string.

use crate::assoc::{
    assoc_map, assoc_put, assoc_take, distinct_keys, has_key, lemma_assoc_absent, lemma_assoc_at, lemma_assoc_push,
    lemma_assoc_remove, lemma_assoc_update, position_of,
};
use crate::error::StoreError;
use rand::Rng;
use std::collections::BTreeMap;
use vstd::prelude::*;

verus! {

/// `String::push` appends one character.
pub assume_specification[ String::push ](s: &mut String, c: char)
    ensures
        final(s)@ == old(s)@.push(c),
;

/// The error type of `serde_json`; carried through, never inspected.
#[verifier::external_type_specification]
#[verifier::external_body]
pub struct ExJsonError(serde_json::Error);

/// The bytes that `serde_json::to_vec` produces for a map from label to
/// secret, or `None` where it reports an error.
pub uninterp spec fn json_object_text(entries: Map<Seq<char>, Seq<char>>) -> Option<Seq<u8>>;

/// The map from label to secret that `serde_json::from_slice` reads from the
/// bytes, or `None` where it reports an error.
pub uninterp spec fn json_object_entries(bytes: Seq<u8>) -> Option<Map<Seq<char>, Seq<char>>>;

/// A character of the punctuation range `!` to `.` from which the special
/// character of a generated secret is drawn.
pub open spec fn is_special(c: char) -> bool {
    33 <= c as u32 && (c as u32) < 47
}

/// An upper-case ASCII letter.
pub open spec fn is_upper(c: char) -> bool {
    65 <= c as u32 && (c as u32) < 91
}

/// An ASCII letter or digit, as a byte.
pub open spec fn is_alphanumeric_byte(b: u8) -> bool {
    (48 <= b && b <= 57) || (65 <= b && b <= 90) || (97 <= b && b <= 122)
}

/// An ASCII letter or digit.
pub open spec fn is_alphanumeric(c: char) -> bool {
    (48 <= c as u32 && c as u32 <= 57) || (65 <= c as u32 && c as u32 <= 90) || (97 <= c as u32
        && c as u32 <= 122)
}

/// The text that results from a random body by putting the special character
/// at position `i` and the upper-case letter at position `j`. Where the two
/// positions coincide the special character stands.
pub open spec fn composed(body: Seq<u8>, special: u8, upper: u8, i: int, j: int) -> Seq<char> {
    Seq::new(
        body.len(),
        |k: int|
            if k == i {
                special as char
            } else if k == j {
                upper as char
            } else {
                body[k] as char
            },
    )
}

/// `s` has a special character at `i`, an upper-case letter at `j`, and
/// letters and digits everywhere else.
pub open spec fn placed(s: Seq<char>, i: int, j: int) -> bool {
    &&& 0 <= i < s.len()
    &&& 0 <= j < s.len()
    &&& i != j
    &&& is_special(s[i])
    &&& is_upper(s[j])
    &&& forall|k: int| 0 <= k < s.len() && k != i && k != j ==> is_alphanumeric(#[trigger] s[k])
}

/// What every generated secret of length `len` looks like: a special
/// character and an upper-case letter at two distinct positions among letters
/// and digits.
pub open spec fn well_composed(s: Seq<char>, len: nat) -> bool {
    s.len() == len && exists|i: int, j: int| #[trigger] placed(s, i, j)
}

/// `rand::Rng::sample` with `rand::distributions::Uniform::new(low, high)`:
/// some byte of the half-open range, which must not be empty.
#[verifier::external_body]
fn random_in_range(low: u8, high: u8) -> (b: u8)
    requires
        low < high,
    ensures
        low <= b < high,
{
    rand::thread_rng().sample(rand::distributions::Uniform::new(low, high))
}

/// `rand::Rng::sample` with `rand::distributions::Alphanumeric`: some ASCII
/// letter or digit.
#[verifier::external_body]
fn random_alphanumeric() -> (b: u8)
    ensures
        is_alphanumeric_byte(b),
{
    rand::thread_rng().sample(rand::distributions::Alphanumeric)
}

/// `rand::seq::index::sample` for two indices: two distinct positions below
/// `len`, which must be at least two.
#[verifier::external_body]
fn random_index_pair(len: usize) -> (pair: (usize, usize))
    requires
        len >= 2,
    ensures
        pair.0 < len,
        pair.1 < len,
        pair.0 != pair.1,
{
    let picked = rand::seq::index::sample(&mut rand::thread_rng(), len, 2);
    (picked.index(0), picked.index(1))
}

/// One secret.
#[derive(Debug)]
pub struct Password(pub String);

impl View for Password {
    type V = Seq<char>;

    open spec fn view(&self) -> Seq<char> {
        self.0@
    }
}

impl Password {
    /// A secret with the given text.
    pub fn new_from(password: &str) -> (p: Password)
        ensures
            p@ == password@,
    {
        Password(password.to_owned())
    }

    /// A generated secret of 32 characters.
    pub fn new_password32() -> (p: Password)
        ensures
            well_composed(p@, 32),
    {
        Password(Self::generate_random_string(32))
    }

    /// A generated secret of 64 characters.
    pub fn new_password64() -> (p: Password)
        ensures
            well_composed(p@, 64),
    {
        Password(Self::generate_random_string(64))
    }

    /// A random text of `len` letters and digits in which one position holds a
    /// special character and another an upper-case letter.
    pub fn generate_random_string(len: usize) -> (s: String)
        requires
            len >= 2,
        ensures
            well_composed(s@, len as nat),
    {
        let special = random_in_range(33, 47);
        let upper = random_in_range(65, 91);
        let pair = random_index_pair(len);
        let mut body: Vec<u8> = Vec::new();
        let mut k: usize = 0;
        while k < len
            invariant
                k <= len,
                body@.len() == k,
                forall|n: int| 0 <= n < k ==> is_alphanumeric_byte(#[trigger] body@[n]),
            decreases len - k,
        {
            body.push(random_alphanumeric());
            k += 1;
        }
        let s = Self::compose(&body, special, upper, pair.0, pair.1);
        proof {
            lemma_composed_placed(body@, special, upper, pair.0 as int, pair.1 as int);
        }
        s
    }

    /// Puts `special` at position `i` and `upper` at position `j` of the body
    /// and reads the bytes as characters.
    pub fn compose(body: &Vec<u8>, special: u8, upper: u8, i: usize, j: usize) -> (s: String)
        ensures
            s@ == composed(body@, special, upper, i as int, j as int),
    {
        let mut s = String::new();
        let mut k: usize = 0;
        while k < body.len()
            invariant
                k <= body@.len(),
                s@.len() == k,
                forall|n: int|
                    0 <= n < k ==> #[trigger] s@[n] == composed(
                        body@,
                        special,
                        upper,
                        i as int,
                        j as int,
                    )[n],
            decreases body@.len() - k,
        {
            let b = if k == i {
                special
            } else if k == j {
                upper
            } else {
                body[k]
            };
            s.push(b as char);
            k += 1;
        }
        assert(s@ =~= composed(body@, special, upper, i as int, j as int));
        s
    }

    /// The secret's text.
    pub fn get(&self) -> (text: &str)
        ensures
            text@ == self@,
    {
        self.0.as_str()
    }

    /// Whether two secrets have the same text.
    pub fn same(&self, other: &Password) -> (r: bool)
        ensures
            r == (self@ == other@),
    {
        self.0 == other.0
    }

    /// A second copy of the secret.
    pub fn duplicate(&self) -> (p: Password)
        ensures
            p@ == self@,
    {
        Password(self.0.clone())
    }
}

/// A body of letters and digits, composed at two distinct positions within it
/// with a special character and an upper-case letter, is well composed.
pub proof fn lemma_composed_placed(body: Seq<u8>, special: u8, upper: u8, i: int, j: int)
    requires
        0 <= i < body.len(),
        0 <= j < body.len(),
        i != j,
        33 <= special < 47,
        65 <= upper < 91,
        forall|n: int| 0 <= n < body.len() ==> is_alphanumeric_byte(#[trigger] body[n]),
    ensures
        well_composed(composed(body, special, upper, i, j), body.len()),
{
    let s = composed(body, special, upper, i, j);
    assert forall|k: int| 0 <= k < s.len() && k != i && k != j implies is_alphanumeric(
        #[trigger] s[k],
    ) by {
        assert(is_alphanumeric_byte(body[k]));
    }
    assert(placed(s, i, j));
}

/// The entries of one module: labels, each with its secret. No label occurs
/// twice; the order is that of insertion.
pub struct PasswordEntries {
    items: Vec<(String, Password)>,
}

impl View for PasswordEntries {
    type V = Map<Seq<char>, Seq<char>>;

    /// The map from label to secret.
    closed spec fn view(&self) -> Map<Seq<char>, Seq<char>> {
        assoc_map(self.pairs())
    }
}

impl PasswordEntries {
    /// The entries in display order, as `(label, secret)`.
    pub closed spec fn pairs(&self) -> Seq<(Seq<char>, Seq<char>)> {
        Seq::new(self.items@.len(), |i: int| (self.items@[i].0@, self.items@[i].1@))
    }

    /// No label occurs twice.
    pub closed spec fn wf(&self) -> bool {
        distinct_keys(self.pairs())
    }

    /// In a well-formed store every row is the map's binding for its label.
    pub proof fn lemma_row(&self, i: int)
        requires
            self.wf(),
            0 <= i < self.pairs().len(),
        ensures
            self@.dom().contains(self.pairs()[i].0),
            self@[self.pairs()[i].0] == self.pairs()[i].1,
    {
        lemma_assoc_at(self.pairs(), i);
    }

    /// An empty store.
    pub fn new() -> (entries: PasswordEntries)
        ensures
            entries.wf(),
            entries@ == Map::<Seq<char>, Seq<char>>::empty(),
            entries.pairs().len() == 0,
    {
        let entries = PasswordEntries { items: Vec::new() };
        assert(entries@ =~= Map::<Seq<char>, Seq<char>>::empty());
        entries
    }

    /// The number of entries.
    pub fn len(&self) -> (n: usize)
        ensures
            n == self.pairs().len(),
    {
        self.items.len()
    }

    /// The entry at a position of the display order.
    pub fn entry_at(&self, index: usize) -> (row: (&str, &str))
        requires
            index < self.pairs().len(),
        ensures
            (row.0@, row.1@) == self.pairs()[index as int],
    {
        (self.items[index].0.as_str(), self.items[index].1.get())
    }

    fn position(&self, label: &String) -> (r: Option<usize>)
        ensures
            match r {
                Some(i) => i < self.pairs().len() && self.pairs()[i as int].0 == label@,
                None => !has_key(self.pairs(), label@),
            },
    {
        let mut i: usize = 0;
        while i < self.items.len()
            invariant
                i <= self.items@.len(),
                forall|k: int| 0 <= k < i ==> (#[trigger] self.pairs()[k]).0 != label@,
            decreases self.items@.len() - i,
        {
            if self.items[i].0 == *label {
                return Some(i);
            }
            i += 1;
        }
        None
    }

    /// The secret under a label, where there is one.
    pub fn get(&self, label: &str) -> (r: Option<&Password>)
        requires
            self.wf(),
        ensures
            match r {
                Some(p) => self@.dom().contains(label@) && p@ == self@[label@],
                None => !self@.dom().contains(label@),
            },
    {
        let owned = label.to_owned();
        match self.position(&owned) {
            Some(i) => {
                proof {
                    lemma_assoc_at(self.pairs(), i as int);
                }
                Some(&self.items[i].1)
            },
            None => None,
        }
    }

    /// Binds the label to the secret and returns the secret that it had before.
    pub fn insert(&mut self, label: &str, entry: Password) -> (previous: Option<Password>)
        requires
            old(self).wf(),
        ensures
            final(self).wf(),
            final(self)@ == old(self)@.insert(label@, entry@),
            final(self).pairs() == assoc_put(old(self).pairs(), label@, entry@),
            match previous {
                Some(p) => old(self)@.dom().contains(label@) && p@ == old(self)@[label@],
                None => !old(self)@.dom().contains(label@),
            },
    {
        let owned = label.to_owned();
        let ghost before = self.pairs();
        match self.position(&owned) {
            Some(i) => {
                self.items.push((owned, entry));
                let replaced = self.items.swap_remove(i);
                proof {
                    lemma_assoc_at(before, i as int);
                    lemma_assoc_update(before, i as int, entry@);
                    assert(self.pairs() =~= before.update(i as int, (before[i as int].0, entry@)));
                }
                Some(replaced.1)
            },
            None => {
                self.items.push((owned, entry));
                proof {
                    lemma_assoc_push(before, label@, entry@);
                    assert(self.pairs() =~= before.push((label@, entry@)));
                }
                None
            },
        }
    }

    /// Takes the label out and returns the secret that it had.
    pub fn remove(&mut self, label: &str) -> (removed: Option<Password>)
        requires
            old(self).wf(),
        ensures
            final(self).wf(),
            final(self)@ == old(self)@.remove(label@),
            final(self).pairs() == assoc_take(old(self).pairs(), label@),
            match removed {
                Some(p) => old(self)@.dom().contains(label@) && p@ == old(self)@[label@],
                None => !old(self)@.dom().contains(label@),
            },
    {
        let owned = label.to_owned();
        let ghost before = self.pairs();
        match self.position(&owned) {
            Some(i) => {
                let taken = self.items.remove(i);
                proof {
                    lemma_assoc_at(before, i as int);
                    lemma_assoc_remove(before, i as int);
                    assert(self.pairs() =~= before.remove(i as int));
                }
                Some(taken.1)
            },
            None => {
                assert(self@ =~= old(self)@.remove(label@));
                None
            },
        }
    }

    /// Whether every entry of `other` is an entry of this store.
    pub fn covers(&self, other: &PasswordEntries) -> (r: bool)
        requires
            self.wf(),
            other.wf(),
        ensures
            r == other@.submap_of(self@),
    {
        let mut i: usize = 0;
        while i < other.items.len()
            invariant
                i <= other.items@.len(),
                self.wf(),
                other.wf(),
                forall|k: int|
                    0 <= k < i ==> self@.dom().contains((#[trigger] other.pairs()[k]).0) && self@[other.pairs()[k].0]
                        == other.pairs()[k].1,
            decreases other.items@.len() - i,
        {
            proof {
                lemma_assoc_at(other.pairs(), i as int);
            }
            match self.position(&other.items[i].0) {
                Some(p) => {
                    proof {
                        lemma_assoc_at(self.pairs(), p as int);
                    }
                    if !self.items[p].1.same(&other.items[i].1) {
                        proof {
                            let k = other.pairs()[i as int].0;
                            assert(other@.dom().contains(k) && other@[k] != self@[k]);
                        }
                        return false;
                    }
                },
                None => {
                    proof {
                        let k = other.pairs()[i as int].0;
                        lemma_assoc_absent(self.pairs(), k);
                        assert(other@.dom().contains(k) && !self@.dom().contains(k));
                    }
                    return false;
                },
            }
            i += 1;
        }
        proof {
            assert forall|k: Seq<char>| other@.dom().contains(k) implies #[trigger] self@.dom().contains(k)
                && other@[k] == self@[k] by {
                let p = position_of(other.pairs(), k);
                lemma_assoc_at(other.pairs(), p);
            }
        }
        true
    }

    /// Whether two stores hold the same entries.
    pub fn same_entries(&self, other: &PasswordEntries) -> (r: bool)
        requires
            self.wf(),
            other.wf(),
        ensures
            r == (self@ == other@),
    {
        let r = self.covers(other) && other.covers(self);
        proof {
            if r {
                assert forall|k: Seq<char>| self@.dom().contains(k) <==> other@.dom().contains(
                    k,
                ) by {}
                assert(self@ =~= other@);
            }
        }
        r
    }

    /// A second copy of the store.
    pub fn duplicate(&self) -> (copy: PasswordEntries)
        requires
            self.wf(),
        ensures
            copy.wf(),
            copy@ == self@,
            copy.pairs() == self.pairs(),
    {
        let mut items: Vec<(String, Password)> = Vec::new();
        let mut i: usize = 0;
        while i < self.items.len()
            invariant
                i <= self.items@.len(),
                items@.len() == i,
                forall|k: int|
                    0 <= k < i ==> (#[trigger] items@[k]).0@ == self.items@[k].0@ && items@[k].1@
                        == self.items@[k].1@,
            decreases self.items@.len() - i,
        {
            items.push((self.items[i].0.clone(), self.items[i].1.duplicate()));
            i += 1;
        }
        let copy = PasswordEntries { items };
        assert(copy.pairs() =~= self.pairs());
        copy
    }

    /// The entry file of this store: a JSON object from label to secret. The
    /// bytes are read back before they are handed out, so whatever is returned
    /// deserializes to exactly these entries.
    pub fn serialize(&self) -> (r: Result<Vec<u8>, StoreError>)
        requires
            self.wf(),
        ensures
            match r {
                Ok(bytes) => serialized(self@) == Some(bytes@),
                Err(e) => e == StoreError::SerializationError && serialized(self@) is None,
            },
    {
        match json_encode(self) {
            Ok(bytes) => {
                let reread = match json_decode(bytes.as_slice()) {
                    Ok(entries) => Some(entries),
                    Err(_) => None,
                };
                self.confirm_serialized(bytes, reread)
            },
            Err(_) => Err(StoreError::SerializationError),
        }
    }

    /// Accepts serialized bytes only if what was read back from them is this
    /// store.
    pub fn confirm_serialized(&self, bytes: Vec<u8>, reread: Option<PasswordEntries>) -> (r: Result<
        Vec<u8>,
        StoreError,
    >)
        requires
            self.wf(),
            reread matches Some(entries) ==> entries.wf(),
        ensures
            match r {
                Ok(accepted) => accepted == bytes && reads_as(reread, self@),
                Err(e) => e == StoreError::SerializationError && !reads_as(reread, self@),
            },
    {
        match reread {
            Some(entries) => {
                if self.same_entries(&entries) {
                    Ok(bytes)
                } else {
                    Err(StoreError::SerializationError)
                }
            },
            None => Err(StoreError::SerializationError),
        }
    }

    /// Reads an entry file.
    pub fn deserialize(bytes: &[u8]) -> (r: Result<PasswordEntries, StoreError>)
        ensures
            match r {
                Ok(entries) => entries.wf() && json_object_entries(bytes@) == Some(entries@),
                Err(e) => e == StoreError::SerializationError && json_object_entries(bytes@)
                    is None,
            },
    {
        match json_decode(bytes) {
            Ok(entries) => Ok(entries),
            Err(_) => Err(StoreError::SerializationError),
        }
    }
}

/// What was read back is a store with exactly these entries.
pub open spec fn reads_as(reread: Option<PasswordEntries>, entries: Map<Seq<char>, Seq<char>>) -> bool {
    match reread {
        Some(store) => store@ == entries,
        None => false,
    }
}

/// The entry file of a map from label to secret: the JSON text for it,
/// provided that reading the text gives the map back.
pub open spec fn serialized(entries: Map<Seq<char>, Seq<char>>) -> Option<Seq<u8>> {
    match json_object_text(entries) {
        Some(bytes) => if json_object_entries(bytes) == Some(entries) {
            Some(bytes)
        } else {
            None
        },
        None => None,
    }
}

/// `serde_json::to_vec` on the map from label to secret that the store stands
/// for: the JSON text of that map, or the error that `serde_json` reported.
#[verifier::external_body]
fn json_encode(entries: &PasswordEntries) -> (r: Result<Vec<u8>, serde_json::Error>)
    requires
        entries.wf(),
    ensures
        match r {
            Ok(bytes) => json_object_text(entries@) == Some(bytes@),
            Err(_) => json_object_text(entries@) is None,
        },
{
    let map: BTreeMap<&str, &str> = entries.items.iter().map(|e| (e.0.as_str(), e.1.0.as_str())).collect();
    serde_json::to_vec(&map)
}

/// `serde_json::from_slice` for a map from text to text: the entries of the
/// JSON object, each label once, or the error that `serde_json` reported.
#[verifier::external_body]
fn json_decode(bytes: &[u8]) -> (r: Result<PasswordEntries, serde_json::Error>)
    ensures
        match r {
            Ok(entries) => entries.wf() && json_object_entries(bytes@) == Some(entries@),
            Err(_) => json_object_entries(bytes@) is None,
        },
{
    let map: BTreeMap<String, String> = serde_json::from_slice(bytes)?;
    Ok(PasswordEntries { items: map.into_iter().map(|(k, v)| (k, Password(v))).collect() })
}

/// Adds a generated secret of 32 characters under the name and returns the
/// secret that the name had before.
pub fn add_password_32(entries: &mut PasswordEntries, name: &str) -> (previous: Option<Password>)
    requires
        old(entries).wf(),
    ensures
        final(entries).wf(),
        final(entries)@.dom().contains(name@),
        well_composed(final(entries)@[name@], 32),
        final(entries)@ == old(entries)@.insert(name@, final(entries)@[name@]),
        final(entries).pairs() == assoc_put(old(entries).pairs(), name@, final(entries)@[name@]),
        match previous {
            Some(p) => old(entries)@.dom().contains(name@) && p@ == old(entries)@[name@],
            None => !old(entries)@.dom().contains(name@),
        },
{
    let pw = Password::new_password32();
    entries.insert(name, pw)
}

/// Adds a generated secret of 64 characters under the name and returns the
/// secret that the name had before.
pub fn add_password_64(entries: &mut PasswordEntries, name: &str) -> (previous: Option<Password>)
    requires
        old(entries).wf(),
    ensures
        final(entries).wf(),
        final(entries)@.dom().contains(name@),
        well_composed(final(entries)@[name@], 64),
        final(entries)@ == old(entries)@.insert(name@, final(entries)@[name@]),
        final(entries).pairs() == assoc_put(old(entries).pairs(), name@, final(entries)@[name@]),
        match previous {
            Some(p) => old(entries)@.dom().contains(name@) && p@ == old(entries)@[name@],
            None => !old(entries)@.dom().contains(name@),
        },
{
    let pw = Password::new_password64();
    entries.insert(name, pw)
}

} // verus!
