//! The scheme registry: which module is encrypted under which scheme.
//!
//! On disk the registry is a RON map from module name to a record
//! `((algorithm, version, m_cost, t_cost, p_cost, output_len), salt, nonce)`:
//! the key derivation's parameters as separate fields, the salt as text and
//! the nonce as a list of bytes. No key and no hash is part of it.

use crate::assoc::{
    assoc_map, distinct_keys, has_key, lemma_assoc_absent, lemma_assoc_at, lemma_assoc_push,
    lemma_assoc_update, position_of,
};
use crate::error::StoreError;
use crate::pbes::{bytes_eq, EncryptionScheme, KdfAlgorithm, KdfParameters, KdfVersion, SchemeView, NONCE_LEN};
use std::collections::BTreeMap;
use vstd::prelude::*;

verus! {

/// The error type of RON's serializer; carried through, never inspected.
#[verifier::external_type_specification]
#[verifier::external_body]
pub struct ExRonError(ron::error::Error);

/// The error type of RON's parser; carried through, never inspected.
#[verifier::external_type_specification]
#[verifier::external_body]
pub struct ExRonSpannedError(ron::error::SpannedError);

/// The bytes that `ron::ser::to_writer` writes for a map from module name to
/// record, or `None` where it reports an error.
pub uninterp spec fn ron_registry_text(records: Map<Seq<char>, SchemeRecordView>) -> Option<Seq<u8>>;

/// The map from module name to record that `ron::de::from_bytes` reads, or
/// `None` where it reports an error.
pub uninterp spec fn ron_registry_records(bytes: Seq<u8>) -> Option<Map<Seq<char>, SchemeRecordView>>;

/// A scheme as it is written down: every field a number, a text or bytes.
pub struct SchemeRecord {
    pub algorithm: String,
    pub version: u32,
    pub m_cost: u32,
    pub t_cost: u32,
    pub p_cost: u32,
    pub output_len: u32,
    pub salt: String,
    pub nonce: Vec<u8>,
}

/// A record as plain values.
pub struct SchemeRecordView {
    pub algorithm: Seq<char>,
    pub version: u32,
    pub m_cost: u32,
    pub t_cost: u32,
    pub p_cost: u32,
    pub output_len: u32,
    pub salt: Seq<char>,
    pub nonce: Seq<u8>,
}

impl View for SchemeRecord {
    type V = SchemeRecordView;

    open spec fn view(&self) -> SchemeRecordView {
        SchemeRecordView {
            algorithm: self.algorithm@,
            version: self.version,
            m_cost: self.m_cost,
            t_cost: self.t_cost,
            p_cost: self.p_cost,
            output_len: self.output_len,
            salt: self.salt@,
            nonce: self.nonce@,
        }
    }
}

/// The record that writes a scheme down.
pub open spec fn record_of(scheme: SchemeView) -> SchemeRecordView {
    SchemeRecordView {
        algorithm: scheme.kdf.algorithm.ident_text(),
        version: scheme.kdf.version.number_of(),
        m_cost: scheme.kdf.m_cost,
        t_cost: scheme.kdf.t_cost,
        p_cost: scheme.kdf.p_cost,
        output_len: scheme.kdf.output_len,
        salt: scheme.salt,
        nonce: scheme.nonce,
    }
}

/// The scheme that a record writes down, or `None` where the algorithm or the
/// version is unknown or the nonce has the wrong length.
pub open spec fn scheme_of(record: SchemeRecordView) -> Option<SchemeView> {
    match (KdfAlgorithm::named(record.algorithm), KdfVersion::numbered(record.version)) {
        (Some(algorithm), Some(version)) => if record.nonce.len() == NONCE_LEN {
            Some(
                SchemeView {
                    kdf: KdfParameters {
                        algorithm,
                        version,
                        m_cost: record.m_cost,
                        t_cost: record.t_cost,
                        p_cost: record.p_cost,
                        output_len: record.output_len,
                    },
                    salt: record.salt,
                    nonce: record.nonce,
                },
            )
        } else {
            None
        },
        _ => None,
    }
}

/// A scheme with a nonce of the right length is the scheme that its record
/// writes down.
pub proof fn lemma_record_round_trip(scheme: SchemeView)
    requires
        scheme.nonce.len() == NONCE_LEN,
    ensures
        scheme_of(record_of(scheme)) == Some(scheme),
{
    scheme.kdf.algorithm.lemma_ident_round_trip();
}

impl EncryptionScheme {
    /// Writes the scheme down as a record.
    pub fn serialize(&self) -> (record: SchemeRecord)
        ensures
            record@ == record_of(self@),
    {
        SchemeRecord {
            algorithm: self.kdf.algorithm.ident().to_owned(),
            version: self.kdf.version.number(),
            m_cost: self.kdf.m_cost,
            t_cost: self.kdf.t_cost,
            p_cost: self.kdf.p_cost,
            output_len: self.kdf.output_len,
            salt: self.salt.clone(),
            nonce: self.nonce.clone(),
        }
    }

    /// Reads a scheme from a record.
    pub fn deserialize(record: &SchemeRecord) -> (r: Result<EncryptionScheme, StoreError>)
        ensures
            match r {
                Ok(scheme) => scheme.wf() && scheme_of(record@) == Some(scheme@),
                Err(e) => e == StoreError::SerializationError && scheme_of(record@) is None,
            },
    {
        let algorithm = match KdfAlgorithm::from_ident(record.algorithm.as_str()) {
            Some(a) => a,
            None => {
                return Err(StoreError::SerializationError);
            },
        };
        let version = match KdfVersion::from_number(record.version) {
            Some(v) => v,
            None => {
                return Err(StoreError::SerializationError);
            },
        };
        if record.nonce.len() != NONCE_LEN {
            return Err(StoreError::SerializationError);
        }
        Ok(
            EncryptionScheme {
                kdf: KdfParameters {
                    algorithm,
                    version,
                    m_cost: record.m_cost,
                    t_cost: record.t_cost,
                    p_cost: record.p_cost,
                    output_len: record.output_len,
                },
                salt: record.salt.clone(),
                nonce: record.nonce.clone(),
            },
        )
    }
}

impl SchemeRecord {
    /// Whether two records agree in every field.
    pub fn same(&self, other: &SchemeRecord) -> (r: bool)
        ensures
            r == (self@ == other@),
    {
        let r = self.algorithm == other.algorithm && self.version == other.version && self.m_cost
            == other.m_cost && self.t_cost == other.t_cost && self.p_cost == other.p_cost
            && self.output_len == other.output_len && self.salt == other.salt && bytes_eq(
            self.nonce.as_slice(),
            other.nonce.as_slice(),
        );
        r
    }
}

/// Named records as `(name, record)` pairs of plain values.
pub open spec fn record_pairs(records: Seq<(String, SchemeRecord)>) -> Seq<
    (Seq<char>, SchemeRecordView),
> {
    Seq::new(records.len(), |i: int| (records[i].0@, records[i].1@))
}

/// `ron::ser::to_writer` on the map from name to record, each record written
/// as a tuple of its fields: the RON text, or RON's error.
#[verifier::external_body]
fn ron_encode(records: &Vec<(String, SchemeRecord)>) -> (r: Result<Vec<u8>, ron::error::Error>)
    requires
        distinct_keys(record_pairs(records@)),
    ensures
        match r {
            Ok(bytes) => ron_registry_text(assoc_map(record_pairs(records@))) == Some(bytes@),
            Err(_) => ron_registry_text(assoc_map(record_pairs(records@))) is None,
        },
{
    let map: BTreeMap<&str, ((&str, u32, u32, u32, u32, u32), &str, &[u8])> = records.iter().map(
        |(n, s)| (n.as_str(), ((s.algorithm.as_str(), s.version, s.m_cost, s.t_cost, s.p_cost, s.output_len), s.salt.as_str(), s.nonce.as_slice())),
    ).collect();
    let mut bytes = Vec::new();
    ron::ser::to_writer(&mut bytes, &map)?;
    Ok(bytes)
}

/// `ron::de::from_bytes` for a map from name to record tuple: the records,
/// each name once, or RON's error.
#[verifier::external_body]
fn ron_decode(bytes: &[u8]) -> (r: Result<Vec<(String, SchemeRecord)>, ron::error::SpannedError>)
    ensures
        match r {
            Ok(records) => distinct_keys(record_pairs(records@)) && ron_registry_records(bytes@)
                == Some(assoc_map(record_pairs(records@))),
            Err(_) => ron_registry_records(bytes@) is None,
        },
{
    let map: BTreeMap<String, ((String, u32, u32, u32, u32, u32), String, Vec<u8>)> = ron::de::from_bytes(bytes)?;
    Ok(map.into_iter().map(
        |(name, (k, salt, nonce))| (name, SchemeRecord { algorithm: k.0, version: k.1, m_cost: k.2, t_cost: k.3, p_cost: k.4, output_len: k.5, salt, nonce }),
    ).collect())
}

fn find_record(records: &Vec<(String, SchemeRecord)>, name: &String) -> (r: Option<usize>)
    ensures
        match r {
            Some(i) => i < records@.len() && record_pairs(records@)[i as int].0 == name@,
            None => !has_key(record_pairs(records@), name@),
        },
{
    let mut i: usize = 0;
    while i < records.len()
        invariant
            i <= records@.len(),
            forall|k: int| 0 <= k < i ==> (#[trigger] record_pairs(records@)[k]).0 != name@,
        decreases records@.len() - i,
    {
        if records[i].0 == *name {
            return Some(i);
        }
        i += 1;
    }
    None
}

/// Whether every record of `b` is a record of `a`, under the same name.
fn records_cover(a: &Vec<(String, SchemeRecord)>, b: &Vec<(String, SchemeRecord)>) -> (r: bool)
    requires
        distinct_keys(record_pairs(a@)),
        distinct_keys(record_pairs(b@)),
    ensures
        r == assoc_map(record_pairs(b@)).submap_of(assoc_map(record_pairs(a@))),
{
    let ghost pa = record_pairs(a@);
    let ghost pb = record_pairs(b@);
    let mut i: usize = 0;
    while i < b.len()
        invariant
            i <= b@.len(),
            pa == record_pairs(a@),
            pb == record_pairs(b@),
            distinct_keys(pa),
            distinct_keys(pb),
            forall|k: int|
                0 <= k < i ==> assoc_map(pa).dom().contains((#[trigger] pb[k]).0) && assoc_map(
                    pa,
                )[pb[k].0] == pb[k].1,
        decreases b@.len() - i,
    {
        proof {
            lemma_assoc_at(pb, i as int);
        }
        match find_record(a, &b[i].0) {
            Some(p) => {
                proof {
                    lemma_assoc_at(pa, p as int);
                }
                if !a[p].1.same(&b[i].1) {
                    proof {
                        let k = pb[i as int].0;
                        assert(assoc_map(pb).dom().contains(k) && assoc_map(pb)[k] != assoc_map(
                            pa,
                        )[k]);
                    }
                    return false;
                }
            },
            None => {
                proof {
                    let k = pb[i as int].0;
                    lemma_assoc_absent(pa, k);
                    assert(assoc_map(pb).dom().contains(k) && !assoc_map(pa).dom().contains(k));
                }
                return false;
            },
        }
        i += 1;
    }
    proof {
        assert forall|k: Seq<char>| assoc_map(pb).dom().contains(k) implies #[trigger] assoc_map(
            pa,
        ).dom().contains(k) && assoc_map(pb)[k] == assoc_map(pa)[k] by {
            let p = position_of(pb, k);
            lemma_assoc_at(pb, p);
        }
    }
    true
}

/// The schemes of the encrypted modules, by module name. No name occurs
/// twice, and every scheme's nonce has the right length.
pub struct SchemeRegistry {
    schemes: Vec<(String, EncryptionScheme)>,
}

impl View for SchemeRegistry {
    type V = Map<Seq<char>, SchemeView>;

    /// The map from module name to scheme.
    closed spec fn view(&self) -> Map<Seq<char>, SchemeView> {
        assoc_map(self.pairs())
    }
}

/// The records that write a map of schemes down.
pub open spec fn records_of(schemes: Map<Seq<char>, SchemeView>) -> Map<Seq<char>, SchemeRecordView> {
    Map::new(|k: Seq<char>| schemes.dom().contains(k), |k: Seq<char>| record_of(schemes[k]))
}

/// Every record writes some scheme down.
pub open spec fn all_readable(records: Map<Seq<char>, SchemeRecordView>) -> bool {
    forall|k: Seq<char>| #[trigger] records.dom().contains(k) ==> scheme_of(records[k]) is Some
}

/// The schemes that a map of records writes down.
pub open spec fn schemes_of(records: Map<Seq<char>, SchemeRecordView>) -> Map<Seq<char>, SchemeView> {
    Map::new(
        |k: Seq<char>| records.dom().contains(k),
        |k: Seq<char>| scheme_of(records[k]).unwrap(),
    )
}

/// Every scheme of the map has a nonce of the right length.
pub open spec fn all_sound(schemes: Map<Seq<char>, SchemeView>) -> bool {
    forall|k: Seq<char>| #[trigger] schemes.dom().contains(k) ==> schemes[k].nonce.len() == NONCE_LEN
}

/// The registry file of a map of schemes: the RON text of its records,
/// provided that reading the text gives the records back.
pub open spec fn saved(schemes: Map<Seq<char>, SchemeView>) -> Option<Seq<u8>> {
    match ron_registry_text(records_of(schemes)) {
        Some(bytes) => if ron_registry_records(bytes) == Some(records_of(schemes)) {
            Some(bytes)
        } else {
            None
        },
        None => None,
    }
}

/// The schemes that a registry file holds, or `None` where the file is not a
/// registry or one of its records writes no scheme down.
pub open spec fn loaded(bytes: Seq<u8>) -> Option<Map<Seq<char>, SchemeView>> {
    match ron_registry_records(bytes) {
        Some(records) => if all_readable(records) {
            Some(schemes_of(records))
        } else {
            None
        },
        None => None,
    }
}

/// Loading what was saved gives the saved schemes back, every field of each.
pub proof fn lemma_load_inverts_save(schemes: Map<Seq<char>, SchemeView>, bytes: Seq<u8>)
    requires
        all_sound(schemes),
        saved(schemes) == Some(bytes),
    ensures
        loaded(bytes) == Some(schemes),
{
    let records = records_of(schemes);
    assert forall|k: Seq<char>| #[trigger] records.dom().contains(k) implies scheme_of(records[k])
        == Some(schemes[k]) by {
        assert(schemes.dom().contains(k));
        lemma_record_round_trip(schemes[k]);
    }
    assert(schemes_of(records) =~= schemes);
}

impl SchemeRegistry {
    /// The schemes in the order in which they were registered, each with its
    /// module's name.
    pub closed spec fn pairs(&self) -> Seq<(Seq<char>, SchemeView)> {
        Seq::new(self.schemes@.len(), |i: int| (self.schemes@[i].0@, self.schemes@[i].1@))
    }

    /// No name occurs twice and every nonce has the right length.
    pub closed spec fn wf(&self) -> bool {
        &&& distinct_keys(self.pairs())
        &&& forall|i: int| 0 <= i < self.schemes@.len() ==> (#[trigger] self.schemes@[i]).1.wf()
    }

    /// In a well-formed registry every scheme is sound.
    pub proof fn lemma_sound(&self)
        requires
            self.wf(),
        ensures
            all_sound(self@),
    {
        assert forall|k: Seq<char>| #[trigger] self@.dom().contains(k) implies self@[k].nonce.len()
            == NONCE_LEN by {
            let p = position_of(self.pairs(), k);
            lemma_assoc_at(self.pairs(), p);
            assert(self.schemes@[p].1.wf());
        }
    }

    /// A registry without schemes: what a missing registry file stands for.
    pub fn new() -> (registry: SchemeRegistry)
        ensures
            registry.wf(),
            registry@ == Map::<Seq<char>, SchemeView>::empty(),
            registry.pairs().len() == 0,
    {
        let registry = SchemeRegistry { schemes: Vec::new() };
        assert(registry@ =~= Map::<Seq<char>, SchemeView>::empty());
        registry
    }

    /// The number of schemes.
    pub fn len(&self) -> (n: usize)
        ensures
            n == self.pairs().len(),
    {
        self.schemes.len()
    }

    fn position(&self, name: &String) -> (r: Option<usize>)
        ensures
            match r {
                Some(i) => i < self.pairs().len() && self.pairs()[i as int].0 == name@,
                None => !has_key(self.pairs(), name@),
            },
    {
        let mut i: usize = 0;
        while i < self.schemes.len()
            invariant
                i <= self.schemes@.len(),
                forall|k: int| 0 <= k < i ==> (#[trigger] self.pairs()[k]).0 != name@,
            decreases self.schemes@.len() - i,
        {
            if self.schemes[i].0 == *name {
                return Some(i);
            }
            i += 1;
        }
        None
    }

    /// The scheme of a module, where it has one.
    pub fn get(&self, name: &str) -> (r: Option<&EncryptionScheme>)
        requires
            self.wf(),
        ensures
            match r {
                Some(scheme) => self@.dom().contains(name@) && scheme@ == self@[name@]
                    && scheme.wf(),
                None => !self@.dom().contains(name@),
            },
    {
        let owned = name.to_owned();
        match self.position(&owned) {
            Some(i) => {
                proof {
                    lemma_assoc_at(self.pairs(), i as int);
                }
                Some(&self.schemes[i].1)
            },
            None => None,
        }
    }

    /// Whether a module has a scheme.
    pub fn contains(&self, name: &str) -> (r: bool)
        requires
            self.wf(),
        ensures
            r == self@.dom().contains(name@),
    {
        self.get(name).is_some()
    }

    /// Registers the scheme of a module, in place of the one it had.
    pub fn insert(&mut self, name: &str, scheme: EncryptionScheme)
        requires
            old(self).wf(),
            scheme.wf(),
        ensures
            final(self).wf(),
            final(self)@ == old(self)@.insert(name@, scheme@),
    {
        let owned = name.to_owned();
        let ghost before = self.pairs();
        match self.position(&owned) {
            Some(i) => {
                self.schemes.push((owned, scheme));
                let _ = self.schemes.swap_remove(i);
                proof {
                    lemma_assoc_update(before, i as int, scheme@);
                    assert(self.pairs() =~= before.update(i as int, (before[i as int].0, scheme@)));
                }
            },
            None => {
                self.schemes.push((owned, scheme));
                proof {
                    lemma_assoc_push(before, name@, scheme@);
                    assert(self.pairs() =~= before.push((name@, scheme@)));
                }
            },
        }
    }

    fn to_records(&self) -> (records: Vec<(String, SchemeRecord)>)
        requires
            self.wf(),
        ensures
            distinct_keys(record_pairs(records@)),
            assoc_map(record_pairs(records@)) == records_of(self@),
    {
        let mut records: Vec<(String, SchemeRecord)> = Vec::new();
        let mut i: usize = 0;
        while i < self.schemes.len()
            invariant
                i <= self.schemes@.len(),
                records@.len() == i,
                forall|k: int|
                    0 <= k < i ==> (#[trigger] records@[k]).0@ == self.schemes@[k].0@
                        && records@[k].1@ == record_of(self.schemes@[k].1@),
            decreases self.schemes@.len() - i,
        {
            records.push((self.schemes[i].0.clone(), self.schemes[i].1.serialize()));
            i += 1;
        }
        proof {
            let rp = record_pairs(records@);
            let sp = self.pairs();
            assert forall|a: int, b: int| 0 <= a < b < rp.len() implies (#[trigger] rp[a]).0 != (
            #[trigger] rp[b]).0 by {
                assert(sp[a].0 != sp[b].0);
            }
            assert forall|k: Seq<char>| #[trigger] assoc_map(rp).dom().contains(k) <==> records_of(
                self@,
            ).dom().contains(k) by {
                if has_key(rp, k) {
                    let p = position_of(rp, k);
                    assert(sp[p].0 == k);
                }
                if has_key(sp, k) {
                    let p = position_of(sp, k);
                    assert(rp[p].0 == k);
                }
            }
            assert forall|k: Seq<char>| assoc_map(rp).dom().contains(k) implies #[trigger] assoc_map(
                rp,
            )[k] == records_of(self@)[k] by {
                let p = position_of(rp, k);
                lemma_assoc_at(rp, p);
                assert(sp[p].0 == k);
                lemma_assoc_at(sp, p);
            }
            assert(assoc_map(rp) =~= records_of(self@));
        }
        records
    }

    /// Reads every record; one that writes no scheme down spoils the whole.
    fn from_records(records: &Vec<(String, SchemeRecord)>) -> (r: Result<SchemeRegistry, StoreError>)
        requires
            distinct_keys(record_pairs(records@)),
        ensures
            match r {
                Ok(registry) => registry.wf() && all_readable(assoc_map(record_pairs(records@)))
                    && registry@ == schemes_of(assoc_map(record_pairs(records@))),
                Err(e) => e == StoreError::SerializationError && !all_readable(
                    assoc_map(record_pairs(records@)),
                ),
            },
    {
        let ghost rp = record_pairs(records@);
        let mut schemes: Vec<(String, EncryptionScheme)> = Vec::new();
        let mut i: usize = 0;
        while i < records.len()
            invariant
                i <= records@.len(),
                schemes@.len() == i,
                rp == record_pairs(records@),
                distinct_keys(rp),
                forall|k: int|
                    0 <= k < i ==> (#[trigger] schemes@[k]).0@ == rp[k].0 && schemes@[k].1.wf()
                        && scheme_of(rp[k].1) == Some(schemes@[k].1@),
            decreases records@.len() - i,
        {
            match EncryptionScheme::deserialize(&records[i].1) {
                Ok(scheme) => {
                    schemes.push((records[i].0.clone(), scheme));
                },
                Err(_) => {
                    proof {
                        lemma_assoc_at(rp, i as int);
                        assert(assoc_map(rp).dom().contains(rp[i as int].0));
                    }
                    return Err(StoreError::SerializationError);
                },
            }
            i += 1;
        }
        let registry = SchemeRegistry { schemes };
        proof {
            let sp = registry.pairs();
            assert forall|a: int, b: int| 0 <= a < b < sp.len() implies (#[trigger] sp[a]).0 != (
            #[trigger] sp[b]).0 by {
                assert(rp[a].0 != rp[b].0);
            }
            assert forall|k: Seq<char>| #[trigger] assoc_map(rp).dom().contains(k) implies scheme_of(
                assoc_map(rp)[k],
            ) is Some by {
                let p = position_of(rp, k);
                lemma_assoc_at(rp, p);
                assert(scheme_of(rp[p].1) == Some(registry.schemes@[p].1@));
            }
            assert forall|k: Seq<char>| #[trigger] assoc_map(sp).dom().contains(k) <==> schemes_of(
                assoc_map(rp),
            ).dom().contains(k) by {
                if has_key(sp, k) {
                    let p = position_of(sp, k);
                    assert(rp[p].0 == k);
                }
                if has_key(rp, k) {
                    let p = position_of(rp, k);
                    assert(sp[p].0 == k);
                }
            }
            assert forall|k: Seq<char>| assoc_map(sp).dom().contains(k) implies #[trigger] assoc_map(
                sp,
            )[k] == schemes_of(assoc_map(rp))[k] by {
                let p = position_of(sp, k);
                lemma_assoc_at(sp, p);
                assert(rp[p].0 == k);
                lemma_assoc_at(rp, p);
                assert(scheme_of(rp[p].1) == Some(registry.schemes@[p].1@));
            }
            assert(assoc_map(sp) =~= schemes_of(assoc_map(rp)));
        }
        Ok(registry)
    }

    /// The registry file. The bytes are read back before they are handed out,
    /// so whatever is returned loads to exactly these schemes.
    pub fn save_scheme_registry(&self) -> (r: Result<Vec<u8>, StoreError>)
        requires
            self.wf(),
        ensures
            match r {
                Ok(bytes) => saved(self@) == Some(bytes@),
                Err(e) => e == StoreError::SerializationError && saved(self@) is None,
            },
    {
        let records = self.to_records();
        match ron_encode(&records) {
            Err(_) => Err(StoreError::SerializationError),
            Ok(bytes) => {
                match ron_decode(bytes.as_slice()) {
                    Err(_) => Err(StoreError::SerializationError),
                    Ok(reread) => {
                        let same = records_cover(&records, &reread) && records_cover(
                            &reread,
                            &records,
                        );
                        proof {
                            let a = assoc_map(record_pairs(records@));
                            let b = assoc_map(record_pairs(reread@));
                            if same {
                                assert forall|k: Seq<char>| a.dom().contains(k) <==> b.dom().contains(
                                    k,
                                ) by {}
                                assert(a =~= b);
                            }
                        }
                        if same {
                            Ok(bytes)
                        } else {
                            Err(StoreError::SerializationError)
                        }
                    },
                }
            },
        }
    }

    /// Reads a registry file.
    pub fn load_scheme_registry(bytes: &[u8]) -> (r: Result<SchemeRegistry, StoreError>)
        ensures
            match r {
                Ok(registry) => registry.wf() && loaded(bytes@) == Some(registry@),
                Err(e) => e == StoreError::SerializationError && loaded(bytes@) is None,
            },
    {
        match ron_decode(bytes) {
            Err(_) => Err(StoreError::SerializationError),
            Ok(records) => Self::from_records(&records),
        }
    }
}

} // verus!
