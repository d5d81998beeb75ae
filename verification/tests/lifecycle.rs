use pwmanager::error::StoreError;
use pwmanager::module_list::ModuleList;
use pwmanager::modules::{DisplayHint, LockState, Module};
use pwmanager::password::{Password, PasswordEntries};
use pwmanager::registry::SchemeRegistry;

fn rows(m: &Module) -> Vec<(String, String)> {
    let e = m.entry_store().unwrap();
    (0..e.len()).map(|i| {
        let (k, v) = e.entry_at(i);
        (k.to_owned(), v.to_owned())
    }).collect()
}

#[test]
fn creating_general_twice_is_refused() {
    let mut list = ModuleList::new();
    let bytes = list.add_module("General", PasswordEntries::new(), false).unwrap();
    assert_eq!(bytes, b"{}".to_vec());
    assert_eq!(list.len(), 1);
    assert_eq!(
        list.add_module("General", PasswordEntries::new(), false),
        Err(StoreError::AlreadyExists)
    );
    assert_eq!(list.len(), 1);
    assert_eq!(list.display_hint(0), Some(DisplayHint::Plaintext));
}

#[test]
fn a_name_with_an_entry_file_is_refused() {
    let mut list = ModuleList::new();
    assert_eq!(
        list.add_module("General", PasswordEntries::new(), true),
        Err(StoreError::AlreadyExists)
    );
    assert_eq!(list.len(), 0);
    assert!(list.find("General").is_none());
}

#[test]
fn finance_scenario() {
    let mut list = ModuleList::new();
    list.add_module("Finance", PasswordEntries::new(), false).unwrap();
    let index = list.find("Finance").unwrap();
    assert_eq!(list.add_entry(index, "Bank", Some("s3cr3t!")).map(|p| p.is_none()), Ok(true));
    let first = list.encrypt_module(index, "hunter2").unwrap();
    assert_eq!(list.display_hint(index), Some(DisplayHint::Locked));
    assert!(list.module(index).unwrap().entry_store().is_none());

    assert_eq!(list.unlock(index, "hunter2", &first), Ok(()));
    assert_eq!(list.display_hint(index), Some(DisplayHint::Unlocked));
    let on_disk = list.lock(index).unwrap();
    assert_eq!(list.display_hint(index), Some(DisplayHint::Locked));
    assert!(list.module(index).unwrap().entry_store().is_none());

    assert_eq!(list.unlock(index, "wrong", &on_disk), Err(StoreError::AuthenticationError));
    assert_eq!(list.display_hint(index), Some(DisplayHint::Locked));
    assert!(list.module(index).unwrap().entry_store().is_none());

    assert_eq!(list.unlock(index, "hunter2", &on_disk), Ok(()));
    assert_eq!(
        rows(list.module(index).unwrap()),
        vec![("Bank".to_owned(), "s3cr3t!".to_owned())]
    );
}

#[test]
fn stale_ciphertext_does_not_open_after_relock() {
    let m = Module::new("M");
    let (m, _) = m.create(PasswordEntries::new());
    let (m, first) = m.encrypt("pw");
    let first = first.unwrap();
    let (m, r) = m.unlock("pw", &first);
    assert_eq!(r, Ok(()));
    let old_nonce = m.scheme.as_ref().unwrap().nonce.clone();
    let (m, second) = m.lock();
    let second = second.unwrap();
    assert_ne!(m.scheme.as_ref().unwrap().nonce, old_nonce);
    let (m, r) = m.unlock("pw", &first);
    assert_eq!(r, Err(StoreError::AuthenticationError));
    let (_, r) = m.unlock("pw", &second);
    assert_eq!(r, Ok(()));
}

#[test]
fn module_transitions_from_the_wrong_state() {
    let m = Module::new("M");
    assert!(matches!(m.lock_state, LockState::Unmanaged));
    assert_eq!(m.display_hint(), DisplayHint::Plaintext);
    let (m, r) = m.unlock("pw", b"x");
    assert_eq!(r, Err(StoreError::NotFound));
    let (m, r) = m.lock();
    assert_eq!(r, Err(StoreError::NotFound));
    let (m, r) = m.encrypt("pw");
    assert_eq!(r, Err(StoreError::NotFound));
    let (m, r) = m.load_plaintext(b"{}");
    assert_eq!(r, Err(StoreError::NotFound));
    let (m, r) = m.add_entry("a", Some("b"));
    assert_eq!(r.err(), Some(StoreError::NotFound));
    let (m, r) = m.remove_entry("a");
    assert_eq!(r.err(), Some(StoreError::NotFound));
    let (m, r) = m.shut();
    assert_eq!(r, Ok(None));
    assert!(matches!(m.lock_state, LockState::Unmanaged));

    let (m, r) = m.create(PasswordEntries::new());
    assert_eq!(r, Ok(b"{}".to_vec()));
    let (m, r) = m.create(PasswordEntries::new());
    assert_eq!(r, Err(StoreError::AlreadyExists));
    let (m, r) = m.unlock("pw", b"x");
    assert_eq!(r, Err(StoreError::NotFound));
    let (_, r) = m.lock();
    assert_eq!(r, Err(StoreError::NotFound));
}

#[test]
fn plaintext_module_is_read_on_request() {
    let m = Module::discovered("Notes".to_owned(), None);
    assert_eq!(m.display_hint(), DisplayHint::Plaintext);
    assert!(m.entry_store().is_none());
    let (m, r) = m.add_entry("a", Some("b"));
    assert_eq!(r.err(), Some(StoreError::NotFound));
    let (m, r) = m.encrypt("pw");
    assert_eq!(r, Err(StoreError::NotFound));
    let (m, r) = m.load_plaintext(b"not json");
    assert_eq!(r, Err(StoreError::SerializationError));
    assert!(m.entry_store().is_none());
    let (m, r) = m.load_plaintext(b"{\"a\":\"1\"}");
    assert_eq!(r, Ok(()));
    assert_eq!(rows(&m), vec![("a".to_owned(), "1".to_owned())]);
    let (m, r) = m.add_entry("b", Some("2"));
    assert!(r.unwrap().is_none());
    let (m, r) = m.load_plaintext(b"{}");
    assert_eq!(r, Ok(()));
    assert_eq!(m.entry_store().unwrap().len(), 2);
    let (m, r) = m.shut();
    assert_eq!(r, Ok(Some(b"{\"a\":\"1\",\"b\":\"2\"}".to_vec())));
    assert!(m.entry_store().is_none());
    assert!(matches!(m.lock_state, LockState::PlaintextUnlocked { entries: None }));
    let (_, r) = m.shut();
    assert_eq!(r, Ok(None));
}

#[test]
fn entries_are_added_and_removed() {
    let (m, _) = Module::new("M").create(PasswordEntries::new());
    let (m, r) = m.add_entry("mail", None);
    assert!(r.unwrap().is_none());
    let generated = m.entry_store().unwrap().get("mail").unwrap().get().to_owned();
    assert_eq!(generated.chars().count(), 32);
    assert!(generated.chars().any(|c| ('!'..='.').contains(&c)));
    assert!(generated.chars().any(|c| c.is_ascii_uppercase()));
    let (m, r) = m.add_entry("mail", Some("typed"));
    assert_eq!(r.unwrap().unwrap().get(), generated);
    let (m, r) = m.remove_entry("other");
    assert_eq!(r.err(), Some(StoreError::NotFound));
    let (m, r) = m.remove_entry("mail");
    assert_eq!(r.unwrap().get(), "typed");
    assert_eq!(m.entry_store().unwrap().len(), 0);
    let (_, r) = m.remove_entry("mail");
    assert_eq!(r.err(), Some(StoreError::NotFound));
}

#[test]
fn secret_for_takes_or_generates() {
    assert_eq!(Module::secret_for(Some("given")).get(), "given");
    assert_eq!(Module::secret_for(None).get().chars().count(), 32);
}

#[test]
fn unlock_rejects_plaintext_that_is_no_entry_file() {
    let (m, _) = Module::new("M").create(PasswordEntries::new());
    let (m, ct) = m.encrypt("pw");
    let scheme = m.scheme.as_ref().unwrap().duplicate();
    let forged = scheme.encrypt("pw", b"not json", b"M").unwrap();
    let (m, r) = m.unlock("pw", &forged);
    assert_eq!(r, Err(StoreError::SerializationError));
    assert_eq!(m.display_hint(), DisplayHint::Locked);
    let (_, r) = m.unlock("pw", &ct.unwrap());
    assert_eq!(r, Ok(()));
}

#[test]
fn ciphertext_is_bound_to_the_module_name() {
    let (a, _) = Module::new("A").create(PasswordEntries::new());
    let (a, ct) = a.encrypt("pw");
    let ct = ct.unwrap();
    let b = Module::discovered("B".to_owned(), Some(a.scheme.as_ref().unwrap().duplicate()));
    let (_, r) = b.unlock("pw", &ct);
    assert_eq!(r, Err(StoreError::AuthenticationError));
    let (_, r) = a.unlock("pw", &ct);
    assert_eq!(r, Ok(()));
}

#[test]
fn lock_failure_keeps_the_module_unlocked() {
    let (m, _) = Module::new("M").create(PasswordEntries::new());
    let (m, ct) = m.encrypt("pw");
    let (mut m, r) = m.unlock("pw", &ct.unwrap());
    assert_eq!(r, Ok(()));
    m.scheme.as_mut().unwrap().kdf.m_cost = 0;
    let nonce = m.scheme.as_ref().unwrap().nonce.clone();
    let (m, r) = m.lock();
    assert_eq!(r, Err(StoreError::KeyDerivationError));
    assert_eq!(m.display_hint(), DisplayHint::Unlocked);
    assert_eq!(m.scheme.as_ref().unwrap().nonce, nonce);
    let (m, r) = m.shut();
    assert_eq!(r, Err(StoreError::KeyDerivationError));
    assert_eq!(m.display_hint(), DisplayHint::Locked);
    assert_eq!(m.scheme.as_ref().unwrap().nonce, nonce);
    assert!(m.entry_store().is_none());
}

#[test]
fn discovery_sorts_modules_by_registry() {
    let mut list = ModuleList::new();
    list.add_module("Finance", PasswordEntries::new(), false).unwrap();
    list.encrypt_module(0, "pw").unwrap();
    let registry = list.scheme_registry();
    assert_eq!(registry.len(), 1);

    let names = vec![
        "General".to_owned(),
        "Finance".to_owned(),
        "General".to_owned(),
        "Notes".to_owned(),
    ];
    let found = ModuleList::get_module_files(&names, &registry);
    assert_eq!(found.len(), 3);
    assert_eq!(found.module(0).unwrap().name, "General");
    assert_eq!(found.module(1).unwrap().name, "Finance");
    assert_eq!(found.module(2).unwrap().name, "Notes");
    assert!(found.module(3).is_none());
    assert_eq!(found.display_hint(0), Some(DisplayHint::Plaintext));
    assert_eq!(found.display_hint(1), Some(DisplayHint::Locked));
    assert_eq!(found.display_hint(2), Some(DisplayHint::Plaintext));
    assert_eq!(found.display_hint(3), None);
    assert!(found.module(1).unwrap().scheme.as_ref().unwrap().same(registry.get("Finance").unwrap()));
    assert!(found.module(0).unwrap().entry_store().is_none());
    assert_eq!(found.find("Notes"), Some(2));
    assert_eq!(found.find("notes"), None);

    let none = ModuleList::get_module_files(&Vec::new(), &SchemeRegistry::new());
    assert_eq!(none.len(), 0);
}

#[test]
fn operations_on_a_missing_module() {
    let mut list = ModuleList::new();
    assert_eq!(list.unlock(0, "pw", b""), Err(StoreError::NotFound));
    assert_eq!(list.lock(0), Err(StoreError::NotFound));
    assert_eq!(list.encrypt_module(3, "pw"), Err(StoreError::NotFound));
    assert_eq!(list.load_plaintext(1, b"{}"), Err(StoreError::NotFound));
    assert_eq!(list.add_entry(0, "a", None).err(), Some(StoreError::NotFound));
    assert_eq!(list.remove_entry(0, "a").err(), Some(StoreError::NotFound));
}

#[test]
fn cleanup_seals_what_was_unlocked() {
    let mut list = ModuleList::new();
    list.add_module("General", PasswordEntries::new(), false).unwrap();
    let mut entries = PasswordEntries::new();
    entries.insert("Bank", Password::new_from("s3cr3t!"));
    list.add_module("Finance", entries, false).unwrap();
    list.add_module("Idle", PasswordEntries::new(), false).unwrap();
    let sealed = list.encrypt_module(1, "hunter2").unwrap();
    list.encrypt_module(2, "other").unwrap();
    assert_eq!(list.unlock(1, "hunter2", &sealed), Ok(()));
    list.add_entry(1, "Card", Some("1234")).unwrap();
    list.add_entry(0, "wifi", Some("guest")).unwrap();
    let nonce_before = list.module(1).unwrap().scheme.as_ref().unwrap().nonce.clone();

    let report = list.clean_up();
    assert_eq!(report.steps.len(), 3);
    assert_eq!(report.steps[0], Ok(Some(b"{\"wifi\":\"guest\"}".to_vec())));
    assert_eq!(report.steps[2], Ok(None));
    let on_disk = report.steps[1].clone().unwrap().unwrap();
    assert_ne!(on_disk, sealed);
    for i in 0..3 {
        assert!(list.module(i).unwrap().entry_store().is_none());
    }
    assert_eq!(list.display_hint(0), Some(DisplayHint::Plaintext));
    assert_eq!(list.display_hint(1), Some(DisplayHint::Locked));
    assert_eq!(list.display_hint(2), Some(DisplayHint::Locked));
    assert_ne!(list.module(1).unwrap().scheme.as_ref().unwrap().nonce, nonce_before);

    let registry = SchemeRegistry::load_scheme_registry(&report.registry.unwrap()).unwrap();
    assert_eq!(registry.len(), 2);
    let names = vec!["General".to_owned(), "Finance".to_owned(), "Idle".to_owned()];
    let mut fresh = ModuleList::get_module_files(&names, &registry);
    assert_eq!(fresh.display_hint(1), Some(DisplayHint::Locked));
    assert_eq!(fresh.unlock(1, "nope", &on_disk), Err(StoreError::AuthenticationError));
    assert_eq!(fresh.unlock(1, "hunter2", &on_disk), Ok(()));
    let store = fresh.module(1).unwrap().entry_store().unwrap();
    assert_eq!(store.len(), 2);
    assert_eq!(store.get("Bank").unwrap().get(), "s3cr3t!");
    assert_eq!(store.get("Card").unwrap().get(), "1234");

    let again = fresh.clean_up();
    assert!(again.steps[1].clone().unwrap().is_some());
    assert_eq!(again.steps[0], Ok(None));
    let empty = ModuleList::new().clean_up();
    assert_eq!(empty.steps.len(), 0);
    assert_eq!(empty.registry, Ok(b"{}".to_vec()));
}

#[test]
fn entry_file_of_a_module() {
    assert_eq!(ModuleList::entry_file_name("General"), "General.json");
    assert_eq!(ModuleList::entry_file_name(""), ".json");
    let mut e = PasswordEntries::new();
    e.insert("a", Password::new_from("1"));
    assert_eq!(
        ModuleList::write_module("Finance", &e),
        Ok(("Finance.json".to_owned(), b"{\"a\":\"1\"}".to_vec()))
    );
}

#[test]
fn entry_file_stem_of_a_file_name() {
    assert_eq!(ModuleList::entry_file_stem("General.json"), Some("General".to_owned()));
    assert_eq!(ModuleList::entry_file_stem("a.b.json"), Some("a.b".to_owned()));
    assert_eq!(ModuleList::entry_file_stem(".json"), Some(String::new()));
    assert_eq!(ModuleList::entry_file_stem("Geld für München.json"), Some("Geld für München".to_owned()));
    assert_eq!(ModuleList::entry_file_stem("x.json.json"), Some("x.json".to_owned()));
    assert_eq!(ModuleList::entry_file_stem("encryptions.ron"), None);
    assert_eq!(ModuleList::entry_file_stem("General.JSON"), None);
    assert_eq!(ModuleList::entry_file_stem("General.jso"), None);
    assert_eq!(ModuleList::entry_file_stem("Generaljson"), None);
    assert_eq!(ModuleList::entry_file_stem("json"), None);
    assert_eq!(ModuleList::entry_file_stem(""), None);
    assert_eq!(ModuleList::entry_file_stem("General.json "), None);
    for name in ["General", "", "ü", "a.json"] {
        assert_eq!(
            ModuleList::entry_file_stem(&ModuleList::entry_file_name(name)),
            Some(name.to_owned())
        );
    }
}

#[test]
fn relocking_counts_the_nonce_up() {
    let (m, _) = Module::new("M").create(PasswordEntries::new());
    let (mut m, ct) = m.encrypt("pw");
    let mut ct = ct.unwrap();
    let mut heads: Vec<Vec<u8>> = vec![m.scheme.as_ref().unwrap().nonce[..8].to_vec()];
    for round in 0..4 {
        let (unlocked, r) = m.unlock("pw", &ct);
        assert_eq!(r, Ok(()));
        let (unlocked, _) = unlocked.add_entry(&format!("label {}", round), Some("x"));
        let (locked, sealed) = unlocked.lock();
        ct = sealed.unwrap();
        m = locked;
        let head = m.scheme.as_ref().unwrap().nonce[..8].to_vec();
        assert!(!heads.contains(&head));
        let mut expected = u64::from_le_bytes(heads.last().unwrap().clone().try_into().unwrap());
        expected = expected.wrapping_add(1);
        assert_eq!(head, expected.to_le_bytes().to_vec());
        heads.push(head);
    }
    let (m, r) = m.unlock("pw", &ct);
    assert_eq!(r, Ok(()));
    assert_eq!(m.entry_store().unwrap().len(), 4);
    assert_eq!(m.entry_store().unwrap().entry_at(3), ("label 3", "x"));
}

#[test]
fn removing_an_entry_moves_the_later_rows_up() {
    let (m, _) = Module::new("M").create(PasswordEntries::new());
    let (m, _) = m.add_entry("a", Some("1"));
    let (m, _) = m.add_entry("b", Some("2"));
    let (m, _) = m.add_entry("c", Some("3"));
    let (m, _) = m.add_entry("a", Some("4"));
    let (m, r) = m.remove_entry("b");
    assert_eq!(r.unwrap().get(), "2");
    let store = m.entry_store().unwrap();
    assert_eq!(store.len(), 2);
    assert_eq!(store.entry_at(0), ("a", "4"));
    assert_eq!(store.entry_at(1), ("c", "3"));
}
