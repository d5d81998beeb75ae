use pwmanager::error::StoreError;
use pwmanager::files::{read_from_file, write_to_file};
use pwmanager::password::{add_password_32, add_password_64, Password, PasswordEntries};

fn is_special(c: char) -> bool {
    ('!'..='.').contains(&c)
}

fn composition_holds(s: &str, len: usize) -> bool {
    let chars: Vec<char> = s.chars().collect();
    if chars.len() != len {
        return false;
    }
    for i in 0..len {
        for j in 0..len {
            if i != j && is_special(chars[i]) && chars[j].is_ascii_uppercase() {
                let rest_ok = (0..len)
                    .filter(|k| *k != i && *k != j)
                    .all(|k| chars[k].is_ascii_alphanumeric());
                if rest_ok {
                    return true;
                }
            }
        }
    }
    false
}

#[test]
fn new_from_keeps_text() {
    let p = Password::new_from("s3cr3t!");
    assert_eq!(p.get(), "s3cr3t!");
    assert_eq!(p.0, "s3cr3t!");
    assert!(p.same(&Password::new_from("s3cr3t!")));
    assert!(!p.same(&Password::new_from("s3cr3t")));
    assert_eq!(p.duplicate().get(), "s3cr3t!");
}

#[test]
fn generated_32_is_well_composed() {
    for _ in 0..200 {
        let p = Password::new_password32();
        assert!(composition_holds(p.get(), 32), "{}", p.get());
    }
}

#[test]
fn generated_64_is_well_composed() {
    for _ in 0..200 {
        let p = Password::new_password64();
        assert!(composition_holds(p.get(), 64), "{}", p.get());
    }
}

#[test]
fn generated_short_lengths() {
    for _ in 0..200 {
        let two = Password::generate_random_string(2);
        assert!(composition_holds(&two, 2), "{}", two);
        let three = Password::generate_random_string(3);
        assert!(composition_holds(&three, 3), "{}", three);
    }
}

#[test]
fn generated_secrets_differ() {
    let a = Password::generate_random_string(32);
    let b = Password::generate_random_string(32);
    assert_ne!(a, b);
}

#[test]
fn compose_places_both_characters() {
    let body = b"abcdef".to_vec();
    assert_eq!(Password::compose(&body, b'!', b'Q', 1, 4), "a!cdQf");
    assert_eq!(Password::compose(&body, b'.', b'A', 5, 0), "Abcde.");
}

#[test]
fn compose_prefers_special_where_positions_coincide() {
    let body = b"abc".to_vec();
    assert_eq!(Password::compose(&body, b'#', b'Z', 2, 2), "ab#");
}

#[test]
fn compose_ignores_positions_outside() {
    let body = b"abc".to_vec();
    assert_eq!(Password::compose(&body, b'#', b'Z', 7, 9), "abc");
    assert_eq!(Password::compose(&Vec::new(), b'#', b'Z', 0, 1), "");
}

#[test]
fn insert_returns_previous_secret() {
    let mut e = PasswordEntries::new();
    assert_eq!(e.len(), 0);
    assert!(e.insert("Bank", Password::new_from("one")).is_none());
    assert_eq!(e.len(), 1);
    let prev = e.insert("Bank", Password::new_from("two"));
    assert_eq!(prev.unwrap().get(), "one");
    assert_eq!(e.len(), 1);
    assert_eq!(e.get("Bank").unwrap().get(), "two");
    assert!(e.get("bank").is_none());
}

#[test]
fn overwrite_keeps_display_position() {
    let mut e = PasswordEntries::new();
    e.insert("a", Password::new_from("1"));
    e.insert("b", Password::new_from("2"));
    e.insert("c", Password::new_from("3"));
    e.insert("a", Password::new_from("4"));
    assert_eq!(e.len(), 3);
    assert_eq!(e.entry_at(0), ("a", "4"));
    assert_eq!(e.entry_at(1), ("b", "2"));
    assert_eq!(e.entry_at(2), ("c", "3"));
}

#[test]
fn remove_returns_secret() {
    let mut e = PasswordEntries::new();
    e.insert("a", Password::new_from("1"));
    e.insert("b", Password::new_from("2"));
    assert!(e.remove("zzz").is_none());
    assert_eq!(e.len(), 2);
    assert_eq!(e.remove("a").unwrap().get(), "1");
    assert_eq!(e.len(), 1);
    assert!(e.get("a").is_none());
    assert_eq!(e.get("b").unwrap().get(), "2");
    assert!(e.remove("a").is_none());
}

#[test]
fn same_entries_ignores_order() {
    let mut a = PasswordEntries::new();
    a.insert("x", Password::new_from("1"));
    a.insert("y", Password::new_from("2"));
    let mut b = PasswordEntries::new();
    b.insert("y", Password::new_from("2"));
    b.insert("x", Password::new_from("1"));
    assert!(a.same_entries(&b));
    assert!(a.covers(&b) && b.covers(&a));
    b.insert("z", Password::new_from("3"));
    assert!(!a.same_entries(&b));
    assert!(b.covers(&a));
    assert!(!a.covers(&b));
    a.insert("z", Password::new_from("other"));
    assert!(!a.same_entries(&b));
    assert!(a.duplicate().same_entries(&a));
}

#[test]
fn serialize_is_a_json_object() {
    let mut e = PasswordEntries::new();
    e.insert("Bank", Password::new_from("s3cr3t!"));
    assert_eq!(e.serialize().unwrap(), b"{\"Bank\":\"s3cr3t!\"}".to_vec());
    assert_eq!(PasswordEntries::new().serialize().unwrap(), b"{}".to_vec());
}

#[test]
fn serialize_orders_labels() {
    let mut e = PasswordEntries::new();
    e.insert("b", Password::new_from("2"));
    e.insert("a", Password::new_from("1"));
    assert_eq!(e.serialize().unwrap(), b"{\"a\":\"1\",\"b\":\"2\"}".to_vec());
}

#[test]
fn serialize_round_trips_unicode() {
    let mut e = PasswordEntries::new();
    e.insert("münze", Password::new_from("pä$$wörd \"quoted\" \\ \n 密码 🔑"));
    e.insert("", Password::new_from(""));
    e.insert("tab\there", Password::new_from("\u{0}\u{1f}"));
    let bytes = e.serialize().unwrap();
    let back = PasswordEntries::deserialize(&bytes).unwrap();
    assert!(back.same_entries(&e));
    assert_eq!(back.len(), 3);
    assert_eq!(back.get("münze").unwrap().get(), "pä$$wörd \"quoted\" \\ \n 密码 🔑");
}

#[test]
fn deserialize_reads_entries() {
    let e = PasswordEntries::deserialize(b" { \"x\" : \"1\", \"y\": \"2\" } ").unwrap();
    assert_eq!(e.len(), 2);
    assert_eq!(e.get("x").unwrap().get(), "1");
    assert_eq!(e.get("y").unwrap().get(), "2");
}

#[test]
fn deserialize_rejects_malformed() {
    assert_eq!(PasswordEntries::deserialize(b"").err(), Some(StoreError::SerializationError));
    assert_eq!(PasswordEntries::deserialize(b"{").err(), Some(StoreError::SerializationError));
    assert_eq!(PasswordEntries::deserialize(b"[1,2]").err(), Some(StoreError::SerializationError));
    assert_eq!(
        PasswordEntries::deserialize(b"{\"a\":1}").err(),
        Some(StoreError::SerializationError)
    );
    assert_eq!(
        PasswordEntries::deserialize(&[0xff, 0xfe]).err(),
        Some(StoreError::SerializationError)
    );
}

#[test]
fn confirm_serialized_accepts_only_the_same_store() {
    let mut e = PasswordEntries::new();
    e.insert("a", Password::new_from("1"));
    let bytes = vec![1u8, 2, 3];
    assert_eq!(e.confirm_serialized(bytes.clone(), Some(e.duplicate())), Ok(bytes.clone()));
    assert_eq!(
        e.confirm_serialized(bytes.clone(), Some(PasswordEntries::new())),
        Err(StoreError::SerializationError)
    );
    assert_eq!(e.confirm_serialized(bytes, None), Err(StoreError::SerializationError));
}

#[test]
fn add_password_32_inserts_generated_secret() {
    let mut e = PasswordEntries::new();
    assert!(add_password_32(&mut e, "mail").is_none());
    let first = e.get("mail").unwrap().get().to_owned();
    assert!(composition_holds(&first, 32));
    let prev = add_password_32(&mut e, "mail").unwrap();
    assert_eq!(prev.get(), first);
    assert_eq!(e.len(), 1);
}

#[test]
fn add_password_64_inserts_generated_secret() {
    let mut e = PasswordEntries::new();
    e.insert("other", Password::new_from("keep"));
    assert!(add_password_64(&mut e, "mail").is_none());
    assert!(composition_holds(e.get("mail").unwrap().get(), 64));
    assert_eq!(e.get("other").unwrap().get(), "keep");
    assert_eq!(e.len(), 2);
}

#[test]
fn write_to_file_defaults_the_name() {
    let mut e = PasswordEntries::new();
    e.insert("a", Password::new_from("1"));
    let (name, bytes) = write_to_file(None, &e).unwrap();
    assert_eq!(name, "passwords.json");
    assert_eq!(bytes, b"{\"a\":\"1\"}".to_vec());
    let (name, _) = write_to_file(Some("mine.json"), &e).unwrap();
    assert_eq!(name, "mine.json");
    assert!(read_from_file(&bytes).unwrap().same_entries(&e));
    assert_eq!(read_from_file(b"nope").err(), Some(StoreError::SerializationError));
}

#[test]
fn error_messages() {
    assert_eq!(
        StoreError::AuthenticationError.message(),
        "authentication failed: wrong password or damaged data"
    );
    assert_eq!(StoreError::AlreadyExists.message(), "module already exists");
    assert_eq!(StoreError::NotFound.message(), "no such module or entry");
    assert_eq!(StoreError::KeyDerivationError.message(), "key derivation failed");
    assert_eq!(StoreError::EncryptionError.message(), "encryption failed");
    assert_eq!(StoreError::SerializationError.message(), "malformed entry or registry data");
    assert_eq!(StoreError::IoError.message(), "storage failure");
    assert!(StoreError::AuthenticationError.is_recoverable());
    assert!(StoreError::AlreadyExists.is_recoverable());
    assert!(StoreError::NotFound.is_recoverable());
    assert!(!StoreError::KeyDerivationError.is_recoverable());
    assert!(!StoreError::EncryptionError.is_recoverable());
    assert!(!StoreError::SerializationError.is_recoverable());
    assert!(!StoreError::IoError.is_recoverable());
}
