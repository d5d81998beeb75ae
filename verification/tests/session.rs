use pwmanager::error::StoreError;
use pwmanager::module_list::ModuleList;
use pwmanager::modules::DisplayHint;
use pwmanager::password::PasswordEntries;
use pwmanager::ui::{
    clean_up, read_encrypted_module, read_unencrypted_module, step_back, step_forward, Action,
    Choice, InputMode, InputTo, Key, ModuleUI, Selection,
};

fn is_redraw(a: &Action) -> bool {
    matches!(a, Action::Redraw)
}

fn type_text(ui: &mut ModuleUI, text: &str) {
    for c in text.chars() {
        assert!(is_redraw(&ui.handle_key(Key::Char(c))));
    }
}

fn with_modules(names: &[&str]) -> ModuleUI {
    let mut list = ModuleList::new();
    for n in names {
        list.add_module(n, PasswordEntries::new(), false).unwrap();
    }
    ModuleUI::new(list)
}

#[test]
fn steps_wrap_around() {
    assert_eq!(step_forward(None, 3), 0);
    assert_eq!(step_forward(Some(0), 3), 1);
    assert_eq!(step_forward(Some(1), 3), 2);
    assert_eq!(step_forward(Some(2), 3), 0);
    assert_eq!(step_forward(Some(9), 3), 0);
    assert_eq!(step_forward(Some(0), 0), 0);
    assert_eq!(step_forward(Some(usize::MAX), usize::MAX), 0);
    assert_eq!(step_back(None, 3), 0);
    assert_eq!(step_back(Some(0), 3), 2);
    assert_eq!(step_back(Some(2), 3), 1);
    assert_eq!(step_back(Some(0), 0), 0);
    assert_eq!(step_back(Some(9), 3), 8);
}

#[test]
fn a_new_session_is_idle() {
    let ui = with_modules(&["General"]);
    assert_eq!(ui.selected, None);
    assert_eq!(ui.module_index, None);
    assert_eq!(ui.table_selected, None);
    assert!(!ui.display_module);
    assert!(!ui.display_error);
    assert_eq!(ui.input_string, "");
    assert_eq!(ui.input_label, None);
    assert_eq!(ui.selection, Selection::Modules);
    assert_eq!(ui.input_mode, InputMode::Normal);
    assert_eq!(ui.input_to, InputTo::Nothing);
    assert_eq!(ui.error_message, "");
    assert_eq!(ui.shown_module(), None);
    assert_eq!(ui.entry_rows(), None);
    assert_eq!(ui.highlighted_entry(), None);
}

#[test]
fn module_highlight_cycles() {
    let mut ui = with_modules(&["a", "b", "c"]);
    ui.next();
    assert_eq!(ui.selected, Some(0));
    ui.next();
    ui.next();
    assert_eq!(ui.selected, Some(2));
    ui.next();
    assert_eq!(ui.selected, Some(0));
    ui.previous();
    assert_eq!(ui.selected, Some(2));
    ui.previous();
    assert_eq!(ui.selected, Some(1));
    ui.unselect();
    assert_eq!(ui.selected, None);
    ui.previous();
    assert_eq!(ui.selected, Some(0));
}

#[test]
fn entry_highlight_cycles_over_entries_in_memory() {
    let mut ui = with_modules(&["a"]);
    ui.next_password();
    assert_eq!(ui.table_selected, None);
    ui.next();
    assert_eq!(ui.select_module(), Choice::ShowEntries);
    assert_eq!(ui.module_index, Some(0));
    ui.module_list.add_entry(0, "x", Some("1")).unwrap();
    ui.module_list.add_entry(0, "y", Some("2")).unwrap();
    assert_eq!(ui.entry_rows(), Some(2));
    ui.next_password();
    assert_eq!(ui.table_selected, Some(0));
    assert_eq!(ui.highlighted_entry(), Some(("x".to_owned(), "1".to_owned())));
    ui.next_password();
    assert_eq!(ui.table_selected, Some(1));
    ui.next_password();
    assert_eq!(ui.table_selected, Some(0));
    ui.previous_password();
    assert_eq!(ui.table_selected, Some(1));
    assert_eq!(ui.highlighted_entry(), Some(("y".to_owned(), "2".to_owned())));
    ui.unselect_password();
    assert_eq!(ui.table_selected, None);
    assert_eq!(ui.highlighted_entry(), None);
}

#[test]
fn choosing_a_module_says_what_to_do() {
    let mut list = ModuleList::new();
    list.add_module("open", PasswordEntries::new(), false).unwrap();
    list.add_module("sealed", PasswordEntries::new(), false).unwrap();
    list.encrypt_module(1, "pw").unwrap();
    let registry = list.scheme_registry();
    let names = vec!["open".to_owned(), "sealed".to_owned()];
    let mut ui = ModuleUI::new(ModuleList::get_module_files(&names, &registry));
    assert_eq!(ui.select_module(), Choice::Nothing);
    ui.next();
    assert_eq!(ui.select_module(), Choice::ReadEntryFile);
    assert_eq!(ui.module_index, Some(0));
    ui.next();
    assert_eq!(ui.select_module(), Choice::PromptPassword);
    assert_eq!(ui.module_index, Some(1));
    assert_eq!(ui.module_list.display_hint(1), Some(DisplayHint::Locked));
    ui.selected = Some(5);
    assert_eq!(ui.select_module(), Choice::Nothing);
}

#[test]
fn command_keys_open_the_prompt() {
    for (key, to) in [
        ('g', InputTo::Password),
        ('m', InputTo::Module),
        ('e', InputTo::Encrypt),
        ('a', InputTo::Add),
    ] {
        let mut ui = with_modules(&["a"]);
        assert!(is_redraw(&ui.handle_key(Key::Char(key))));
        assert_eq!(ui.input_mode, InputMode::Inputing);
        assert_eq!(ui.input_to, to);
        assert!(is_redraw(&ui.handle_key(Key::Esc)));
        assert_eq!(ui.input_mode, InputMode::Normal);
        assert_eq!(ui.input_to, InputTo::Nothing);
    }
}

#[test]
fn quit_and_unknown_keys() {
    let mut ui = with_modules(&["a"]);
    assert!(matches!(ui.handle_key(Key::Char('q')), Action::Quit));
    assert!(is_redraw(&ui.handle_key(Key::Char('z'))));
    assert!(is_redraw(&ui.handle_key(Key::Other)));
    assert!(is_redraw(&ui.handle_key(Key::Tab)));
    assert_eq!(ui.input_mode, InputMode::Normal);
    ui.handle_key(Key::Char('m'));
    assert!(is_redraw(&ui.handle_key(Key::Char('q'))));
    assert_eq!(ui.input_string, "q");
    assert!(is_redraw(&ui.handle_key(Key::Other)));
    assert!(is_redraw(&ui.handle_key(Key::Up)));
    assert_eq!(ui.input_string, "q");
}

#[test]
fn arrows_move_in_the_chosen_list() {
    let mut ui = with_modules(&["a", "b"]);
    ui.handle_key(Key::Down);
    assert_eq!(ui.selected, Some(0));
    ui.handle_key(Key::Down);
    assert_eq!(ui.selected, Some(1));
    ui.handle_key(Key::Up);
    assert_eq!(ui.selected, Some(0));
    assert!(is_redraw(&ui.handle_key(Key::Enter)));
    assert!(ui.display_module);
    assert_eq!(ui.module_index, Some(0));
    ui.module_list.add_entry(0, "x", Some("1")).unwrap();
    ui.handle_key(Key::Right);
    assert_eq!(ui.selection, Selection::Passwords);
    ui.handle_key(Key::Down);
    assert_eq!(ui.table_selected, Some(0));
    assert_eq!(ui.selected, Some(0));
    ui.handle_key(Key::Up);
    assert_eq!(ui.table_selected, Some(0));
    ui.handle_key(Key::Left);
    assert_eq!(ui.selection, Selection::Modules);
    ui.handle_key(Key::Down);
    assert_eq!(ui.selected, Some(1));
}

#[test]
fn typing_and_backspace() {
    let mut ui = with_modules(&["a"]);
    ui.handle_key(Key::Char('m'));
    type_text(&mut ui, "Fin");
    assert_eq!(ui.input_string, "Fin");
    ui.handle_key(Key::Backspace);
    assert_eq!(ui.input_string, "Fi");
    ui.handle_key(Key::Tab);
    assert_eq!(ui.input_string, "Fi");
    assert_eq!(ui.input_label, None);
    ui.handle_key(Key::Backspace);
    ui.handle_key(Key::Backspace);
    ui.handle_key(Key::Backspace);
    assert_eq!(ui.input_string, "");
    ui.handle_key(Key::Esc);
    assert_eq!(ui.input_mode, InputMode::Normal);
}

#[test]
fn generated_entry_is_added_from_the_prompt() {
    let mut ui = with_modules(&["a"]);
    ui.handle_key(Key::Char('g'));
    type_text(&mut ui, "mail");
    assert!(is_redraw(&ui.handle_key(Key::Enter)));
    assert!(ui.display_error);
    assert_eq!(ui.error_message, "No module selected");
    assert_eq!(ui.input_string, "mail");
    assert_eq!(ui.input_mode, InputMode::Normal);

    ui.handle_key(Key::Esc);
    ui.handle_key(Key::Down);
    ui.handle_key(Key::Enter);
    ui.handle_key(Key::Char('g'));
    assert_eq!(ui.input_to, InputTo::Password);
    assert!(is_redraw(&ui.handle_key(Key::Enter)));
    assert!(!ui.display_error);
    assert_eq!(ui.input_string, "");
    assert_eq!(ui.input_to, InputTo::Nothing);
    let store = ui.module_list.module(0).unwrap().entry_store().unwrap();
    assert_eq!(store.len(), 1);
    assert_eq!(store.get("mail").unwrap().get().chars().count(), 32);
}

#[test]
fn typed_entry_is_added_from_the_prompt() {
    let mut ui = with_modules(&["a"]);
    ui.handle_key(Key::Down);
    ui.handle_key(Key::Enter);
    ui.handle_key(Key::Char('a'));
    assert!(is_redraw(&ui.handle_key(Key::Enter)));
    assert_eq!(ui.error_message, "No name entered");
    ui.handle_key(Key::Esc);

    ui.handle_key(Key::Char('a'));
    type_text(&mut ui, "Bank");
    assert!(is_redraw(&ui.handle_key(Key::Enter)));
    assert_eq!(ui.error_message, "No password entered");
    ui.handle_key(Key::Esc);
    assert!(!ui.display_error);

    ui.handle_key(Key::Char('a'));
    assert_eq!(ui.input_string, "Bank");
    ui.handle_key(Key::Tab);
    assert_eq!(ui.input_label, Some("Bank".to_owned()));
    assert_eq!(ui.input_string, "");
    type_text(&mut ui, "s3cr3t!");
    ui.handle_key(Key::Tab);
    assert_eq!(ui.input_string, "s3cr3t!");
    assert!(is_redraw(&ui.handle_key(Key::Enter)));
    assert!(!ui.display_error);
    assert_eq!(ui.input_string, "");
    assert_eq!(ui.input_label, None);
    assert_eq!(ui.input_to, InputTo::Nothing);
    let store = ui.module_list.module(0).unwrap().entry_store().unwrap();
    assert_eq!(store.get("Bank").unwrap().get(), "s3cr3t!");

    ui.handle_key(Key::Char('a'));
    ui.handle_key(Key::Tab);
    type_text(&mut ui, "x");
    ui.handle_key(Key::Enter);
    assert_eq!(ui.error_message, "No name entered");
}

#[test]
fn entries_are_copied_and_deleted() {
    let mut ui = with_modules(&["a"]);
    assert!(is_redraw(&ui.handle_key(Key::Char('c'))));
    assert!(is_redraw(&ui.handle_key(Key::Char('d'))));
    assert!(ui.display_error);
    assert_eq!(ui.error_message, "No selection found");
    ui.handle_key(Key::Esc);
    ui.handle_key(Key::Down);
    ui.handle_key(Key::Enter);
    ui.module_list.add_entry(0, "x", Some("1")).unwrap();
    ui.module_list.add_entry(0, "y", Some("2")).unwrap();
    assert!(is_redraw(&ui.handle_key(Key::Char('d'))));
    assert!(!ui.display_error);
    assert_eq!(ui.entry_rows(), Some(2));
    ui.handle_key(Key::Right);
    ui.handle_key(Key::Down);
    ui.handle_key(Key::Down);
    match ui.handle_key(Key::Char('c')) {
        Action::Copy(secret) => assert_eq!(secret, "2"),
        _ => panic!("expected a copy"),
    }
    assert!(is_redraw(&ui.handle_key(Key::Char('d'))));
    assert_eq!(ui.entry_rows(), Some(1));
    assert!(ui.module_list.module(0).unwrap().entry_store().unwrap().get("y").is_none());
    assert_eq!(ui.highlighted_entry(), None);
    assert!(is_redraw(&ui.handle_key(Key::Char('c'))));
}

#[test]
fn module_is_created_from_the_prompt() {
    let mut ui = with_modules(&["General"]);
    ui.handle_key(Key::Char('m'));
    type_text(&mut ui, "Finance");
    assert!(matches!(ui.handle_key(Key::Enter), Action::CheckEntryFile));
    assert_eq!(ui.input_string, "Finance");
    assert_eq!(ui.create_module(false), Ok(b"{}".to_vec()));
    assert_eq!(ui.input_string, "");
    assert_eq!(ui.input_to, InputTo::Nothing);
    assert_eq!(ui.module_list.len(), 2);
    assert_eq!(ui.module_list.find("Finance"), Some(1));

    ui.handle_key(Key::Char('m'));
    type_text(&mut ui, "General");
    assert!(matches!(ui.handle_key(Key::Enter), Action::CheckEntryFile));
    assert_eq!(ui.create_module(false), Err(StoreError::AlreadyExists));
    assert!(ui.display_error);
    assert_eq!(ui.error_message, "module already exists");
    assert_eq!(ui.module_list.len(), 2);

    ui.handle_key(Key::Esc);
    ui.handle_key(Key::Char('m'));
    type_text(&mut ui, "OnDisk");
    ui.handle_key(Key::Enter);
    assert_eq!(ui.create_module(true), Err(StoreError::AlreadyExists));
    assert_eq!(ui.module_list.len(), 2);
}

#[test]
fn finance_scenario_by_keys() {
    let mut ui = with_modules(&[]);
    ui.handle_key(Key::Char('m'));
    type_text(&mut ui, "Finance");
    assert!(matches!(ui.handle_key(Key::Enter), Action::CheckEntryFile));
    ui.create_module(false).unwrap();
    ui.handle_key(Key::Down);
    assert!(is_redraw(&ui.handle_key(Key::Enter)));
    ui.handle_key(Key::Char('a'));
    type_text(&mut ui, "Bank");
    ui.handle_key(Key::Tab);
    type_text(&mut ui, "s3cr3t!");
    ui.handle_key(Key::Enter);

    ui.handle_key(Key::Char('e'));
    assert!(is_redraw(&ui.handle_key(Key::Enter)));
    assert_eq!(ui.error_message, "Please enter a password");
    ui.handle_key(Key::Esc);
    ui.handle_key(Key::Char('e'));
    type_text(&mut ui, "hunter2");
    let on_disk = match ui.handle_key(Key::Enter) {
        Action::WriteEntryFile(0, bytes) => bytes,
        _ => panic!("expected a file to write"),
    };
    assert_eq!(ui.input_string, "");
    assert!(!ui.display_module);
    assert_eq!(ui.module_list.display_hint(0), Some(DisplayHint::Locked));
    assert_eq!(ui.entry_rows(), None);

    assert!(is_redraw(&ui.handle_key(Key::Enter)));
    assert_eq!(ui.input_to, InputTo::Decrypt);
    type_text(&mut ui, "wrong");
    assert!(matches!(ui.handle_key(Key::Enter), Action::ReadCiphertext(0)));
    assert_eq!(ui.deliver_ciphertext(0, &on_disk), Err(StoreError::AuthenticationError));
    assert!(ui.display_error);
    assert_eq!(ui.error_message, "authentication failed: wrong password or damaged data");
    assert_eq!(ui.input_string, "");
    assert_eq!(ui.entry_rows(), None);
    assert_eq!(ui.module_list.display_hint(0), Some(DisplayHint::Locked));

    ui.handle_key(Key::Esc);
    ui.handle_key(Key::Enter);
    type_text(&mut ui, "hunter2");
    assert!(matches!(ui.handle_key(Key::Enter), Action::ReadCiphertext(0)));
    assert_eq!(ui.deliver_ciphertext(0, &on_disk), Ok(()));
    assert!(ui.display_module);
    assert_eq!(ui.input_string, "");
    assert_eq!(ui.entry_rows(), Some(1));
    ui.handle_key(Key::Right);
    ui.handle_key(Key::Down);
    assert_eq!(ui.highlighted_entry(), Some(("Bank".to_owned(), "s3cr3t!".to_owned())));

    let report = clean_up(&mut ui);
    assert_eq!(report.steps.len(), 1);
    assert!(report.steps[0].clone().unwrap().is_some());
    assert_eq!(ui.selected, None);
    assert_eq!(ui.module_index, None);
    assert_eq!(ui.table_selected, None);
    assert!(!ui.display_module);
    assert_eq!(ui.entry_rows(), None);
    assert!(ui.module_list.module(0).unwrap().entry_store().is_none());
}

#[test]
fn encrypting_needs_a_module_with_entries_in_memory() {
    let mut ui = with_modules(&["a"]);
    ui.handle_key(Key::Char('e'));
    type_text(&mut ui, "pw");
    assert!(is_redraw(&ui.handle_key(Key::Enter)));
    assert_eq!(ui.error_message, "No module selected");
    ui.handle_key(Key::Esc);
    ui.handle_key(Key::Down);
    ui.handle_key(Key::Enter);
    ui.handle_key(Key::Char('e'));
    assert!(matches!(ui.handle_key(Key::Enter), Action::WriteEntryFile(0, _)));
    ui.handle_key(Key::Char('e'));
    type_text(&mut ui, "pw");
    assert!(is_redraw(&ui.handle_key(Key::Enter)));
    assert!(ui.display_error);
    assert_eq!(ui.error_message, "no such module or entry");
    assert_eq!(ui.input_string, "");
}

#[test]
fn plaintext_entry_file_is_delivered() {
    let names = vec!["Notes".to_owned()];
    let mut ui = ModuleUI::new(ModuleList::get_module_files(
        &names,
        &pwmanager::registry::SchemeRegistry::new(),
    ));
    ui.handle_key(Key::Down);
    assert!(matches!(ui.handle_key(Key::Enter), Action::ReadEntryFile(0)));
    assert!(!ui.display_module);
    assert_eq!(ui.deliver_plaintext(0, b"garbage"), Err(StoreError::SerializationError));
    assert!(ui.display_error);
    assert_eq!(ui.error_message, "malformed entry or registry data");
    ui.handle_key(Key::Esc);
    assert_eq!(ui.deliver_plaintext(0, b"{\"a\":\"1\"}"), Ok(()));
    assert!(ui.display_module);
    assert_eq!(ui.entry_rows(), Some(1));
    assert_eq!(ui.deliver_plaintext(4, b"{}"), Err(StoreError::NotFound));
    assert_eq!(ui.deliver_ciphertext(4, b"{}"), Err(StoreError::NotFound));
    ui.report_failure(StoreError::IoError);
    assert_eq!(ui.error_message, "storage failure");
    ui.fail("custom");
    assert_eq!(ui.error_message, "custom");
    ui.prompt(InputTo::Module);
    assert_eq!(ui.input_mode, InputMode::Inputing);
    ui.leave_input();
    assert_eq!(ui.input_mode, InputMode::Normal);
    assert!(!ui.display_error);
}

#[test]
fn modules_are_read_by_the_free_functions() {
    let m = pwmanager::modules::Module::discovered("Notes".to_owned(), None);
    let (m, r) = read_unencrypted_module(m, b"{\"a\":\"1\"}");
    assert_eq!(r, Ok(()));
    assert_eq!(m.entry_store().unwrap().len(), 1);
    let (m, ct) = m.encrypt("pw");
    let ct = ct.unwrap();
    let (m, r) = read_encrypted_module("bad", m, &ct);
    assert_eq!(r, Err(StoreError::AuthenticationError));
    let (m, r) = read_encrypted_module("pw", m, &ct);
    assert_eq!(r, Ok(()));
    assert_eq!(m.entry_store().unwrap().get("a").unwrap().get(), "1");
}
