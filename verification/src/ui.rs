//! The session of the boundary layer: the module list, what is highlighted
//! and shown, and the input prompt.
//!
//! The session decides; it neither draws nor reads files. `handle_key` takes
//! one key and says what has to be done outside (read a file, write a file,
//! copy a secret, leave); the caller does it and hands the result back
//! through one of the `deliver_*` operations.

use crate::assoc::{assoc_put, assoc_take};
use crate::error::{error_text, StoreError};
use crate::module_list::{CleanupReport, ModuleList};
use crate::modules::{LockState, Module};
use crate::password::{serialized, well_composed, PasswordEntries};
use crate::registry::saved;
use vstd::prelude::*;

verus! {

/// `String::pop` takes the last character off, where there is one.
pub assume_specification[ String::pop ](s: &mut String) -> (c: Option<char>)
    ensures
        match c {
            Some(last) => old(s)@.len() > 0 && final(s)@ == old(s)@.drop_last() && last == old(s)@.last(),
            None => old(s)@.len() == 0 && final(s)@ == old(s)@,
        },
;

/// The selection after a step forward in a list of `len` rows: the first row
/// after the last, and the first row where nothing was selected.
pub open spec fn next_index(selected: Option<usize>, len: usize) -> usize {
    match selected {
        Some(i) => if i + 1 >= len {
            0
        } else {
            (i + 1) as usize
        },
        None => 0,
    }
}

/// The selection after a step back in a list of `len` rows: the last row
/// before the first, and the first row where nothing was selected.
pub open spec fn previous_index(selected: Option<usize>, len: usize) -> usize {
    match selected {
        Some(i) => if i == 0 {
            if len == 0 {
                0
            } else {
                (len - 1) as usize
            }
        } else {
            (i - 1) as usize
        },
        None => 0,
    }
}

/// The row after the selected one, cyclically.
pub fn step_forward(selected: Option<usize>, len: usize) -> (i: usize)
    ensures
        i == next_index(selected, len),
        len > 0 ==> i < len,
{
    match selected {
        Some(i) => {
            if len == 0 || i >= len - 1 {
                0
            } else {
                i + 1
            }
        },
        None => 0,
    }
}

/// The row before the selected one, cyclically.
pub fn step_back(selected: Option<usize>, len: usize) -> (i: usize)
    ensures
        i == previous_index(selected, len),
        len > 0 && (selected matches Some(s) ==> s < len) ==> i < len,
{
    match selected {
        Some(i) => {
            if i == 0 {
                if len == 0 {
                    0
                } else {
                    len - 1
                }
            } else {
                i - 1
            }
        },
        None => 0,
    }
}

/// Whether keys are commands or text.
#[derive(Clone, Copy, Debug, PartialEq, Eq, Structural)]
pub enum InputMode {
    Normal,
    Inputing,
}

/// What the text of the prompt is for.
#[derive(Clone, Copy, Debug, PartialEq, Eq, Structural)]
pub enum InputTo {
    Nothing,
    /// The password that unlocks the shown module.
    Decrypt,
    /// The password to seal the shown module with.
    Encrypt,
    /// The name of a new module.
    Module,
    /// The label of an entry whose secret is generated.
    Password,
    /// The label, then the secret, of an entry that is typed in.
    Add,
}

/// Which list the arrow keys move in.
#[derive(Clone, Copy, Debug, PartialEq, Eq, Structural)]
pub enum Selection {
    Modules,
    Passwords,
}

/// A key, as far as the session tells keys apart.
#[derive(Clone, Copy, Debug, PartialEq, Eq, Structural)]
pub enum Key {
    Char(char),
    Up,
    Down,
    Left,
    Right,
    Enter,
    Esc,
    Tab,
    Backspace,
    Other,
}

/// What choosing a module asks for.
#[derive(Clone, Copy, Debug, PartialEq, Eq, Structural)]
pub enum Choice {
    /// No module is highlighted.
    Nothing,
    /// The entries are in memory: show them.
    ShowEntries,
    /// The module is locked: ask for its password, then unlock it.
    PromptPassword,
    /// The module is plaintext and not read yet: read its entry file.
    ReadEntryFile,
}

/// What the caller has to do after a key.
pub enum Action {
    /// Nothing but to draw again.
    Redraw,
    /// Shut the store down and leave.
    Quit,
    /// Read the entry file of the module at the position and hand it to
    /// `deliver_plaintext`.
    ReadEntryFile(usize),
    /// Read the entry file of the module at the position and hand it to
    /// `deliver_ciphertext`.
    ReadCiphertext(usize),
    /// See whether the name in the prompt has an entry file and call
    /// `create_module`.
    CheckEntryFile,
    /// Write the bytes to the entry file of the module at the position.
    WriteEntryFile(usize, Vec<u8>),
    /// Put the secret on the clipboard.
    Copy(String),
}

/// What choosing a module of that state asks for.
pub open spec fn choice_of(lock_state: LockState) -> Choice {
    match lock_state {
        LockState::Unmanaged => Choice::Nothing,
        LockState::PlaintextUnlocked { entries: None } => Choice::ReadEntryFile,
        LockState::PlaintextUnlocked { entries: Some(_) } => Choice::ShowEntries,
        LockState::Locked => Choice::PromptPassword,
        LockState::Unlocked { entries, cached_password } => Choice::ShowEntries,
    }
}

/// The session.
pub struct ModuleUI {
    pub module_list: ModuleList,
    /// The highlighted row of the module list.
    pub selected: Option<usize>,
    /// The module whose entries are shown.
    pub module_index: Option<usize>,
    /// The highlighted row of the entry table.
    pub table_selected: Option<usize>,
    /// Whether the entry table is shown.
    pub display_module: bool,
    /// The text typed into the prompt.
    pub input_string: String,
    /// The label of the entry being typed in, once it is complete.
    pub input_label: Option<String>,
    pub selection: Selection,
    pub input_mode: InputMode,
    pub input_to: InputTo,
    /// Whether the error box is shown.
    pub display_error: bool,
    pub error_message: String,
}

/// The session as plain values.
pub struct UiView {
    pub modules: Seq<Module>,
    pub selected: Option<usize>,
    pub module_index: Option<usize>,
    pub table_selected: Option<usize>,
    pub display_module: bool,
    pub input: Seq<char>,
    pub label: Option<Seq<char>>,
    pub selection: Selection,
    pub input_mode: InputMode,
    pub input_to: InputTo,
    pub display_error: bool,
    pub error: Seq<char>,
}

impl View for ModuleUI {
    type V = UiView;

    open spec fn view(&self) -> UiView {
        UiView {
            modules: self.module_list.modules@,
            selected: self.selected,
            module_index: self.module_index,
            table_selected: self.table_selected,
            display_module: self.display_module,
            input: self.input_string@,
            label: match self.input_label {
                Some(l) => Some(l@),
                None => None,
            },
            selection: self.selection,
            input_mode: self.input_mode,
            input_to: self.input_to,
            display_error: self.display_error,
            error: self.error_message@,
        }
    }
}

impl UiView {
    /// The position of the shown module, where it is one of the list.
    pub open spec fn shown(self) -> Option<usize> {
        match self.module_index {
            Some(i) => if i < self.modules.len() {
                Some(i)
            } else {
                None
            },
            None => None,
        }
    }

    /// The store of the shown module that is in memory.
    pub open spec fn shown_store(self) -> Option<PasswordEntries> {
        match self.shown() {
            Some(i) => self.modules[i as int].store(),
            None => None,
        }
    }

    /// The number of rows of the entry table.
    pub open spec fn shown_rows(self) -> Option<usize> {
        match self.shown_store() {
            Some(entries) => Some(entries.pairs().len() as usize),
            None => None,
        }
    }

    /// The label and the secret of the highlighted row of the entry table.
    pub open spec fn highlighted(self) -> Option<(Seq<char>, Seq<char>)> {
        match (self.shown_store(), self.table_selected) {
            (Some(entries), Some(row)) => if row < entries.pairs().len() {
                Some(entries.pairs()[row as int])
            } else {
                None
            },
            _ => None,
        }
    }

    /// What choosing the highlighted module asks for.
    pub open spec fn chosen(self) -> Choice {
        match self.selected {
            Some(i) => if i < self.modules.len() {
                choice_of(self.modules[i as int].lock_state)
            } else {
                Choice::Nothing
            },
            None => Choice::Nothing,
        }
    }

    /// The session with the error box showing a message.
    pub open spec fn failed(self, message: Seq<char>) -> UiView {
        UiView { display_error: true, error: message, ..self }
    }

    /// The session with the prompt emptied and closed.
    pub open spec fn settled(self) -> UiView {
        UiView { input: Seq::empty(), label: None, input_to: InputTo::Nothing, ..self }
    }

    /// The session after a step forward in the entry table.
    pub open spec fn table_after_next(self) -> Option<usize> {
        match self.shown_rows() {
            Some(n) => Some(next_index(self.table_selected, n)),
            None => self.table_selected,
        }
    }

    /// The session after a step back in the entry table.
    pub open spec fn table_after_previous(self) -> Option<usize> {
        match self.shown_rows() {
            Some(n) => Some(previous_index(self.table_selected, n)),
            None => self.table_selected,
        }
    }
}

/// Only the module at the position may differ.
pub open spec fn changed_at(before: Seq<Module>, after: Seq<Module>, index: int) -> bool {
    &&& after.len() == before.len()
    &&& forall|j: int| 0 <= j < before.len() && j != index ==> #[trigger] after[j] == before[j]
}

/// The module is as before, but for the label, which is bound to the given
/// secret or, where none is given, to a generated one.
pub open spec fn entry_added(
    before: Module,
    label: Seq<char>,
    secret: Option<Seq<char>>,
    after: Module,
) -> bool {
    &&& after.name == before.name
    &&& after.scheme == before.scheme
    &&& after.hint() == before.hint()
    &&& after.cached() == before.cached()
    &&& match (before.entries(), after.entries()) {
        (Some(m), Some(m2)) => m2.dom().contains(label) && m2 == m.insert(label, m2[label])
            && after.rows() == Some(assoc_put(before.rows().unwrap(), label, m2[label]))
            && match secret {
            Some(s) => m2[label] == s,
            None => well_composed(m2[label], 32),
        },
        _ => false,
    }
}

/// The module is as before, but for the label, which is gone.
pub open spec fn entry_removed(before: Module, label: Seq<char>, after: Module) -> bool {
    &&& after.name == before.name
    &&& after.scheme == before.scheme
    &&& after.hint() == before.hint()
    &&& after.cached() == before.cached()
    &&& match before.entries() {
        Some(m) => after.entries() == Some(m.remove(label)) && after.rows() == Some(
            assoc_take(before.rows().unwrap(), label),
        ),
        None => false,
    }
}

/// What `handle_key` does with a key while keys are commands.
pub open spec fn command_handled(before: UiView, key: Key, after: UiView, action: Action) -> bool {
    match key {
        Key::Char('q') => after == before && action == Action::Quit,
        Key::Down => action == Action::Redraw && after == match before.selection {
            Selection::Modules => UiView {
                selected: Some(next_index(before.selected, before.modules.len() as usize)),
                ..before
            },
            Selection::Passwords => UiView { table_selected: before.table_after_next(), ..before },
        },
        Key::Up => action == Action::Redraw && after == match before.selection {
            Selection::Modules => UiView {
                selected: Some(previous_index(before.selected, before.modules.len() as usize)),
                ..before
            },
            Selection::Passwords => UiView {
                table_selected: before.table_after_previous(),
                ..before
            },
        },
        Key::Esc => action == Action::Redraw && after == (UiView {
            input_mode: InputMode::Normal,
            input_to: InputTo::Nothing,
            display_error: false,
            ..before
        }),
        Key::Enter => {
            let moved = UiView { module_index: before.selected, ..before };
            match before.chosen() {
                Choice::Nothing => after == moved && action == Action::Redraw,
                Choice::ShowEntries => after == (UiView { display_module: true, ..moved })
                    && action == Action::Redraw,
                Choice::PromptPassword => after == (UiView {
                    input_mode: InputMode::Inputing,
                    input_to: InputTo::Decrypt,
                    ..moved
                }) && action == Action::Redraw,
                Choice::ReadEntryFile => after == moved && action == Action::ReadEntryFile(
                    before.selected.unwrap(),
                ),
            }
        },
        Key::Char('g') => action == Action::Redraw && after == (UiView {
            input_mode: InputMode::Inputing,
            input_to: InputTo::Password,
            ..before
        }),
        Key::Char('m') => action == Action::Redraw && after == (UiView {
            input_mode: InputMode::Inputing,
            input_to: InputTo::Module,
            ..before
        }),
        Key::Char('e') => action == Action::Redraw && after == (UiView {
            input_mode: InputMode::Inputing,
            input_to: InputTo::Encrypt,
            ..before
        }),
        Key::Char('a') => action == Action::Redraw && after == (UiView {
            input_mode: InputMode::Inputing,
            input_to: InputTo::Add,
            ..before
        }),
        Key::Right => action == Action::Redraw && after == (UiView {
            selection: Selection::Passwords,
            ..before
        }),
        Key::Left => action == Action::Redraw && after == (UiView {
            selection: Selection::Modules,
            ..before
        }),
        Key::Char('d') => action == Action::Redraw && match before.shown() {
            None => after == before.failed("No selection found"@),
            Some(i) => match before.highlighted() {
                None => after == before,
                Some(row) => after == (UiView { modules: after.modules, ..before }) && changed_at(
                    before.modules,
                    after.modules,
                    i as int,
                ) && entry_removed(before.modules[i as int], row.0, after.modules[i as int]),
            },
        },
        Key::Char('c') => after == before && match before.highlighted() {
            Some(row) => match action {
                Action::Copy(secret) => secret@ == row.1,
                _ => false,
            },
            None => action == Action::Redraw,
        },
        _ => after == before && action == Action::Redraw,
    }
}

/// Sealing the module under the password fails with the error and leaves
/// the module as it is.
pub open spec fn encrypt_refused(module: Module, password: Seq<char>, e: StoreError) -> bool {
    Module::encrypt_spec(module, password, module, Err(e))
}

/// What `handle_key` does when the prompt is submitted.
pub open spec fn submitted(before: UiView, after: UiView, action: Action) -> bool {
    let calm = UiView { input_mode: InputMode::Normal, ..before };
    match before.input_to {
        InputTo::Nothing => after == calm && action == Action::Redraw,
        InputTo::Password => action == Action::Redraw && match before.shown() {
            None => after == calm.failed("No module selected"@),
            Some(i) => match before.modules[i as int].entries() {
                None => after == calm.failed(error_text(StoreError::NotFound)),
                Some(_) => after == (UiView { modules: after.modules, ..calm.settled() })
                    && changed_at(before.modules, after.modules, i as int) && entry_added(
                    before.modules[i as int],
                    before.input,
                    None,
                    after.modules[i as int],
                ),
            },
        },
        InputTo::Add => action == Action::Redraw && match before.shown() {
            None => after == calm,
            Some(i) => match before.label {
                None => after == calm.failed(
                    if before.input.len() == 0 {
                        "No name entered"@
                    } else {
                        "No password entered"@
                    },
                ),
                Some(label) => if label.len() == 0 {
                    after == calm.failed("No name entered"@)
                } else {
                    match before.modules[i as int].entries() {
                        None => after == calm.failed(error_text(StoreError::NotFound)),
                        Some(_) => after == (UiView { modules: after.modules, ..calm.settled() })
                            && changed_at(before.modules, after.modules, i as int) && entry_added(
                            before.modules[i as int],
                            label,
                            Some(before.input),
                            after.modules[i as int],
                        ),
                    }
                },
            },
        },
        InputTo::Decrypt => after == calm && match before.shown() {
            None => action == Action::Redraw,
            Some(i) => action == Action::ReadCiphertext(i),
        },
        InputTo::Module => after == calm && action == Action::CheckEntryFile,
        InputTo::Encrypt => match before.shown() {
            None => action == Action::Redraw && after == calm.failed("No module selected"@),
            Some(i) => if before.input.len() == 0 {
                action == Action::Redraw && after == calm.failed("Please enter a password"@)
            } else {
                match action {
                    Action::WriteEntryFile(index, bytes) => index == i && after == (UiView {
                        modules: after.modules,
                        display_module: false,
                        ..calm.settled()
                    }) && changed_at(before.modules, after.modules, i as int)
                        && Module::encrypt_spec(
                        before.modules[i as int],
                        before.input,
                        after.modules[i as int],
                        Ok(bytes),
                    ),
                    Action::Redraw => exists|e: StoreError|
                        after == calm.settled().failed(error_text(e)) && #[trigger] encrypt_refused(
                            before.modules[i as int],
                            before.input,
                            e,
                        ),
                    _ => false,
                }
            },
        },
    }
}

/// What `handle_key` does with a key while keys are text.
pub open spec fn text_handled(before: UiView, key: Key, after: UiView, action: Action) -> bool {
    match key {
        Key::Char(c) => action == Action::Redraw && after == (UiView {
            input: before.input.push(c),
            ..before
        }),
        Key::Tab => action == Action::Redraw && after == (if before.input_to == InputTo::Add
            && before.label is None {
            UiView { label: Some(before.input), input: Seq::empty(), ..before }
        } else {
            before
        }),
        Key::Esc => action == Action::Redraw && after == (UiView {
            input_mode: InputMode::Normal,
            input_to: InputTo::Nothing,
            display_error: false,
            ..before
        }),
        Key::Backspace => action == Action::Redraw && after == (UiView {
            input: if before.input.len() == 0 {
                before.input
            } else {
                before.input.drop_last()
            },
            ..before
        }),
        Key::Enter => submitted(before, after, action),
        _ => after == before && action == Action::Redraw,
    }
}

/// What `handle_key` does with a key.
pub open spec fn handled(before: UiView, key: Key, after: UiView, action: Action) -> bool {
    match before.input_mode {
        InputMode::Normal => command_handled(before, key, after, action),
        InputMode::Inputing => text_handled(before, key, after, action),
    }
}

impl ModuleUI {
    /// Nothing selected, nothing shown, no prompt.
    pub fn new(module_list: ModuleList) -> (ui: ModuleUI)
        ensures
            ui.module_list == module_list,
            ui@ == (UiView {
                modules: module_list.modules@,
                selected: None,
                module_index: None,
                table_selected: None,
                display_module: false,
                input: Seq::empty(),
                label: None,
                selection: Selection::Modules,
                input_mode: InputMode::Normal,
                input_to: InputTo::Nothing,
                display_error: false,
                error: Seq::empty(),
            }),
    {
        ModuleUI {
            module_list,
            selected: None,
            module_index: None,
            table_selected: None,
            display_module: false,
            input_string: String::new(),
            input_label: None,
            selection: Selection::Modules,
            input_mode: InputMode::Normal,
            input_to: InputTo::Nothing,
            display_error: false,
            error_message: String::new(),
        }
    }

    /// The position of the shown module, where it is one of the list.
    pub fn shown_module(&self) -> (r: Option<usize>)
        ensures
            r == self@.shown(),
    {
        match self.module_index {
            Some(i) => {
                if i < self.module_list.len() {
                    Some(i)
                } else {
                    None
                }
            },
            None => None,
        }
    }

    /// The number of rows of the entry table.
    pub fn entry_rows(&self) -> (r: Option<usize>)
        requires
            self.module_list.wf(),
        ensures
            r == self@.shown_rows(),
    {
        match self.shown_module() {
            Some(i) => {
                assert(self.module_list.modules@[i as int].wf());
                match self.module_list.modules[i].entry_store() {
                    Some(entries) => Some(entries.len()),
                    None => None,
                }
            },
            None => None,
        }
    }

    /// The label and the secret of the highlighted row of the entry table.
    pub fn highlighted_entry(&self) -> (r: Option<(String, String)>)
        requires
            self.module_list.wf(),
        ensures
            match r {
                Some((label, secret)) => self@.highlighted() == Some((label@, secret@)),
                None => self@.highlighted() is None,
            },
    {
        match (self.shown_module(), self.table_selected) {
            (Some(i), Some(row)) => {
                assert(self.module_list.modules@[i as int].wf());
                match self.module_list.modules[i].entry_store() {
                    Some(entries) => {
                        if row < entries.len() {
                            let (label, secret) = entries.entry_at(row);
                            Some((label.to_owned(), secret.to_owned()))
                        } else {
                            None
                        }
                    },
                    None => None,
                }
            },
            _ => None,
        }
    }

    /// Moves the highlight of the module list one row down.
    pub fn next(&mut self)
        ensures
            final(self).module_list == old(self).module_list,
            final(self)@ == (UiView {
                selected: Some(
                    next_index(old(self).selected, old(self).module_list.modules@.len() as usize),
                ),
                ..old(self)@
            }),
    {
        self.selected = Some(step_forward(self.selected, self.module_list.len()));
    }

    /// Moves the highlight of the module list one row up.
    pub fn previous(&mut self)
        ensures
            final(self).module_list == old(self).module_list,
            final(self)@ == (UiView {
                selected: Some(
                    previous_index(
                        old(self).selected,
                        old(self).module_list.modules@.len() as usize,
                    ),
                ),
                ..old(self)@
            }),
    {
        self.selected = Some(step_back(self.selected, self.module_list.len()));
    }

    /// Takes the highlight off the module list.
    pub fn unselect(&mut self)
        ensures
            final(self).module_list == old(self).module_list,
            final(self)@ == (UiView { selected: None, ..old(self)@ }),
    {
        self.selected = None;
    }

    /// Moves the highlight of the entry table one row down, if the shown
    /// module has its entries in memory.
    pub fn next_password(&mut self)
        requires
            old(self).module_list.wf(),
        ensures
            final(self).module_list == old(self).module_list,
            final(self)@ == (UiView {
                table_selected: old(self)@.table_after_next(),
                ..old(self)@
            }),
    {
        match self.entry_rows() {
            Some(n) => {
                self.table_selected = Some(step_forward(self.table_selected, n));
            },
            None => {},
        }
    }

    /// Moves the highlight of the entry table one row up, if the shown module
    /// has its entries in memory.
    pub fn previous_password(&mut self)
        requires
            old(self).module_list.wf(),
        ensures
            final(self).module_list == old(self).module_list,
            final(self)@ == (UiView {
                table_selected: old(self)@.table_after_previous(),
                ..old(self)@
            }),
    {
        match self.entry_rows() {
            Some(n) => {
                self.table_selected = Some(step_back(self.table_selected, n));
            },
            None => {},
        }
    }

    /// Takes the highlight off the entry table.
    pub fn unselect_password(&mut self)
        ensures
            final(self).module_list == old(self).module_list,
            final(self)@ == (UiView { table_selected: None, ..old(self)@ }),
    {
        self.table_selected = None;
    }

    /// Chooses the highlighted module as the one to show, and says what has
    /// to happen before its entries can be shown. The module itself is not
    /// touched: a locked module stays locked until its password is given.
    pub fn select_module(&mut self) -> (choice: Choice)
        ensures
            choice == old(self)@.chosen(),
            final(self).module_list == old(self).module_list,
            final(self)@ == (UiView { module_index: old(self).selected, ..old(self)@ }),
    {
        self.module_index = self.selected;
        match self.selected {
            Some(i) => match self.module_list.module(i) {
                Some(m) => match &m.lock_state {
                    LockState::Unmanaged => Choice::Nothing,
                    LockState::PlaintextUnlocked { entries: None } => Choice::ReadEntryFile,
                    LockState::PlaintextUnlocked { entries: Some(_) } => Choice::ShowEntries,
                    LockState::Locked => Choice::PromptPassword,
                    LockState::Unlocked { .. } => Choice::ShowEntries,
                },
                None => Choice::Nothing,
            },
            None => Choice::Nothing,
        }
    }

    /// Shows a message in the error box.
    pub fn fail(&mut self, message: &str)
        ensures
            final(self).module_list == old(self).module_list,
            final(self)@ == old(self)@.failed(message@),
    {
        self.display_error = true;
        self.error_message = message.to_owned();
    }

    /// Shows a failure of the store, or of the storage, in the error box.
    pub fn report_failure(&mut self, error: StoreError)
        ensures
            final(self).module_list == old(self).module_list,
            final(self)@ == old(self)@.failed(error_text(error)),
    {
        self.fail(error.message());
    }

    /// Empties and closes the prompt.
    pub fn settle(&mut self)
        ensures
            final(self).module_list == old(self).module_list,
            final(self)@ == old(self)@.settled(),
    {
        self.input_string = String::new();
        self.input_label = None;
        self.input_to = InputTo::Nothing;
    }

    /// Opens the prompt for a text.
    pub fn prompt(&mut self, input_to: InputTo)
        ensures
            final(self).module_list == old(self).module_list,
            final(self)@ == (UiView {
                input_mode: InputMode::Inputing,
                input_to,
                ..old(self)@
            }),
    {
        self.input_mode = InputMode::Inputing;
        self.input_to = input_to;
    }

    /// Leaves the prompt and the error box; the text typed so far stays.
    pub fn leave_input(&mut self)
        ensures
            final(self).module_list == old(self).module_list,
            final(self)@ == (UiView {
                input_mode: InputMode::Normal,
                input_to: InputTo::Nothing,
                display_error: false,
                ..old(self)@
            }),
    {
        self.input_mode = InputMode::Normal;
        self.input_to = InputTo::Nothing;
        self.display_error = false;
    }

    /// Takes one key and says what the caller has to do.
    pub fn handle_key(&mut self, key: Key) -> (action: Action)
        requires
            old(self).module_list.wf(),
        ensures
            final(self).module_list.wf(),
            handled(old(self)@, key, final(self)@, action),
    {
        match self.input_mode {
            InputMode::Normal => self.handle_command(key),
            InputMode::Inputing => self.handle_text(key),
        }
    }

    /// Takes one key as a command.
    pub fn handle_command(&mut self, key: Key) -> (action: Action)
        requires
            old(self).module_list.wf(),
        ensures
            final(self).module_list.wf(),
            command_handled(old(self)@, key, final(self)@, action),
    {
        match key {
            Key::Char('q') => Action::Quit,
            Key::Down => {
                match self.selection {
                    Selection::Modules => self.next(),
                    Selection::Passwords => self.next_password(),
                }
                Action::Redraw
            },
            Key::Up => {
                match self.selection {
                    Selection::Modules => self.previous(),
                    Selection::Passwords => self.previous_password(),
                }
                Action::Redraw
            },
            Key::Esc => {
                self.leave_input();
                Action::Redraw
            },
            Key::Enter => {
                let index = self.selected;
                match self.select_module() {
                    Choice::Nothing => Action::Redraw,
                    Choice::ShowEntries => {
                        self.display_module = true;
                        Action::Redraw
                    },
                    Choice::PromptPassword => {
                        self.prompt(InputTo::Decrypt);
                        Action::Redraw
                    },
                    Choice::ReadEntryFile => match index {
                        Some(i) => Action::ReadEntryFile(i),
                        None => Action::Redraw,
                    },
                }
            },
            Key::Char('g') => {
                self.prompt(InputTo::Password);
                Action::Redraw
            },
            Key::Char('m') => {
                self.prompt(InputTo::Module);
                Action::Redraw
            },
            Key::Char('e') => {
                self.prompt(InputTo::Encrypt);
                Action::Redraw
            },
            Key::Char('a') => {
                self.prompt(InputTo::Add);
                Action::Redraw
            },
            Key::Right => {
                self.selection = Selection::Passwords;
                Action::Redraw
            },
            Key::Left => {
                self.selection = Selection::Modules;
                Action::Redraw
            },
            Key::Char('d') => {
                self.delete_highlighted();
                Action::Redraw
            },
            Key::Char('c') => match self.highlighted_entry() {
                Some((_, secret)) => Action::Copy(secret),
                None => Action::Redraw,
            },
            _ => Action::Redraw,
        }
    }

    /// Removes the highlighted entry of the shown module.
    fn delete_highlighted(&mut self)
        requires
            old(self).module_list.wf(),
        ensures
            final(self).module_list.wf(),
            command_handled(old(self)@, Key::Char('d'), final(self)@, Action::Redraw),
    {
        match self.shown_module() {
            None => {
                self.fail("No selection found");
            },
            Some(i) => {
                match self.highlighted_entry() {
                    None => {},
                    Some((label, _)) => {
                        proof {
                            let m = self.module_list.modules@[i as int];
                            assert(m.wf());
                            let store = m.store().unwrap();
                            store.lemma_row(self.table_selected.unwrap() as int);
                        }
                        let _ = self.module_list.remove_entry(i, label.as_str());
                    },
                }
            },
        }
    }

    /// Takes one key as text.
    pub fn handle_text(&mut self, key: Key) -> (action: Action)
        requires
            old(self).module_list.wf(),
        ensures
            final(self).module_list.wf(),
            text_handled(old(self)@, key, final(self)@, action),
    {
        match key {
            Key::Char(c) => {
                self.input_string.push(c);
                Action::Redraw
            },
            Key::Tab => {
                if self.input_to == InputTo::Add && self.input_label.is_none() {
                    self.input_label = Some(self.input_string.clone());
                    self.input_string = String::new();
                }
                Action::Redraw
            },
            Key::Esc => {
                self.leave_input();
                Action::Redraw
            },
            Key::Backspace => {
                let _ = self.input_string.pop();
                Action::Redraw
            },
            Key::Enter => self.submit(),
            _ => Action::Redraw,
        }
    }

    /// Takes the text of the prompt for what it was asked for.
    pub fn submit(&mut self) -> (action: Action)
        requires
            old(self).module_list.wf(),
        ensures
            final(self).module_list.wf(),
            submitted(old(self)@, final(self)@, action),
    {
        self.input_mode = InputMode::Normal;
        match self.input_to {
            InputTo::Nothing => Action::Redraw,
            InputTo::Password => {
                match self.shown_module() {
                    None => self.fail("No module selected"),
                    Some(i) => {
                        let label = self.input_string.clone();
                        self.add_to(i, label.as_str(), None);
                    },
                }
                Action::Redraw
            },
            InputTo::Add => {
                match self.shown_module() {
                    None => {},
                    Some(i) => {
                        let label = match &self.input_label {
                            Some(l) => Some(l.clone()),
                            None => None,
                        };
                        match label {
                            None => {
                                if self.input_string.as_str().is_empty() {
                                    self.fail("No name entered");
                                } else {
                                    self.fail("No password entered");
                                }
                            },
                            Some(l) => {
                                if l.as_str().is_empty() {
                                    self.fail("No name entered");
                                } else {
                                    let secret = self.input_string.clone();
                                    self.add_to(i, l.as_str(), Some(secret.as_str()));
                                }
                            },
                        }
                    },
                }
                Action::Redraw
            },
            InputTo::Decrypt => match self.shown_module() {
                None => Action::Redraw,
                Some(i) => Action::ReadCiphertext(i),
            },
            InputTo::Module => Action::CheckEntryFile,
            InputTo::Encrypt => match self.shown_module() {
                None => {
                    self.fail("No module selected");
                    Action::Redraw
                },
                Some(i) => {
                    if self.input_string.as_str().is_empty() {
                        self.fail("Please enter a password");
                        Action::Redraw
                    } else {
                        let password = self.input_string.clone();
                        let sealed = self.module_list.encrypt_module(i, password.as_str());
                        self.settle();
                        match sealed {
                            Ok(bytes) => {
                                self.display_module = false;
                                Action::WriteEntryFile(i, bytes)
                            },
                            Err(e) => {
                                proof {
                                    assert(self.module_list.modules@ =~= old(self).module_list.modules@);
                                    assert(encrypt_refused(
                                        old(self)@.modules[i as int],
                                        old(self)@.input,
                                        e,
                                    ));
                                }
                                self.report_failure(e);
                                Action::Redraw
                            },
                        }
                    }
                },
            },
        }
    }

    /// Adds an entry to the module at a position; where its entries are not
    /// in memory, the error box says so and the prompt stays.
    fn add_to(&mut self, index: usize, label: &str, secret: Option<&str>)
        requires
            old(self).module_list.wf(),
            index < old(self).module_list.modules@.len(),
        ensures
            final(self).module_list.wf(),
            match old(self).module_list.modules@[index as int].entries() {
                None => final(self)@ == old(self)@.failed(error_text(StoreError::NotFound)),
                Some(_) => final(self)@ == (UiView {
                    modules: final(self)@.modules,
                    ..old(self)@.settled()
                }) && changed_at(old(self)@.modules, final(self)@.modules, index as int)
                    && entry_added(
                    old(self)@.modules[index as int],
                    label@,
                    match secret {
                        Some(s) => Some(s@),
                        None => None,
                    },
                    final(self)@.modules[index as int],
                ),
            },
    {
        match self.module_list.add_entry(index, label, secret) {
            Ok(_) => self.settle(),
            Err(e) => {
                assert(self.module_list.modules@ =~= old(self).module_list.modules@);
                self.report_failure(e)
            },
        }
    }

    /// Takes the contents of the entry file that `ReadEntryFile` asked for.
    /// Where they are no entry file, the error box says so.
    pub fn deliver_plaintext(&mut self, index: usize, contents: &[u8]) -> (r: Result<(), StoreError>)
        requires
            old(self).module_list.wf(),
        ensures
            final(self).module_list.wf(),
            changed_at(old(self)@.modules, final(self)@.modules, index as int),
            if index < old(self)@.modules.len() {
                Module::load_plaintext_spec(
                    old(self)@.modules[index as int],
                    contents@,
                    final(self)@.modules[index as int],
                    r,
                )
            } else {
                r == Err::<(), StoreError>(StoreError::NotFound)
            },
            final(self)@ == match r {
                Ok(_) => UiView { modules: final(self)@.modules, display_module: true, ..old(self)@ },
                Err(e) => (UiView { modules: final(self)@.modules, ..old(self)@ }).failed(
                    error_text(e),
                ),
            },
    {
        let r = self.module_list.load_plaintext(index, contents);
        match r {
            Ok(_) => {
                self.display_module = true;
            },
            Err(e) => {
                self.report_failure(e);
            },
        }
        r
    }

    /// Takes the contents of the entry file that `ReadCiphertext` asked for
    /// and unlocks the module with the password in the prompt. The prompt is
    /// emptied either way; a failure is shown in the error box.
    pub fn deliver_ciphertext(&mut self, index: usize, contents: &[u8]) -> (r: Result<(), StoreError>)
        requires
            old(self).module_list.wf(),
        ensures
            final(self).module_list.wf(),
            changed_at(old(self)@.modules, final(self)@.modules, index as int),
            if index < old(self)@.modules.len() {
                Module::unlock_spec(
                    old(self)@.modules[index as int],
                    old(self)@.input,
                    contents@,
                    final(self)@.modules[index as int],
                    r,
                )
            } else {
                r == Err::<(), StoreError>(StoreError::NotFound)
            },
            final(self)@ == match r {
                Ok(_) => UiView {
                    modules: final(self)@.modules,
                    display_module: true,
                    input_mode: InputMode::Normal,
                    ..old(self)@.settled()
                },
                Err(e) => (UiView {
                    modules: final(self)@.modules,
                    input_mode: InputMode::Normal,
                    ..old(self)@.settled()
                }).failed(error_text(e)),
            },
    {
        let password = self.input_string.clone();
        let r = self.module_list.unlock(index, password.as_str(), contents);
        self.settle();
        self.input_mode = InputMode::Normal;
        match r {
            Ok(_) => {
                self.display_module = true;
            },
            Err(e) => {
                self.report_failure(e);
            },
        }
        r
    }

    /// Creates the module that the prompt names, given whether the name has
    /// an entry file already, and returns the module's first entry file. The
    /// prompt is emptied either way.
    pub fn create_module(&mut self, file_exists: bool) -> (r: Result<Vec<u8>, StoreError>)
        requires
            old(self).module_list.wf(),
        ensures
            final(self).module_list.wf(),
            match r {
                Ok(bytes) => !file_exists && !old(self).module_list.has_name(old(self)@.input)
                    && serialized(Map::<Seq<char>, Seq<char>>::empty()) == Some(bytes@) && final(self)@ == (UiView { modules: final(self)@.modules, ..old(self)@.settled() }) && final(self)@.modules.len() == old(self)@.modules.len() + 1 && final(self)@.modules.drop_last()
                    == old(self)@.modules && final(self)@.modules.last().name@ == old(self)@.input
                    && final(self)@.modules.last().entries() == Some(
                    Map::<Seq<char>, Seq<char>>::empty(),
                ) && final(self)@.modules.last().scheme is None,
                Err(e) => final(self)@ == old(self)@.settled().failed(error_text(e)) && if file_exists
                    || old(self).module_list.has_name(old(self)@.input) {
                    e == StoreError::AlreadyExists
                } else {
                    e == StoreError::SerializationError && serialized(
                        Map::<Seq<char>, Seq<char>>::empty(),
                    ) is None
                },
            },
    {
        let name = self.input_string.clone();
        let r = self.module_list.add_module(name.as_str(), PasswordEntries::new(), file_exists);
        self.settle();
        match r {
            Ok(bytes) => Ok(bytes),
            Err(e) => {
                self.report_failure(e);
                Err(e)
            },
        }
    }
}

/// Reads the entry file of a plaintext module.
pub fn read_unencrypted_module(m: Module, contents: &[u8]) -> (out: (Module, Result<(), StoreError>))
    requires
        m.wf(),
    ensures
        out.0.wf(),
        Module::load_plaintext_spec(m, contents@, out.0, out.1),
{
    m.load_plaintext(contents)
}

/// Opens a locked module with a password and the contents of its entry file.
pub fn read_encrypted_module(password: &str, m: Module, contents: &[u8]) -> (out: (
    Module,
    Result<(), StoreError>,
))
    requires
        m.wf(),
    ensures
        out.0.wf(),
        Module::unlock_spec(m, password@, contents@, out.0, out.1),
{
    m.unlock(password, contents)
}

/// The shutdown pass of the module list, after which nothing is selected or
/// shown, the prompt is empty, and no entries and no password are left in
/// memory.
pub fn clean_up(app: &mut ModuleUI) -> (report: CleanupReport)
    requires
        old(app).module_list.wf(),
    ensures
        final(app).module_list.wf(),
        final(app).module_list.all_at_rest(),
        final(app)@ == (UiView {
            modules: final(app)@.modules,
            selected: None,
            module_index: None,
            table_selected: None,
            display_module: false,
            input: Seq::empty(),
            label: None,
            input_to: InputTo::Nothing,
            ..old(app)@
        }),
        final(app)@.modules.len() == old(app)@.modules.len(),
        report.steps@.len() == old(app)@.modules.len(),
        forall|i: int|
            0 <= i < old(app)@.modules.len() ==> Module::shut_spec(
                old(app)@.modules[i],
                #[trigger] final(app)@.modules[i],
                report.steps@[i],
            ),
        match report.registry {
            Ok(bytes) => saved(final(app).module_list.scheme_map()) == Some(bytes@),
            Err(e) => e == StoreError::SerializationError && saved(
                final(app).module_list.scheme_map(),
            ) is None,
        },
{
    let report = app.module_list.clean_up();
    app.selected = None;
    app.module_index = None;
    app.table_selected = None;
    app.display_module = false;
    app.settle();
    report
}

} // verus!
