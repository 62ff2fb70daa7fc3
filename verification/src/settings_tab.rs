//! The settings tab: a list of the settings fields with a focus. Enter flips
//! a toggle or opens an editor on a text field, whose Enter confirms and Esc
//! cancels; Ctrl+S asks whether to save, and saving is left to the caller.
use vstd::prelude::*;
use crate::app::{KeyCode, KeyEvent, CONTROL, NO_MODIFIERS, SHIFT, is_ctrl};
use crate::edit::{
    BufferView, TextBuffer, buffer_valid, max_text_bytes, spec_backspace, spec_delete,
    spec_insert_char, spec_move_end, spec_move_home, spec_move_left, spec_move_right,
};
use crate::settings::{
    DefaultsView, Settings, SettingsDefaults, SettingsView, field_edit_text, field_set,
    field_toggle,
};
use crate::text::{byte_len, chars_of, string_from_chars};

verus! {

/// The number of settings fields.
pub open spec fn field_count() -> int {
    5
}

/// The state of the settings tab.
#[derive(Debug)]
pub struct SettingsTab {
    pub settings: Settings,
    /// What an emptied command or spec file name falls back to.
    pub defaults: SettingsDefaults,
    /// The index of the focused field.
    pub focus: usize,
    /// The editor on the focused text field, while one is open.
    pub editing: Option<TextBuffer>,
    /// Whether the save confirmation is shown.
    pub save_dialog: bool,
    /// Whether saving was confirmed and the settings wait to be written.
    pub save_requested: bool,
}

/// The mathematical value of a [`SettingsTab`].
pub struct SettingsTabView {
    pub settings: SettingsView,
    pub defaults: DefaultsView,
    pub focus: int,
    pub editing: Option<BufferView>,
    pub save_dialog: bool,
    pub save_requested: bool,
}

pub open spec fn editor_view(e: Option<TextBuffer>) -> Option<BufferView> {
    match e {
        Some(b) => Some(b@),
        None => None,
    }
}

impl View for SettingsTab {
    type V = SettingsTabView;

    open spec fn view(&self) -> SettingsTabView {
        SettingsTabView {
            settings: self.settings@,
            defaults: self.defaults@,
            focus: self.focus as int,
            editing: editor_view(self.editing),
            save_dialog: self.save_dialog,
            save_requested: self.save_requested,
        }
    }
}

/// Whether the focus is on a field and an open editor's cursor lies in its text.
pub open spec fn tab_valid(t: SettingsTabView) -> bool {
    &&& 0 <= t.focus < field_count()
    &&& (t.editing matches Some(b) ==> buffer_valid(b))
}

/// Whether an open editor has room for one more character of any width.
pub open spec fn tab_has_room(t: SettingsTabView) -> bool {
    t.editing matches Some(b) ==> byte_len(b.text) + 4 <= max_text_bytes()
}

/// The tab at start-up: the first field focused, no editor, no confirmation.
pub open spec fn initial_tab(s: SettingsView, d: DefaultsView) -> SettingsTabView {
    SettingsTabView {
        settings: s,
        defaults: d,
        focus: 0,
        editing: None,
        save_dialog: false,
        save_requested: false,
    }
}

/// A key in an open editor, other than Enter and Esc: the usual editing keys.
pub open spec fn spec_editor_key(b: BufferView, k: KeyEvent) -> BufferView {
    match k.code {
        KeyCode::Backspace => spec_backspace(b),
        KeyCode::Delete => spec_delete(b),
        KeyCode::Left => spec_move_left(b),
        KeyCode::Right => spec_move_right(b),
        KeyCode::Home => spec_move_home(b),
        KeyCode::End => spec_move_end(b),
        KeyCode::Char(c) => if k.modifiers == NO_MODIFIERS || k.modifiers == SHIFT {
            spec_insert_char(b, c)
        } else {
            b
        },
        _ => b,
    }
}

/// Enter on the focused field: a toggle flips; a text field opens an editor
/// holding its text with the cursor at the end (when the text fits in a string).
pub open spec fn spec_activate(t: SettingsTabView) -> SettingsTabView {
    let i = t.focus as usize;
    if i == 3 || i == 4 {
        SettingsTabView { settings: field_toggle(t.settings, i), ..t }
    } else {
        let text = field_edit_text(t.settings, i);
        if byte_len(text) <= max_text_bytes() {
            SettingsTabView {
                editing: Some(BufferView { text, cursor: text.len() as int }),
                ..t
            }
        } else {
            t
        }
    }
}

/// A key in the settings tab. The save confirmation takes every key: Enter
/// confirms (the settings wait to be written), Esc cancels. An open editor
/// takes every key: Enter sets the field to its text, Esc closes it, other
/// keys edit. Otherwise Up and Down move the focus, Enter activates the
/// focused field, Ctrl+S asks whether to save.
pub open spec fn spec_tab_key(t: SettingsTabView, k: KeyEvent) -> SettingsTabView {
    if t.save_dialog {
        if k.code == KeyCode::Enter {
            SettingsTabView { save_dialog: false, save_requested: true, ..t }
        } else if k.code == KeyCode::Esc {
            SettingsTabView { save_dialog: false, ..t }
        } else {
            t
        }
    } else {
        match t.editing {
            Some(b) => if k.code == KeyCode::Enter && k.modifiers == NO_MODIFIERS {
                SettingsTabView {
                    settings: field_set(t.settings, t.focus as usize, b.text, t.defaults),
                    editing: None,
                    ..t
                }
            } else if k.code == KeyCode::Esc {
                SettingsTabView { editing: None, ..t }
            } else {
                SettingsTabView { editing: Some(spec_editor_key(b, k)), ..t }
            },
            None => if is_ctrl(k, 's') {
                SettingsTabView { save_dialog: true, ..t }
            } else {
                match k.code {
                    KeyCode::Up => if t.focus > 0 {
                        SettingsTabView { focus: t.focus - 1, ..t }
                    } else {
                        t
                    },
                    KeyCode::Down => if t.focus < field_count() - 1 {
                        SettingsTabView { focus: t.focus + 1, ..t }
                    } else {
                        t
                    },
                    KeyCode::Enter => spec_activate(t),
                    _ => t,
                }
            },
        }
    }
}

impl SettingsTab {
    /// Whether the state is consistent, including an open editor's byte cursor.
    pub open spec fn wf(&self) -> bool {
        &&& tab_valid(self@)
        &&& (self.editing matches Some(b) ==> b.wf())
    }

    /// The tab at start-up for `settings` (see [`initial_tab`]).
    pub fn new(settings: Settings, defaults: SettingsDefaults) -> (t: Self)
        ensures
            t.wf(),
            t@ == initial_tab(settings@, defaults@),
    {
        SettingsTab {
            settings,
            defaults,
            focus: 0,
            editing: None,
            save_dialog: false,
            save_requested: false,
        }
    }

    /// Applies a key (see [`spec_tab_key`]).
    pub fn handle_key(&mut self, key: KeyEvent)
        requires
            old(self).wf(),
            tab_has_room(old(self)@),
        ensures
            final(self).wf(),
            final(self)@ == spec_tab_key(old(self)@, key),
    {
        if self.save_dialog {
            if key.code == KeyCode::Enter {
                self.save_dialog = false;
                self.save_requested = true;
            } else if key.code == KeyCode::Esc {
                self.save_dialog = false;
            }
            return ;
        }
        match self.editing.take() {
            Some(mut b) => {
                if key.code == KeyCode::Enter && key.modifiers == NO_MODIFIERS {
                    let value = string_from_chars(&b.text);
                    self.settings.set_value(self.focus, value, &self.defaults);
                } else if key.code == KeyCode::Esc {
                } else {
                    match key.code {
                        KeyCode::Backspace => b.backspace(),
                        KeyCode::Delete => b.delete(),
                        KeyCode::Left => b.move_left(),
                        KeyCode::Right => b.move_right(),
                        KeyCode::Home => b.move_home(),
                        KeyCode::End => b.move_end(),
                        KeyCode::Char(c) => {
                            if key.modifiers == NO_MODIFIERS || key.modifiers == SHIFT {
                                b.insert_char(c);
                            }
                        },
                        _ => {},
                    }
                    self.editing = Some(b);
                }
            },
            None => {
                let ctrl_s = match key.code {
                    KeyCode::Char(x) => x == 's' && key.modifiers == CONTROL,
                    _ => false,
                };
                if ctrl_s {
                    self.save_dialog = true;
                } else {
                    match key.code {
                        KeyCode::Up => {
                            if self.focus > 0 {
                                self.focus = self.focus - 1;
                            }
                        },
                        KeyCode::Down => {
                            if self.focus < 4 {
                                self.focus = self.focus + 1;
                            }
                        },
                        KeyCode::Enter => self.activate(),
                        _ => {},
                    }
                }
            },
        }
    }

    fn activate(&mut self)
        requires
            old(self).wf(),
            old(self).editing is None,
        ensures
            final(self).wf(),
            final(self)@ == spec_activate(old(self)@),
    {
        if Settings::is_boolean(self.focus) {
            self.settings.toggle(self.focus);
        } else {
            let text = chars_of(self.settings.edit_value(self.focus).as_str());
            self.editing = TextBuffer::from_text(text);
        }
    }
}

// ---------------------------------------------------------------------------
// Laws of the settings tab
// ---------------------------------------------------------------------------

/// Esc in an open editor leaves the settings as they were.
pub proof fn lemma_editor_esc_keeps_settings(t: SettingsTabView, modifiers: u8)
    requires
        !t.save_dialog,
        t.editing is Some,
    ensures
        spec_tab_key(t, KeyEvent { code: KeyCode::Esc, modifiers }) == (SettingsTabView {
            editing: None,
            ..t
        }),
{
}

/// Opening the editor on a text field and confirming it at once leaves the
/// field's value as shown in the editor; with a non-empty text, the field
/// keeps its value.
pub proof fn lemma_edit_then_confirm_keeps_value(t: SettingsTabView)
    requires
        tab_valid(t),
        !t.save_dialog,
        t.editing is None,
        t.focus < 3,
        byte_len(field_edit_text(t.settings, t.focus as usize)) <= max_text_bytes(),
    ensures
        ({
            let enter = KeyEvent { code: KeyCode::Enter, modifiers: NO_MODIFIERS };
            let t1 = spec_tab_key(t, enter);
            let t2 = spec_tab_key(t1, enter);
            &&& t1.editing == Some(BufferView {
                text: field_edit_text(t.settings, t.focus as usize),
                cursor: field_edit_text(t.settings, t.focus as usize).len() as int,
            })
            &&& t2.editing is None
            &&& t2.settings == field_set(
                t.settings,
                t.focus as usize,
                field_edit_text(t.settings, t.focus as usize),
                t.defaults,
            )
        }),
{
}

/// Enter on a toggle twice gives back the settings.
pub proof fn lemma_toggle_enter_twice(t: SettingsTabView)
    requires
        !t.save_dialog,
        t.editing is None,
        t.focus == 3 || t.focus == 4,
    ensures
        ({
            let enter = KeyEvent { code: KeyCode::Enter, modifiers: NO_MODIFIERS };
            spec_tab_key(spec_tab_key(t, enter), enter) == t
        }),
{
}

/// Saving takes a confirmation: Ctrl+S asks, Enter confirms, and only then
/// do the settings wait to be written; Esc cancels without saving.
pub proof fn lemma_save_needs_confirmation(t: SettingsTabView)
    requires
        !t.save_dialog,
        t.editing is None,
        !t.save_requested,
    ensures
        ({
            let ctrl_s = KeyEvent { code: KeyCode::Char('s'), modifiers: CONTROL };
            let t1 = spec_tab_key(t, ctrl_s);
            &&& t1.save_dialog && !t1.save_requested
            &&& spec_tab_key(t1, KeyEvent { code: KeyCode::Enter, modifiers: NO_MODIFIERS })
                == (SettingsTabView { save_requested: true, ..t })
            &&& spec_tab_key(t1, KeyEvent { code: KeyCode::Esc, modifiers: NO_MODIFIERS }) == t
        }),
{
}

} // verus!
