//! User settings: the integrator command, the model, the spec file's name and
//! the web tool toggles, edited field by field in a settings list.
use vstd::prelude::*;
use crate::integrator::{join_path, join_path_chars};
use crate::text::{chars_of, push_all, string_from_chars};

verus! {

/// The settings.
#[derive(Debug, Clone)]
pub struct Settings {
    pub claude_command: String,
    pub model: Option<String>,
    pub spec_filename: String,
    pub web_search: bool,
    pub web_fetch: bool,
}

/// The mathematical value of [`Settings`].
pub struct SettingsView {
    pub claude_command: Seq<char>,
    pub model: Option<Seq<char>>,
    pub spec_filename: Seq<char>,
    pub web_search: bool,
    pub web_fetch: bool,
}

impl View for Settings {
    type V = SettingsView;

    open spec fn view(&self) -> SettingsView {
        SettingsView {
            claude_command: self.claude_command@,
            model: match self.model {
                Some(m) => Some(m@),
                None => None,
            },
            spec_filename: self.spec_filename@,
            web_search: self.web_search,
            web_fetch: self.web_fetch,
        }
    }
}

/// The values that an emptied text field falls back to, and that new settings start with.
#[derive(Debug, Clone)]
pub struct SettingsDefaults {
    pub command: String,
    pub spec_filename: String,
}

/// The mathematical value of [`SettingsDefaults`].
pub struct DefaultsView {
    pub command: Seq<char>,
    pub spec_filename: Seq<char>,
}

impl View for SettingsDefaults {
    type V = DefaultsView;

    open spec fn view(&self) -> DefaultsView {
        DefaultsView { command: self.command@, spec_filename: self.spec_filename@ }
    }
}

/// New settings: the default command, no model, the default spec file name,
/// both web tools off.
pub open spec fn default_settings(d: DefaultsView) -> SettingsView {
    SettingsView {
        claude_command: d.command,
        model: None,
        spec_filename: d.spec_filename,
        web_search: false,
        web_fetch: false,
    }
}

/// The label of field `index`, or nothing past the last field.
pub open spec fn field_label(index: usize) -> Seq<char> {
    if index == 0 {
        "Command"@
    } else if index == 1 {
        "Model"@
    } else if index == 2 {
        "Spec Filename"@
    } else if index == 3 {
        "WebSearch"@
    } else if index == 4 {
        "WebFetch"@
    } else {
        ""@
    }
}

/// The text shown for a boolean field.
pub open spec fn on_off(b: bool) -> Seq<char> {
    if b {
        "on"@
    } else {
        "off"@
    }
}

/// The value shown for field `index`; an unset model shows `(not set)`.
pub open spec fn field_display(s: SettingsView, index: usize) -> Seq<char> {
    if index == 0 {
        s.claude_command
    } else if index == 1 {
        match s.model {
            Some(m) => m,
            None => "(not set)"@,
        }
    } else if index == 2 {
        s.spec_filename
    } else if index == 3 {
        on_off(s.web_search)
    } else if index == 4 {
        on_off(s.web_fetch)
    } else {
        seq![]
    }
}

/// The text of a text field as it is edited; an unset model edits as empty.
pub open spec fn field_edit_text(s: SettingsView, index: usize) -> Seq<char> {
    if index == 0 {
        s.claude_command
    } else if index == 1 {
        match s.model {
            Some(m) => m,
            None => seq![],
        }
    } else if index == 2 {
        s.spec_filename
    } else {
        seq![]
    }
}

/// Setting text field `index` to `value`: an empty command or file name
/// means the default, an empty model means none; other fields do not change.
pub open spec fn field_set(
    s: SettingsView,
    index: usize,
    value: Seq<char>,
    d: DefaultsView,
) -> SettingsView {
    if index == 0 {
        SettingsView {
            claude_command: if value.len() == 0 {
                d.command
            } else {
                value
            },
            ..s
        }
    } else if index == 1 {
        SettingsView {
            model: if value.len() == 0 {
                None
            } else {
                Some(value)
            },
            ..s
        }
    } else if index == 2 {
        SettingsView {
            spec_filename: if value.len() == 0 {
                d.spec_filename
            } else {
                value
            },
            ..s
        }
    } else {
        s
    }
}

/// Flipping boolean field `index`; other fields do not change.
pub open spec fn field_toggle(s: SettingsView, index: usize) -> SettingsView {
    if index == 3 {
        SettingsView { web_search: !s.web_search, ..s }
    } else if index == 4 {
        SettingsView { web_fetch: !s.web_fetch, ..s }
    } else {
        s
    }
}

/// The name of the directory under the configuration base.
pub open spec fn app_dir_name() -> Seq<char> {
    "specwriter"@
}

/// Where the settings live: `$XDG_CONFIG_HOME/specwriter` when that variable
/// is set, else `$HOME/.config/specwriter`, else `.config/specwriter`.
pub open spec fn config_dir(xdg: Option<Seq<char>>, home: Option<Seq<char>>) -> Seq<char> {
    match xdg {
        Some(x) => join_path(x, app_dir_name()),
        None => match home {
            Some(h) => join_path(join_path(h, ".config"@), app_dir_name()),
            None => join_path(".config"@, app_dir_name()),
        },
    }
}

fn opt_chars(o: &Option<String>) -> (r: Option<Vec<char>>)
    ensures
        match (o, r) {
            (Some(s), Some(v)) => v@ == s@,
            (None, None) => true,
            _ => false,
        },
{
    match o {
        Some(s) => Some(chars_of(s.as_str())),
        None => None,
    }
}

/// Where the settings live, given the `XDG_CONFIG_HOME` and `HOME`
/// environment variables (see [`config_dir`]).
pub fn default_config_dir(xdg: Option<String>, home: Option<String>) -> (r: String)
    ensures
        r@ == config_dir(
            match xdg {
                Some(x) => Some(x@),
                None => None,
            },
            match home {
                Some(h) => Some(h@),
                None => None,
            },
        ),
{
    let name = chars_of("specwriter");
    let r = match opt_chars(&xdg) {
        Some(x) => join_path_chars(&x, &name),
        None => match opt_chars(&home) {
            Some(h) => join_path_chars(&join_path_chars(&h, &chars_of(".config")), &name),
            None => join_path_chars(&chars_of(".config"), &name),
        },
    };
    string_from_chars(&r)
}

/// What reading the settings file gave.
#[derive(Debug, Clone)]
pub enum SettingsRead {
    /// There is no settings file.
    Missing,
    /// The file could not be read, for the reason given.
    Unreadable(String),
    /// The file's text is not valid settings, for the reason given.
    Malformed(String),
    /// The settings that the file holds.
    Loaded(Settings),
}

/// The text of an optional string, or `dflt` when there is none.
pub open spec fn or_default(o: Option<String>, dflt: Seq<char>) -> Seq<char> {
    match o {
        Some(v) => v@,
        None => dflt,
    }
}

impl Settings {
    /// Settings from the fields that a settings file holds; each field that
    /// it lacks takes its default.
    pub fn from_fields(
        command: Option<String>,
        model: Option<String>,
        spec_filename: Option<String>,
        web_search: Option<bool>,
        web_fetch: Option<bool>,
        d: &SettingsDefaults,
    ) -> (s: Self)
        ensures
            s@ == (SettingsView {
                claude_command: or_default(command, d.command@),
                model: match model {
                    Some(m) => Some(m@),
                    None => None,
                },
                spec_filename: or_default(spec_filename, d.spec_filename@),
                web_search: match web_search {
                    Some(b) => b,
                    None => false,
                },
                web_fetch: match web_fetch {
                    Some(b) => b,
                    None => false,
                },
            }),
    {
        Settings {
            claude_command: match command {
                Some(c) => c,
                None => d.command.clone(),
            },
            model,
            spec_filename: match spec_filename {
                Some(f) => f,
                None => d.spec_filename.clone(),
            },
            web_search: match web_search {
                Some(b) => b,
                None => false,
            },
            web_fetch: match web_fetch {
                Some(b) => b,
                None => false,
            },
        }
    }

    /// The settings to use after reading the settings file, and the error to
    /// report: a missing file gives the defaults and no error; a file that
    /// cannot be read or holds no valid settings gives the defaults and says why.
    pub fn from_read(read: SettingsRead, d: &SettingsDefaults) -> (r: (Settings, Option<String>))
        ensures
            match read {
                SettingsRead::Missing => r.0@ == default_settings(d@) && r.1 is None,
                SettingsRead::Unreadable(e) => r.0@ == default_settings(d@) && r.1 is Some
                    && r.1.unwrap()@ == "Error reading settings: "@ + e@,
                SettingsRead::Malformed(e) => r.0@ == default_settings(d@) && r.1 is Some
                    && r.1.unwrap()@ == "Error loading settings: "@ + e@,
                SettingsRead::Loaded(s) => r.0@ == s@ && r.1 is None,
            },
    {
        match read {
            SettingsRead::Missing => (Settings::with_defaults(d), None),
            SettingsRead::Unreadable(e) => {
                let mut v = chars_of("Error reading settings: ");
                push_all(&mut v, &chars_of(e.as_str()));
                (Settings::with_defaults(d), Some(string_from_chars(&v)))
            },
            SettingsRead::Malformed(e) => {
                let mut v = chars_of("Error loading settings: ");
                push_all(&mut v, &chars_of(e.as_str()));
                (Settings::with_defaults(d), Some(string_from_chars(&v)))
            },
            SettingsRead::Loaded(s) => (s, None),
        }
    }

    /// New settings from the defaults (see [`default_settings`]).
    pub fn with_defaults(d: &SettingsDefaults) -> (s: Self)
        ensures
            s@ == default_settings(d@),
    {
        Settings {
            claude_command: d.command.clone(),
            model: None,
            spec_filename: d.spec_filename.clone(),
            web_search: false,
            web_fetch: false,
        }
    }

    /// The number of settings fields.
    pub const COUNT: usize = 5;

    /// The label of field `index`.
    pub fn label(index: usize) -> (r: &'static str)
        ensures
            r@ == field_label(index),
    {
        if index == 0 {
            "Command"
        } else if index == 1 {
            "Model"
        } else if index == 2 {
            "Spec Filename"
        } else if index == 3 {
            "WebSearch"
        } else if index == 4 {
            "WebFetch"
        } else {
            ""
        }
    }

    /// The value shown for field `index`.
    pub fn display_value(&self, index: usize) -> (r: String)
        ensures
            r@ == field_display(self@, index),
    {
        if index == 0 {
            self.claude_command.clone()
        } else if index == 1 {
            match &self.model {
                Some(m) => m.clone(),
                None => "(not set)".to_string(),
            }
        } else if index == 2 {
            self.spec_filename.clone()
        } else if index == 3 {
            if self.web_search {
                "on".to_string()
            } else {
                "off".to_string()
            }
        } else if index == 4 {
            if self.web_fetch {
                "on".to_string()
            } else {
                "off".to_string()
            }
        } else {
            String::new()
        }
    }

    /// Whether field `index` is a toggle rather than text.
    pub fn is_boolean(index: usize) -> (r: bool)
        ensures
            r == (index == 3 || index == 4),
    {
        index == 3 || index == 4
    }

    /// The text of field `index` as it is edited.
    pub fn edit_value(&self, index: usize) -> (r: String)
        ensures
            r@ == field_edit_text(self@, index),
    {
        if index == 0 {
            self.claude_command.clone()
        } else if index == 1 {
            match &self.model {
                Some(m) => m.clone(),
                None => String::new(),
            }
        } else if index == 2 {
            self.spec_filename.clone()
        } else {
            String::new()
        }
    }

    /// Sets text field `index` from the editor.
    pub fn set_value(&mut self, index: usize, value: String, defaults: &SettingsDefaults)
        ensures
            final(self)@ == field_set(old(self)@, index, value@, defaults@),
    {
        let empty = value.as_str().is_empty();
        if index == 0 {
            self.claude_command = if empty {
                defaults.command.clone()
            } else {
                value
            };
        } else if index == 1 {
            self.model = if empty {
                None
            } else {
                Some(value)
            };
        } else if index == 2 {
            self.spec_filename = if empty {
                defaults.spec_filename.clone()
            } else {
                value
            };
        }
    }

    /// Flips boolean field `index`.
    pub fn toggle(&mut self, index: usize)
        ensures
            final(self)@ == field_toggle(old(self)@, index),
    {
        if index == 3 {
            self.web_search = !self.web_search;
        } else if index == 4 {
            self.web_fetch = !self.web_fetch;
        }
    }
}

// ---------------------------------------------------------------------------
// Laws of the settings
// ---------------------------------------------------------------------------

/// Toggling a field twice restores it.
pub proof fn lemma_toggle_twice(s: SettingsView, index: usize)
    ensures
        field_toggle(field_toggle(s, index), index) == s,
{
}

/// A non-empty value set on a text field is what the editor then shows and
/// what the list displays.
pub proof fn lemma_set_then_edit(s: SettingsView, index: usize, value: Seq<char>, d: DefaultsView)
    requires
        index < 3,
        value.len() > 0,
    ensures
        field_edit_text(field_set(s, index, value, d), index) == value,
        field_display(field_set(s, index, value, d), index) == value,
{
}

/// Clearing the command or the spec file name gives back the default.
pub proof fn lemma_empty_value_resets(s: SettingsView, d: DefaultsView)
    ensures
        field_set(s, 0, seq![], d).claude_command == d.command,
        field_set(s, 1, seq![], d).model is None,
        field_set(s, 2, seq![], d).spec_filename == d.spec_filename,
{
}

/// Exactly the fields 3 and 4 are toggles, and toggling leaves the text fields alone;
/// setting text leaves the toggles alone.
pub proof fn lemma_fields_independent(
    s: SettingsView,
    index: usize,
    value: Seq<char>,
    d: DefaultsView,
)
    ensures
        field_set(s, index, value, d).web_search == s.web_search,
        field_set(s, index, value, d).web_fetch == s.web_fetch,
        field_toggle(s, index).claude_command == s.claude_command,
        field_toggle(s, index).model == s.model,
        field_toggle(s, index).spec_filename == s.spec_filename,
{
}

} // verus!
