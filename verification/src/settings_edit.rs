//! The inline text settings of the Settings dialog: the default shell, the
//! terminal font family and the proxy URL and exclusions. One of them at a
//! time takes the keyboard; Backspace and printable ASCII keys edit it,
//! Enter ends the edit and saves, Escape closes the dialog. An optional
//! setting that is emptied goes back to unset.

use vstd::prelude::*;

use crate::password_prompt::{is_control, spec_is_control};
use crate::text;

verus! {

/// The text settings the dialog edits.
pub struct TextSettings {
    /// `None`: pick the shell automatically.
    pub default_shell: Option<String>,
    pub font_family: String,
    pub local_proxy_url: Option<String>,
    pub local_proxy_no_proxy: Option<String>,
}

pub struct TextSettingsView {
    pub default_shell: Option<Seq<char>>,
    pub font_family: Seq<char>,
    pub local_proxy_url: Option<Seq<char>>,
    pub local_proxy_no_proxy: Option<Seq<char>>,
}

pub open spec fn opt_text(s: Option<String>) -> Option<Seq<char>> {
    match s {
        Some(x) => Some(x@),
        None => None,
    }
}

impl View for TextSettings {
    type V = TextSettingsView;

    open spec fn view(&self) -> TextSettingsView {
        TextSettingsView {
            default_shell: opt_text(self.default_shell),
            font_family: self.font_family@,
            local_proxy_url: opt_text(self.local_proxy_url),
            local_proxy_no_proxy: opt_text(self.local_proxy_no_proxy),
        }
    }
}

/// Which text setting has the keyboard (at most one is edited by keys:
/// the first set in this order).
#[derive(Clone, Copy, Debug, PartialEq, Eq, Structural)]
pub struct SettingsEditor {
    pub editing_shell: bool,
    pub editing_font: bool,
    pub editing_proxy_url: bool,
    pub editing_no_proxy: bool,
}

/// What a key in the dialog asks of the caller.
#[derive(Clone, Copy, Debug, PartialEq, Eq, Structural)]
pub enum SettingsKey {
    /// Escape: close the dialog.
    Close,
    /// Enter ended an edit: write the settings now.
    Commit,
    /// A setting changed: mark the settings to be written.
    Edited,
    Ignored,
}

/// The character a key types into a setting: a single printable ASCII
/// character.
pub open spec fn typed_char(key: Seq<char>) -> Option<char> {
    if key.len() == 1 && (key[0] as u32) < 0x80 && !spec_is_control(key[0]) {
        Some(key[0])
    } else {
        None
    }
}

/// Backspace on an optional text: the last character goes; an emptied
/// text is unset.
pub open spec fn popped_opt(o: Option<Seq<char>>) -> Option<Seq<char>> {
    match o {
        Some(s) => {
            let t = if s.len() > 0 {
                s.drop_last()
            } else {
                s
            };
            if t.len() == 0 {
                None
            } else {
                Some(t)
            }
        },
        None => None,
    }
}

/// Typing `c` into an optional text (an unset text starts empty).
pub open spec fn pushed_opt(o: Option<Seq<char>>, c: char) -> Option<Seq<char>> {
    match o {
        Some(s) => Some(s.push(c)),
        None => Some(seq![c]),
    }
}

pub open spec fn popped(s: Seq<char>) -> Seq<char> {
    if s.len() > 0 {
        s.drop_last()
    } else {
        s
    }
}

fn pop_string(s: String) -> (t: String)
    ensures
        t@ == popped(s@),
{
    let chars = text::chars_of(s.as_str());
    if chars.len() == 0 {
        return s;
    }
    let mut out = String::new();
    text::push_range(&mut out, chars.as_slice(), 0, chars.len() - 1);
    assert(out@ =~= s@.drop_last());
    out
}

fn pop_opt(o: Option<String>) -> (r: Option<String>)
    ensures
        opt_text(r) == popped_opt(opt_text(o)),
{
    match o {
        Some(s) => {
            let t = pop_string(s);
            if t.as_str().unicode_len() == 0 {
                None
            } else {
                Some(t)
            }
        },
        None => None,
    }
}

fn push_opt(o: Option<String>, c: char) -> (r: Option<String>)
    ensures
        opt_text(r) == pushed_opt(opt_text(o), c),
{
    let mut s = match o {
        Some(s) => s,
        None => String::new(),
    };
    text::push_char(&mut s, c);
    proof {
        if o is None {
            assert(s@ =~= seq![c]);
        }
    }
    Some(s)
}

/// The typed character of `key`, if it types one.
fn key_char(key: &str) -> (c: Option<char>)
    ensures
        c == typed_char(key@),
{
    let k = text::chars_of(key);
    if k.len() == 1 && (k[0] as u32) < 0x80 && !is_control(k[0]) {
        Some(k[0])
    } else {
        None
    }
}

/// The settings and editor after `key`, and what it asks.
pub open spec fn key_result(e: SettingsEditor, s: TextSettingsView, key: Seq<char>) -> (
    SettingsEditor,
    TextSettingsView,
    SettingsKey,
) {
    if key == "escape"@ {
        (e, s, SettingsKey::Close)
    } else if e.editing_shell {
        if key == "enter"@ {
            (SettingsEditor { editing_shell: false, ..e }, s, SettingsKey::Commit)
        } else if key == "backspace"@ {
            (e, TextSettingsView { default_shell: popped_opt(s.default_shell), ..s }, SettingsKey::Edited)
        } else if let Some(c) = typed_char(key) {
            (e, TextSettingsView { default_shell: pushed_opt(s.default_shell, c), ..s }, SettingsKey::Edited)
        } else {
            (e, s, SettingsKey::Ignored)
        }
    } else if e.editing_font {
        if key == "enter"@ {
            (SettingsEditor { editing_font: false, ..e }, s, SettingsKey::Commit)
        } else if key == "backspace"@ {
            (e, TextSettingsView { font_family: popped(s.font_family), ..s }, SettingsKey::Edited)
        } else if let Some(c) = typed_char(key) {
            (e, TextSettingsView { font_family: s.font_family.push(c), ..s }, SettingsKey::Edited)
        } else {
            (e, s, SettingsKey::Ignored)
        }
    } else if e.editing_proxy_url {
        if key == "enter"@ {
            (SettingsEditor { editing_proxy_url: false, ..e }, s, SettingsKey::Commit)
        } else if key == "backspace"@ {
            (e, TextSettingsView { local_proxy_url: popped_opt(s.local_proxy_url), ..s }, SettingsKey::Edited)
        } else if let Some(c) = typed_char(key) {
            (
                e,
                TextSettingsView { local_proxy_url: pushed_opt(s.local_proxy_url, c), ..s },
                SettingsKey::Edited,
            )
        } else {
            (e, s, SettingsKey::Ignored)
        }
    } else if e.editing_no_proxy {
        if key == "enter"@ {
            (SettingsEditor { editing_no_proxy: false, ..e }, s, SettingsKey::Commit)
        } else if key == "backspace"@ {
            (
                e,
                TextSettingsView { local_proxy_no_proxy: popped_opt(s.local_proxy_no_proxy), ..s },
                SettingsKey::Edited,
            )
        } else if let Some(c) = typed_char(key) {
            (
                e,
                TextSettingsView { local_proxy_no_proxy: pushed_opt(s.local_proxy_no_proxy, c), ..s },
                SettingsKey::Edited,
            )
        } else {
            (e, s, SettingsKey::Ignored)
        }
    } else {
        (e, s, SettingsKey::Ignored)
    }
}

impl SettingsEditor {
    pub fn new() -> (e: Self)
        ensures
            e == (SettingsEditor {
                editing_shell: false,
                editing_font: false,
                editing_proxy_url: false,
                editing_no_proxy: false,
            }),
    {
        SettingsEditor { editing_shell: false, editing_font: false, editing_proxy_url: false, editing_no_proxy: false }
    }

    /// A click on the custom shell field.
    pub fn begin_shell(&mut self)
        ensures
            *final(self) == (SettingsEditor { editing_shell: true, editing_font: false, ..*old(self) }),
    {
        self.editing_shell = true;
        self.editing_font = false;
    }

    /// A click on the font family field.
    pub fn begin_font(&mut self)
        ensures
            *final(self) == (SettingsEditor { editing_font: true, editing_shell: false, ..*old(self) }),
    {
        self.editing_font = true;
        self.editing_shell = false;
    }

    /// A click on the proxy URL field.
    pub fn begin_proxy_url(&mut self)
        ensures
            *final(self) == (SettingsEditor {
                editing_proxy_url: true,
                editing_no_proxy: false,
                editing_shell: false,
                editing_font: false,
            }),
    {
        self.editing_proxy_url = true;
        self.editing_no_proxy = false;
        self.editing_shell = false;
        self.editing_font = false;
    }

    /// A click on the proxy exclusions field.
    pub fn begin_no_proxy(&mut self)
        ensures
            *final(self) == (SettingsEditor {
                editing_no_proxy: true,
                editing_proxy_url: false,
                editing_shell: false,
                editing_font: false,
            }),
    {
        self.editing_no_proxy = true;
        self.editing_proxy_url = false;
        self.editing_shell = false;
        self.editing_font = false;
    }

    /// A shell preset was chosen: `auto` unsets the default shell; the
    /// custom field stops editing. The caller writes the settings.
    pub fn choose_shell_preset(&mut self, settings: &mut TextSettings, preset: &str)
        ensures
            *final(self) == (SettingsEditor { editing_shell: false, ..*old(self) }),
            final(settings)@ == (TextSettingsView {
                default_shell: if preset@ == "auto"@ {
                    None
                } else {
                    Some(preset@)
                },
                ..old(settings)@
            }),
    {
        let p = text::chars_of(preset);
        settings.default_shell = if text::eq_str(p.as_slice(), "auto") {
            None
        } else {
            Some(text::owned(preset))
        };
        self.editing_shell = false;
    }

    /// A proxy mode was chosen: the URL field stops editing. The caller
    /// stores the mode and writes the settings.
    pub fn proxy_mode_chosen(&mut self)
        ensures
            *final(self) == (SettingsEditor { editing_proxy_url: false, ..*old(self) }),
    {
        self.editing_proxy_url = false;
    }

    /// A key in the dialog.
    pub fn key(&mut self, settings: &mut TextSettings, key: &str) -> (r: SettingsKey)
        ensures
            (*final(self), final(settings)@, r) == key_result(*old(self), old(settings)@, key@),
    {
        let k = text::chars_of(key);
        let ks = k.as_slice();
        if text::eq_str(ks, "escape") {
            return SettingsKey::Close;
        }
        let enter = text::eq_str(ks, "enter");
        let backspace = text::eq_str(ks, "backspace");
        let typed = key_char(key);
        if self.editing_shell {
            if enter {
                self.editing_shell = false;
                return SettingsKey::Commit;
            }
            if backspace {
                settings.default_shell = pop_opt(settings.default_shell.take());
                return SettingsKey::Edited;
            }
            match typed {
                Some(c) => {
                    settings.default_shell = push_opt(settings.default_shell.take(), c);
                    SettingsKey::Edited
                },
                None => SettingsKey::Ignored,
            }
        } else if self.editing_font {
            if enter {
                self.editing_font = false;
                return SettingsKey::Commit;
            }
            if backspace {
                let mut f = String::new();
                std::mem::swap(&mut f, &mut settings.font_family);
                settings.font_family = pop_string(f);
                return SettingsKey::Edited;
            }
            match typed {
                Some(c) => {
                    text::push_char(&mut settings.font_family, c);
                    SettingsKey::Edited
                },
                None => SettingsKey::Ignored,
            }
        } else if self.editing_proxy_url {
            if enter {
                self.editing_proxy_url = false;
                return SettingsKey::Commit;
            }
            if backspace {
                settings.local_proxy_url = pop_opt(settings.local_proxy_url.take());
                return SettingsKey::Edited;
            }
            match typed {
                Some(c) => {
                    settings.local_proxy_url = push_opt(settings.local_proxy_url.take(), c);
                    SettingsKey::Edited
                },
                None => SettingsKey::Ignored,
            }
        } else if self.editing_no_proxy {
            if enter {
                self.editing_no_proxy = false;
                return SettingsKey::Commit;
            }
            if backspace {
                settings.local_proxy_no_proxy = pop_opt(settings.local_proxy_no_proxy.take());
                return SettingsKey::Edited;
            }
            match typed {
                Some(c) => {
                    settings.local_proxy_no_proxy = push_opt(settings.local_proxy_no_proxy.take(), c);
                    SettingsKey::Edited
                },
                None => SettingsKey::Ignored,
            }
        } else {
            SettingsKey::Ignored
        }
    }
}

/// Typing a character and then Backspace leaves a text setting as it was
/// (an unset optional setting comes back unset).
pub proof fn law_type_then_backspace(o: Option<Seq<char>>, c: char)
    requires
        o matches Some(s) ==> s.len() > 0,
    ensures
        popped_opt(pushed_opt(o, c)) == o,
        popped(o.unwrap_or(Seq::empty()).push(c)) == o.unwrap_or(Seq::empty()),
{
    match o {
        Some(s) => {
            assert(s.push(c).drop_last() =~= s);
        },
        None => {
            assert(seq![c].drop_last() =~= Seq::<char>::empty());
            assert(Seq::<char>::empty().push(c).drop_last() =~= Seq::<char>::empty());
        },
    }
}

} // verus!
