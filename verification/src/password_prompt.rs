//! The password prompt shown before connecting an SSH profile whose
//! password is not remembered: what keys do to the hidden text, how it is
//! shown, and what Connect asks of the caller (which talks to the keyring).

use vstd::prelude::*;

use crate::text;

verus! {

pub struct PasswordPrompt {
    pub profile_id: u128,
    pub title: String,
    pub password: String,
    /// Store the password in the keyring on Connect.
    pub remember: bool,
    pub error: Option<String>,
}

/// Unicode control characters (general category Cc, what
/// `char::is_control` tests).
pub open spec fn spec_is_control(c: char) -> bool {
    let u = c as u32;
    u <= 0x1f || (0x7f <= u && u <= 0x9f)
}

pub fn is_control(c: char) -> (b: bool)
    ensures
        b == spec_is_control(c),
{
    let u = c as u32;
    u <= 0x1f || (0x7f <= u && u <= 0x9f)
}

/// What a key press asks of the prompt.
#[derive(Debug)]
pub enum PromptKey {
    Cancel,
    Submit,
    /// The key was used (or had nothing for the prompt to use).
    Consumed(bool),
}

/// `s` without its control characters.
pub open spec fn printable(s: Seq<char>) -> Seq<char> {
    s.filter(|c: char| !spec_is_control(c))
}

/// What Connect asks of the caller.
#[derive(Debug)]
pub struct PasswordSubmit {
    pub profile_id: u128,
    pub password: String,
    /// Store the password in the keyring first; if that fails, call
    /// `store_failed` and do not connect.
    pub store: bool,
}

impl PasswordPrompt {
    pub fn new(profile_id: u128, title: String) -> (p: Self)
        ensures
            p.profile_id == profile_id,
            p.title@ == title@,
            p.password@ == Seq::<char>::empty(),
            p.remember,
            p.error is None,
    {
        PasswordPrompt { profile_id, title, password: String::new(), remember: true, error: None }
    }

    /// A key: Escape cancels, Enter submits, Backspace removes the last
    /// character; typed text (without Ctrl, Alt or the platform key)
    /// appends its printable characters.
    pub fn key(&mut self, key: &str, modified: bool, typed: Option<&str>) -> (r: PromptKey)
        ensures
            key@ == "escape"@ ==> r is Cancel && *final(self) == *old(self),
            key@ == "enter"@ ==> r is Submit && *final(self) == *old(self),
            key@ == "backspace"@ ==> (r matches PromptKey::Consumed(true) && final(self).password@ == (
            if old(self).password@.len() > 0 {
                old(self).password@.drop_last()
            } else {
                old(self).password@
            })),
            key@ != "escape"@ && key@ != "enter"@ && key@ != "backspace"@ ==> {
                let added = match typed {
                    Some(t) => if modified {
                        Seq::<char>::empty()
                    } else {
                        printable(t@)
                    },
                    None => Seq::empty(),
                };
                &&& final(self).password@ == old(self).password@ + added
                &&& r == PromptKey::Consumed(added.len() > 0)
            },
            final(self).profile_id == old(self).profile_id,
            final(self).title == old(self).title,
            final(self).remember == old(self).remember,
            final(self).error == old(self).error,
    {
        proof {
            reveal_strlit("escape");
            reveal_strlit("enter");
            reveal_strlit("backspace");
            assert("escape"@.len() == 6 && "enter"@.len() == 5 && "backspace"@.len() == 9);
            assert("escape"@ != "enter"@ && "escape"@ != "backspace"@ && "enter"@ != "backspace"@);
        }
        let k = text::chars_of(key);
        if text::eq_str(k.as_slice(), "escape") {
            return PromptKey::Cancel;
        }
        if text::eq_str(k.as_slice(), "enter") {
            return PromptKey::Submit;
        }
        if text::eq_str(k.as_slice(), "backspace") {
            let chars = text::chars_of(self.password.as_str());
            if chars.len() > 0 {
                let mut out = String::new();
                text::push_range(&mut out, chars.as_slice(), 0, chars.len() - 1);
                assert(out@ =~= self.password@.drop_last());
                self.password = out;
            }
            return PromptKey::Consumed(true);
        }
        if modified {
            proof {
                assert(self.password@ + Seq::<char>::empty() =~= self.password@);
            }
            return PromptKey::Consumed(false);
        }
        match typed {
            None => {
                proof {
                    assert(self.password@ + Seq::<char>::empty() =~= self.password@);
                }
                PromptKey::Consumed(false)
            },
            Some(t) => {
                let chars = text::chars_of(t);
                let mut any = false;
                let mut i: usize = 0;
                while i < chars.len()
                    invariant
                        chars@ == t@,
                        0 <= i <= chars@.len(),
                        self.password@ == old(self).password@ + printable(chars@.subrange(0, i as int)),
                        any == (printable(chars@.subrange(0, i as int)).len() > 0),
                        self.profile_id == old(self).profile_id,
                        self.title == old(self).title,
                        self.remember == old(self).remember,
                        self.error == old(self).error,
                    decreases chars@.len() - i,
                {
                    let c = chars[i];
                    proof {
                        let p = chars@.subrange(0, i as int);
                        assert(chars@.subrange(0, i + 1) =~= p.push(c));
                        p.lemma_filter_push(c, |c: char| !spec_is_control(c));
                    }
                    if !is_control(c) {
                        text::push_char(&mut self.password, c);
                        any = true;
                        assert(self.password@ =~= old(self).password@ + printable(chars@.subrange(0, i + 1)));
                    }
                    i += 1;
                }
                assert(chars@.subrange(0, chars@.len() as int) =~= chars@);
                PromptKey::Consumed(any)
            },
        }
    }

    /// The "Remember password" switch.
    pub fn toggle_remember(&mut self)
        ensures
            final(self).remember == !old(self).remember,
            final(self).password == old(self).password,
            final(self).error == old(self).error,
            final(self).profile_id == old(self).profile_id,
    {
        self.remember = !self.remember;
    }

    /// How the hidden text is shown: one bullet per character, at most 32.
    pub fn masked(&self) -> (m: String)
        ensures
            m@.len() == if self.password@.len() < 32 {
                self.password@.len()
            } else {
                32
            },
            forall|i: int| 0 <= i < m@.len() ==> m@[i] == '•',
    {
        let n = self.password.as_str().unicode_len();
        let count = if n < 32 {
            n
        } else {
            32
        };
        let mut m = String::new();
        let mut i: usize = 0;
        while i < count
            invariant
                0 <= i <= count,
                m@.len() == i,
                forall|k: int| 0 <= k < m@.len() ==> m@[k] == '•',
            decreases count - i,
        {
            text::push_char(&mut m, '•');
            i += 1;
        }
        m
    }

    /// Connect: refused without a password; otherwise what to do.
    pub fn submit(&mut self) -> (r: Option<PasswordSubmit>)
        ensures
            old(self).password@.len() == 0 ==> r is None && (final(self).error matches Some(e) && e@
                == "Password required"@),
            old(self).password@.len() > 0 ==> *final(self) == *old(self) && (r matches Some(s)
                && s.profile_id == old(self).profile_id && s.password@ == old(self).password@ && s.store
                == old(self).remember),
            final(self).password == old(self).password,
            final(self).remember == old(self).remember,
            final(self).profile_id == old(self).profile_id,
    {
        if self.password.as_str().unicode_len() == 0 {
            self.error = Some(text::owned("Password required"));
            return None;
        }
        Some(PasswordSubmit { profile_id: self.profile_id, password: self.password.clone(), store: self.remember })
    }

    /// Storing the password in the keyring failed with `err`.
    pub fn store_failed(&mut self, err: &str)
        ensures
            final(self).error matches Some(e) && e@ == "Could not store password: "@ + err@,
            final(self).password == old(self).password,
            final(self).remember == old(self).remember,
            final(self).profile_id == old(self).profile_id,
    {
        let mut m = text::owned("Could not store password: ");
        m.append(err);
        self.error = Some(m);
    }
}

} // verus!
