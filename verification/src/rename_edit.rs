//! Single-line text editor state (select-all on start, blinking caret):
//! cursor and selection anchor count Unicode scalar values.

use vstd::prelude::*;
use vstd::string::*;

use crate::text;

verus! {

/// Abstract state of an editor: its text and positions.
pub struct EditView {
    pub text: Seq<char>,
    pub cursor: nat,
    pub anchor: nat,
    pub caret_visible: bool,
}

/// A fresh editor over `text`: all of it selected, caret at the end.
pub open spec fn new_view(text: Seq<char>) -> EditView {
    EditView { text, cursor: text.len(), anchor: 0, caret_visible: true }
}

/// `i`, or `n` when `i` is past the end.
pub open spec fn clip(i: int, n: int) -> int {
    if i < n {
        i
    } else {
        n
    }
}

/// `t` without the characters at positions `lo..hi` (positions past the end
/// count as the end).
pub open spec fn cut(t: Seq<char>, lo: int, hi: int) -> Seq<char> {
    t.subrange(0, clip(lo, t.len() as int)) + t.subrange(clip(hi, t.len() as int), t.len() as int)
}

/// `t` with `s` inserted at position `at` (clipped to the end).
pub open spec fn splice_in(t: Seq<char>, at: int, s: Seq<char>) -> Seq<char> {
    t.subrange(0, clip(at, t.len() as int)) + s + t.subrange(clip(at, t.len() as int), t.len() as int)
}

impl EditView {
    pub open spec fn lo(self) -> nat {
        if self.anchor <= self.cursor {
            self.anchor
        } else {
            self.cursor
        }
    }

    pub open spec fn hi(self) -> nat {
        if self.anchor <= self.cursor {
            self.cursor
        } else {
            self.anchor
        }
    }

    pub open spec fn has_selection(self) -> bool {
        self.anchor != self.cursor
    }

    /// State after removing the selection (unchanged when it is empty).
    pub open spec fn delete_selection(self) -> EditView {
        if self.has_selection() {
            EditView {
                text: cut(self.text, self.lo() as int, self.hi() as int),
                cursor: self.lo(),
                anchor: self.lo(),
                caret_visible: true,
            }
        } else {
            self
        }
    }

    /// Typing `s`: replaces the selection, caret after the inserted text.
    pub open spec fn insert(self, s: Seq<char>) -> EditView {
        let d = self.delete_selection();
        EditView {
            text: splice_in(d.text, d.cursor as int, s),
            cursor: d.cursor + s.len(),
            anchor: d.cursor + s.len(),
            caret_visible: true,
        }
    }

    /// Backspace: removes the selection, else the character before the caret.
    pub open spec fn backspace(self) -> EditView {
        if self.has_selection() {
            self.delete_selection()
        } else if self.cursor == 0 {
            self
        } else {
            EditView {
                text: cut(self.text, self.cursor - 1, self.cursor as int),
                cursor: (self.cursor - 1) as nat,
                anchor: (self.cursor - 1) as nat,
                caret_visible: true,
            }
        }
    }

    /// Delete: removes the selection, else the character after the caret.
    pub open spec fn delete_forward(self) -> EditView {
        if self.has_selection() {
            self.delete_selection()
        } else if self.cursor >= self.text.len() {
            self
        } else {
            EditView {
                text: cut(self.text, self.cursor as int, self.cursor + 1 as int),
                anchor: self.cursor,
                caret_visible: true,
                ..self
            }
        }
    }

    pub open spec fn move_left(self, extend: bool) -> EditView {
        if !extend && self.has_selection() {
            EditView { cursor: self.lo(), anchor: self.lo(), caret_visible: true, ..self }
        } else {
            let c: nat = if self.cursor > 0 {
                (self.cursor - 1) as nat
            } else {
                0
            };
            EditView {
                cursor: c,
                anchor: if extend {
                    self.anchor
                } else {
                    c
                },
                caret_visible: true,
                ..self
            }
        }
    }

    pub open spec fn move_right(self, extend: bool) -> EditView {
        if !extend && self.has_selection() {
            EditView { cursor: self.hi(), anchor: self.hi(), caret_visible: true, ..self }
        } else {
            let c: nat = if self.cursor < self.text.len() {
                self.cursor + 1
            } else {
                self.cursor
            };
            EditView {
                cursor: c,
                anchor: if extend {
                    self.anchor
                } else {
                    c
                },
                caret_visible: true,
                ..self
            }
        }
    }

    pub open spec fn move_home(self, extend: bool) -> EditView {
        EditView {
            cursor: 0,
            anchor: if extend {
                self.anchor
            } else {
                0
            },
            caret_visible: true,
            ..self
        }
    }

    pub open spec fn move_end(self, extend: bool) -> EditView {
        EditView {
            cursor: self.text.len(),
            anchor: if extend {
                self.anchor
            } else {
                self.text.len()
            },
            caret_visible: true,
            ..self
        }
    }

    pub open spec fn select_all(self) -> EditView {
        EditView { cursor: self.text.len(), anchor: 0, caret_visible: true, ..self }
    }

    /// The selected characters.
    pub open spec fn selected(self) -> Seq<char> {
        self.text.subrange(
            clip(self.lo() as int, self.text.len() as int),
            clip(self.hi() as int, self.text.len() as int),
        )
    }

    /// Cursor and anchor lie within the text.
    pub open spec fn in_bounds(self) -> bool {
        self.cursor <= self.text.len() && self.anchor <= self.text.len()
    }
}


/// Every editing step keeps the caret and the selection anchor inside the
/// text.
pub proof fn law_edits_stay_in_bounds(e: EditView, s: Seq<char>, extend: bool)
    requires
        e.in_bounds(),
    ensures
        e.delete_selection().in_bounds(),
        e.insert(s).in_bounds(),
        e.backspace().in_bounds(),
        e.delete_forward().in_bounds(),
        e.move_left(extend).in_bounds(),
        e.move_right(extend).in_bounds(),
        e.move_home(extend).in_bounds(),
        e.move_end(extend).in_bounds(),
        e.select_all().in_bounds(),
{
}

/// Right arrow: the text stays; the caret never moves left. Without Shift
/// a selection collapses to its right end (the larger of caret and
/// anchor); otherwise the caret steps one character right (staying at the
/// end of the text), and Shift keeps the anchor where it was.
pub proof fn law_move_right(e: EditView, extend: bool)
    requires
        e.in_bounds(),
    ensures
        e.move_right(extend).text == e.text,
        e.move_right(extend).cursor >= e.cursor,
        !extend ==> e.move_right(extend).anchor == e.move_right(extend).cursor,
        extend ==> e.move_right(extend).anchor == e.anchor,
        !extend && e.cursor != e.anchor ==> e.move_right(extend).cursor == if e.cursor >= e.anchor {
            e.cursor
        } else {
            e.anchor
        },
        extend || e.cursor == e.anchor ==> e.move_right(extend).cursor == if e.cursor < e.text.len() {
            e.cursor + 1
        } else {
            e.cursor
        },
{
}

/// Left arrow: the text stays; the caret never moves right. Without Shift
/// a selection collapses to its left end (the smaller of caret and
/// anchor); otherwise the caret steps one character left (staying at the
/// start), and Shift keeps the anchor where it was.
pub proof fn law_move_left(e: EditView, extend: bool)
    ensures
        e.move_left(extend).text == e.text,
        e.move_left(extend).cursor <= e.cursor,
        !extend ==> e.move_left(extend).anchor == e.move_left(extend).cursor,
        extend ==> e.move_left(extend).anchor == e.anchor,
        !extend && e.cursor != e.anchor ==> e.move_left(extend).cursor == if e.cursor <= e.anchor {
            e.cursor
        } else {
            e.anchor
        },
        extend || e.cursor == e.anchor ==> e.move_left(extend).cursor == if e.cursor > 0 {
            e.cursor - 1
        } else {
            0int
        },
{
}

/// Backspace and Delete without a selection remove exactly one character:
/// the one before the caret (which steps back) or the one after it (the
/// caret stays); at the start, or at the end, nothing changes. With a
/// selection both remove exactly the selected characters and leave the
/// caret where the selection began.
pub proof fn law_deletions(e: EditView)
    requires
        e.in_bounds(),
    ensures
        e.cursor == e.anchor && e.cursor > 0 ==> e.backspace().text == e.text.remove(e.cursor - 1)
            && e.backspace().cursor == e.cursor - 1,
        e.cursor == e.anchor && e.cursor == 0 ==> e.backspace().text == e.text,
        e.cursor == e.anchor && e.cursor < e.text.len() ==> e.delete_forward().text == e.text.remove(
            e.cursor as int,
        ) && e.delete_forward().cursor == e.cursor,
        e.cursor == e.anchor && e.cursor == e.text.len() ==> e.delete_forward().text == e.text,
        e.cursor != e.anchor ==> {
            let lo = if e.cursor < e.anchor {
                e.cursor
            } else {
                e.anchor
            };
            let hi = if e.cursor < e.anchor {
                e.anchor
            } else {
                e.cursor
            };
            &&& e.backspace().text == e.text.subrange(0, lo as int) + e.text.subrange(hi as int, e.text.len() as int)
            &&& e.delete_forward().text == e.backspace().text
            &&& e.backspace().cursor == lo && e.backspace().anchor == lo
            &&& e.delete_forward().cursor == lo
        },
{
    if e.cursor == e.anchor && e.cursor > 0 {
        assert(e.backspace().text =~= e.text.remove(e.cursor - 1));
    }
    if e.cursor == e.anchor && e.cursor < e.text.len() {
        assert(e.delete_forward().text =~= e.text.remove(e.cursor as int));
    }
}

/// Home and End put the caret at the start or the end of the text (Shift
/// keeps the anchor, else it follows); Select All selects the whole text.
pub proof fn law_home_end_select_all(e: EditView, extend: bool)
    ensures
        e.move_home(extend).cursor == 0 && e.move_home(extend).text == e.text,
        e.move_end(extend).cursor == e.text.len() && e.move_end(extend).text == e.text,
        e.move_home(extend).anchor == if extend {
            e.anchor
        } else {
            0
        },
        e.move_end(extend).anchor == if extend {
            e.anchor
        } else {
            e.text.len()
        },
        e.select_all().selected() == e.text,
        e.select_all().text == e.text,
{
    assert(e.select_all().selected() =~= e.text);
}

/// Select all, then type: the typed text replaces everything, caret at
/// its end.
pub proof fn law_select_all_then_type_replaces(e: EditView, s: Seq<char>)
    ensures
        e.select_all().insert(s).text == s,
        e.select_all().insert(s).cursor == s.len(),
{
    let a = e.select_all();
    if a.has_selection() {
        assert(cut(a.text, 0, a.text.len() as int) =~= Seq::<char>::empty());
    } else {
        assert(a.text.len() == 0);
    }
    let d = a.delete_selection();
    assert(d.text.len() == 0);
    assert(splice_in(d.text, d.cursor as int, s) =~= s);
}

/// Typing one character and pressing Backspace gives back the text.
pub proof fn law_type_then_backspace(e: EditView, c: char)
    requires
        e.in_bounds(),
        !e.has_selection(),
    ensures
        e.insert(seq![c]).backspace().text == e.text,
        e.insert(seq![c]).backspace().cursor == e.cursor,
{
    let t = e.text;
    let k = e.cursor as int;
    let i = e.insert(seq![c]);
    assert(i.text =~= t.subrange(0, k) + seq![c] + t.subrange(k, t.len() as int));
    assert(cut(i.text, k, k + 1) =~= t);
}

/// Cutting the selection and pasting it back at once restores the text
/// (for a selection without line breaks).
pub proof fn law_cut_then_paste_restores(e: EditView)
    requires
        e.in_bounds(),
        e.has_selection(),
        strip_newlines(e.selected()) == e.selected(),
    ensures
        e.delete_selection().insert(e.selected()).text == e.text,
{
    let t = e.text;
    let lo = e.lo() as int;
    let hi = e.hi() as int;
    let d = e.delete_selection();
    assert(d.text =~= t.subrange(0, lo) + t.subrange(hi, t.len() as int));
    assert(d.cursor == lo);
    assert(!d.has_selection());
    assert(splice_in(d.text, lo, e.selected()) =~= t);
}

/// Ctrl+X on a selection without line breaks, then Ctrl+V of what it put on
/// the clipboard, gives back the text.
pub proof fn law_ctrl_x_then_ctrl_v_restores(e: EditView)
    requires
        e.in_bounds(),
        e.has_selection(),
        strip_newlines(e.selected()) == e.selected(),
    ensures
        ({
            let (e2, cut_handled, copy) = key_effect(e, "x"@, true, false, None, None);
            let (e3, paste_handled, _) = key_effect(e2, "v"@, true, false, copy, None);
            &&& cut_handled && paste_handled
            &&& e3.text == e.text
        }),
{
    reveal_strlit("x");
    reveal_strlit("v");
    reveal_strlit("a");
    reveal_strlit("c");
    let lx = "x"@.map_values(|c: char| text::spec_ascii_lower(c));
    let lv = "v"@.map_values(|c: char| text::spec_ascii_lower(c));
    let la = "a"@.map_values(|c: char| text::spec_ascii_lower(c));
    let lc = "c"@.map_values(|c: char| text::spec_ascii_lower(c));
    assert(lx[0] == 'x' && la[0] == 'a' && lc[0] == 'c' && lv[0] == 'v');
    assert(!eq_ignore_ascii_case("x"@, "a"@));
    assert(!eq_ignore_ascii_case("x"@, "c"@));
    assert(eq_ignore_ascii_case("x"@, "x"@));
    assert(!eq_ignore_ascii_case("v"@, "a"@));
    assert(!eq_ignore_ascii_case("v"@, "c"@));
    assert(!eq_ignore_ascii_case("v"@, "x"@));
    assert(eq_ignore_ascii_case("v"@, "v"@));
    let sel = e.selected();
    let lo = e.lo() as int;
    let hi = e.hi() as int;
    assert(sel.len() > 0) by {
        assert(sel.len() == hi - lo);
    }
    let (e2, _, copy) = key_effect(e, "x"@, true, false, None, None);
    assert(e2 == e.delete_selection());
    assert(copy == Some(sel));
    law_cut_then_paste_restores(e);
}

/// `a` equals `b` ignoring ASCII case (`str::eq_ignore_ascii_case`).
pub open spec fn eq_ignore_ascii_case(a: Seq<char>, b: Seq<char>) -> bool {
    a.map_values(|c: char| text::spec_ascii_lower(c)) == b.map_values(
        |c: char| text::spec_ascii_lower(c),
    )
}

/// `s` without carriage returns and line feeds.
pub open spec fn strip_newlines(s: Seq<char>) -> Seq<char> {
    s.filter(|c: char| c != '\r' && c != '\n')
}

/// What a key does to an editor: the new state, whether the key was
/// handled, and the text to put on the clipboard, if any.
///
/// Ctrl/Cmd (`chord`) + A selects all; + C copies the selection (or all of
/// the text); + X copies and then deletes the selection (or clears the
/// text); + V, or Shift+Insert, pastes the clipboard without line breaks;
/// Backspace, Delete, arrows, Home and End edit and move (Shift extends the
/// selection); other typed text is inserted unless a chord is held.
pub open spec fn key_effect(
    e: EditView,
    key: Seq<char>,
    chord: bool,
    shift: bool,
    clipboard: Option<Seq<char>>,
    typed: Option<Seq<char>>,
) -> (EditView, bool, Option<Seq<char>>) {
    let copy_text = if e.has_selection() {
        e.selected()
    } else {
        e.text
    };
    let copy = if copy_text.len() > 0 {
        Some(copy_text)
    } else {
        None
    };
    if chord && eq_ignore_ascii_case(key, "a"@) {
        (e.select_all(), true, None)
    } else if chord && eq_ignore_ascii_case(key, "c"@) {
        (e, true, copy)
    } else if chord && eq_ignore_ascii_case(key, "x"@) {
        (
            if e.has_selection() {
                e.delete_selection()
            } else {
                EditView { text: Seq::empty(), cursor: 0, anchor: 0, ..e }
            },
            true,
            copy,
        )
    } else if (chord && eq_ignore_ascii_case(key, "v"@)) || (shift && eq_ignore_ascii_case(
        key,
        "insert"@,
    )) {
        match clipboard {
            Some(t) => if strip_newlines(t).len() > 0 {
                (e.insert(strip_newlines(t)), true, None)
            } else {
                (e, true, None)
            },
            None => (e, true, None),
        }
    } else if key == "backspace"@ {
        (e.backspace(), true, None)
    } else if key == "delete"@ {
        (e.delete_forward(), true, None)
    } else if key == "left"@ {
        (e.move_left(shift), true, None)
    } else if key == "right"@ {
        (e.move_right(shift), true, None)
    } else if key == "home"@ {
        (e.move_home(shift), true, None)
    } else if key == "end"@ {
        (e.move_end(shift), true, None)
    } else if typed is Some && !chord {
        (e.insert(typed->0), true, None)
    } else {
        (e, false, None)
    }
}

/// Outcome of a key for an editor: whether it was handled and what to copy.
pub struct KeyOutcome {
    pub handled: bool,
    pub copy: Option<String>,
}

/// The characters `chars[a..b]` as a string.
fn range_string(chars: &[char], a: usize, b: usize) -> (s: String)
    requires
        a <= b <= chars@.len(),
    ensures
        s@ == chars@.subrange(a as int, b as int),
{
    let mut s = String::new();
    text::push_range(&mut s, chars, a, b);
    assert(s@ =~= chars@.subrange(a as int, b as int));
    s
}

/// Whether `a` equals the lowercase literal `lit` ignoring ASCII case.
pub fn eq_ci_str(a: &[char], lit: &str) -> (eq: bool)
    ensures
        eq == eq_ignore_ascii_case(a@, lit@),
{
    let la = text::ascii_lower_chars(a);
    let l = text::chars_of(lit);
    let ll = text::ascii_lower_chars(l.as_slice());
    text::chars_eq(la.as_slice(), ll.as_slice())
}

/// `s` without `'\r'` and `'\n'`.
pub fn strip_newlines_string(s: &str) -> (t: String)
    ensures
        t@ == strip_newlines(s@),
{
    let chars = text::chars_of(s);
    let mut out: Vec<char> = Vec::new();
    let mut i: usize = 0;
    while i < chars.len()
        invariant
            chars@ == s@,
            0 <= i <= chars@.len(),
            out@ == strip_newlines(chars@.subrange(0, i as int)),
        decreases chars@.len() - i,
    {
        let c = chars[i];
        proof {
            let p = chars@.subrange(0, i as int);
            assert(chars@.subrange(0, i + 1) =~= p.push(c));
            p.lemma_filter_push(c, |c: char| c != '\r' && c != '\n');
        }
        if c != '\r' && c != '\n' {
            out.push(c);
        }
        i += 1;
    }
    assert(chars@.subrange(0, chars@.len() as int) =~= chars@);
    text::string_of(out.as_slice())
}

/// Input-method text `typed` replacing the UTF-16 range `range` of `e`
/// (its selection when `None`): the range becomes the selection, then the
/// text without line breaks is typed over it, or the selection is deleted
/// when nothing is left of the text. Without a range and without text,
/// nothing changes.
pub open spec fn replaced_utf16(e: EditView, range: Option<(usize, usize)>, typed: Seq<char>) -> EditView {
    let cleaned = strip_newlines(typed);
    match range {
        None => if cleaned.len() > 0 {
            e.insert(cleaned)
        } else {
            e
        },
        Some((a, b)) => {
            let moved = EditView {
                anchor: text::char_index_of(e.text, a as int) as nat,
                cursor: text::char_index_of(e.text, b as int) as nat,
                ..e
            };
            if cleaned.len() > 0 {
                moved.insert(cleaned)
            } else {
                EditView { caret_visible: true, ..moved.delete_selection() }
            }
        },
    }
}

/// A piece of an editor as it is drawn.
#[derive(Debug)]
pub enum EditPiece {
    Text(String),
    /// Selected text (drawn highlighted).
    Selected(String),
    /// The caret.
    Caret,
}

pub enum PieceView {
    Text(Seq<char>),
    Selected(Seq<char>),
    Caret,
}

pub open spec fn piece_views(p: Seq<EditPiece>) -> Seq<PieceView> {
    p.map_values(
        |x: EditPiece|
            match x {
                EditPiece::Text(s) => PieceView::Text(s@),
                EditPiece::Selected(s) => PieceView::Selected(s@),
                EditPiece::Caret => PieceView::Caret,
            },
    )
}

/// How an editor is drawn: its text, the selection highlighted, and the
/// caret at the cursor (both clipped to the text).
pub open spec fn pieces_of(e: EditView) -> Seq<PieceView> {
    let t = e.text;
    let n = t.len() as int;
    let c = clip(e.cursor as int, n);
    let l = clip(e.lo() as int, n);
    let h = clip(e.hi() as int, n);
    if e.lo() == e.hi() {
        seq![PieceView::Text(t.subrange(0, c)), PieceView::Caret, PieceView::Text(t.subrange(c, n))]
    } else if c <= e.lo() {
        seq![
            PieceView::Text(t.subrange(0, c)),
            PieceView::Caret,
            PieceView::Text(t.subrange(c, l)),
            PieceView::Selected(t.subrange(l, h)),
            PieceView::Text(t.subrange(h, n)),
        ]
    } else if c >= e.hi() {
        seq![
            PieceView::Text(t.subrange(0, l)),
            PieceView::Selected(t.subrange(l, h)),
            PieceView::Text(t.subrange(h, c)),
            PieceView::Caret,
            PieceView::Text(t.subrange(c, n)),
        ]
    } else {
        seq![
            PieceView::Text(t.subrange(0, l)),
            PieceView::Selected(t.subrange(l, c)),
            PieceView::Caret,
            PieceView::Selected(t.subrange(c, h)),
            PieceView::Text(t.subrange(h, n)),
        ]
    }
}

/// The characters the pieces spell.
pub open spec fn spelled(p: Seq<PieceView>) -> Seq<char>
    decreases p.len(),
{
    if p.len() == 0 {
        Seq::empty()
    } else {
        let rest = spelled(p.drop_first());
        match p[0] {
            PieceView::Text(s) => s + rest,
            PieceView::Selected(s) => s + rest,
            PieceView::Caret => rest,
        }
    }
}

/// Drawing an editor shows exactly its text, with the caret after the
/// characters before the cursor.
pub proof fn law_pieces_spell_text(e: EditView)
    ensures
        spelled(pieces_of(e)) == e.text,
        exists|k: int|
            0 <= k < pieces_of(e).len() && pieces_of(e)[k] is Caret && spelled(pieces_of(e).subrange(0, k))
                == e.text.subrange(0, clip(e.cursor as int, e.text.len() as int)),
{
    let t = e.text;
    let n = t.len() as int;
    let c = clip(e.cursor as int, n);
    let l = clip(e.lo() as int, n);
    let h = clip(e.hi() as int, n);
    let p = pieces_of(e);
    assert(l <= h);
    reveal_with_fuel(spelled, 6);
    if e.lo() == e.hi() {
        assert(p.subrange(0, 1) =~= seq![PieceView::Text(t.subrange(0, c))]);
        assert(spelled(p) =~= t.subrange(0, c) + t.subrange(c, n));
        assert(t.subrange(0, c) + t.subrange(c, n) =~= t);
        assert(spelled(p.subrange(0, 1)) =~= t.subrange(0, c));
        assert(p[1] is Caret);
    } else if c <= e.lo() {
        assert(c <= l);
        assert(spelled(p) =~= t.subrange(0, c) + (t.subrange(c, l) + (t.subrange(l, h) + t.subrange(h, n))));
        assert(t.subrange(0, c) + (t.subrange(c, l) + (t.subrange(l, h) + t.subrange(h, n))) =~= t);
        assert(p.subrange(0, 1) =~= seq![PieceView::Text(t.subrange(0, c))]);
        assert(spelled(p.subrange(0, 1)) =~= t.subrange(0, c));
        assert(p[1] is Caret);
    } else if c >= e.hi() {
        assert(h <= c);
        assert(spelled(p) =~= t.subrange(0, l) + (t.subrange(l, h) + (t.subrange(h, c) + t.subrange(c, n))));
        assert(t.subrange(0, l) + (t.subrange(l, h) + (t.subrange(h, c) + t.subrange(c, n))) =~= t);
        let pre = p.subrange(0, 3);
        assert(pre =~= seq![
            PieceView::Text(t.subrange(0, l)),
            PieceView::Selected(t.subrange(l, h)),
            PieceView::Text(t.subrange(h, c)),
        ]);
        assert(spelled(pre) =~= t.subrange(0, l) + (t.subrange(l, h) + t.subrange(h, c)));
        assert(t.subrange(0, l) + (t.subrange(l, h) + t.subrange(h, c)) =~= t.subrange(0, c));
        assert(p[3] is Caret);
    } else {
        assert(l <= c <= h);
        assert(spelled(p) =~= t.subrange(0, l) + (t.subrange(l, c) + (t.subrange(c, h) + t.subrange(h, n))));
        assert(t.subrange(0, l) + (t.subrange(l, c) + (t.subrange(c, h) + t.subrange(h, n))) =~= t);
        let pre = p.subrange(0, 2);
        assert(pre =~= seq![PieceView::Text(t.subrange(0, l)), PieceView::Selected(t.subrange(l, c))]);
        assert(spelled(pre) =~= t.subrange(0, l) + t.subrange(l, c));
        assert(t.subrange(0, l) + t.subrange(l, c) =~= t.subrange(0, c));
        assert(p[2] is Caret);
    }
}

#[derive(Debug)]
pub struct RenameEdit {
    pub text: String,
    /// Cursor position in Unicode scalar values (0..=char_len).
    pub cursor: usize,
    /// Selection anchor; range is `min(anchor, cursor)..max(anchor, cursor)`.
    pub anchor: usize,
    pub caret_visible: bool,
}

impl Clone for RenameEdit {
    fn clone(&self) -> (c: Self)
        ensures
            c == *self,
    {
        RenameEdit {
            text: self.text.clone(),
            cursor: self.cursor,
            anchor: self.anchor,
            caret_visible: self.caret_visible,
        }
    }
}

impl View for RenameEdit {
    type V = EditView;

    open spec fn view(&self) -> EditView {
        EditView {
            text: self.text@,
            cursor: self.cursor as nat,
            anchor: self.anchor as nat,
            caret_visible: self.caret_visible,
        }
    }
}

impl RenameEdit {
    /// Start editing with the entire text selected (caret at end).
    pub fn new(text: &str) -> (edit: Self)
        ensures
            edit@ == (EditView { text: text@, cursor: text@.len(), anchor: 0, caret_visible: true }),
    {
        let len = text.unicode_len();
        RenameEdit { text: text::owned(text), cursor: len, anchor: 0, caret_visible: true }
    }

    /// Caret at the end, nothing selected (form fields and filters).
    pub fn at_end(text: &str) -> (edit: Self)
        ensures
            edit@ == (EditView {
                text: text@,
                cursor: text@.len(),
                anchor: text@.len(),
                caret_visible: true,
            }),
    {
        let mut edit = Self::new(text);
        edit.move_end(false);
        edit
    }

    pub fn char_len(&self) -> (n: usize)
        ensures
            n == self.text@.len(),
    {
        self.text.as_str().unicode_len()
    }

    /// Pulls the caret and the anchor back inside the text.
    pub fn clamp_cursor(&mut self)
        ensures
            final(self)@ == (EditView {
                cursor: if old(self)@.cursor > old(self)@.text.len() {
                    old(self)@.text.len()
                } else {
                    old(self)@.cursor
                },
                anchor: if old(self)@.anchor > old(self)@.text.len() {
                    old(self)@.text.len()
                } else {
                    old(self)@.anchor
                },
                ..old(self)@
            }),
            final(self)@.in_bounds(),
    {
        let len = self.char_len();
        if self.cursor > len {
            self.cursor = len;
        }
        if self.anchor > len {
            self.anchor = len;
        }
    }

    pub fn sel_range(&self) -> (r: (usize, usize))
        ensures
            r.0 == self@.lo(),
            r.1 == self@.hi(),
    {
        if self.anchor <= self.cursor {
            (self.anchor, self.cursor)
        } else {
            (self.cursor, self.anchor)
        }
    }

    pub fn has_selection(&self) -> (sel: bool)
        ensures
            sel == self@.has_selection(),
    {
        self.anchor != self.cursor
    }

    pub fn select_all(&mut self)
        ensures
            final(self)@ == old(self)@.select_all(),
    {
        self.anchor = 0;
        self.cursor = self.char_len();
        self.caret_visible = true;
    }

    pub fn clear_selection(&mut self)
        ensures
            final(self)@ == (EditView { anchor: old(self)@.cursor, ..old(self)@ }),
    {
        self.anchor = self.cursor;
    }

    /// The text with `chars[a..b]` removed, `a <= b` clipped to the text.
    fn cut_text(&self, a: usize, b: usize) -> (t: String)
        requires
            a <= b,
        ensures
            t@ == cut(self.text@, a as int, b as int),
    {
        let chars = text::chars_of(self.text.as_str());
        let n = chars.len();
        let lo = if a < n {
            a
        } else {
            n
        };
        let hi = if b < n {
            b
        } else {
            n
        };
        let mut out = String::new();
        text::push_range(&mut out, chars.as_slice(), 0, lo);
        text::push_range(&mut out, chars.as_slice(), hi, n);
        assert(out@ =~= cut(self.text@, a as int, b as int));
        out
    }

    /// Delete the current selection; returns true if something was removed.
    pub fn delete_selection(&mut self) -> (removed: bool)
        ensures
            removed == old(self)@.has_selection(),
            final(self)@ == old(self)@.delete_selection(),
    {
        let (lo, hi) = self.sel_range();
        if lo == hi {
            return false;
        }
        self.text = self.cut_text(lo, hi);
        self.cursor = lo;
        self.anchor = lo;
        self.caret_visible = true;
        true
    }

    /// Type `typed` at the caret, replacing the selection.
    pub fn insert(&mut self, typed: &str)
        requires
            old(self)@.lo() + typed@.len() <= usize::MAX,
        ensures
            final(self)@ == old(self)@.insert(typed@),
    {
        self.delete_selection();
        let chars = text::chars_of(self.text.as_str());
        let typed_chars = text::chars_of(typed);
        let n = chars.len();
        let at = if self.cursor < n {
            self.cursor
        } else {
            n
        };
        let mut out = String::new();
        text::push_range(&mut out, chars.as_slice(), 0, at);
        text::push_range(&mut out, typed_chars.as_slice(), 0, typed_chars.len());
        text::push_range(&mut out, chars.as_slice(), at, n);
        assert(typed_chars@.subrange(0, typed_chars@.len() as int) =~= typed@);
        assert(out@ =~= splice_in(chars@, self.cursor as int, typed@));
        self.text = out;
        self.cursor = self.cursor + typed_chars.len();
        self.anchor = self.cursor;
        self.caret_visible = true;
    }

    pub fn backspace(&mut self)
        ensures
            final(self)@ == old(self)@.backspace(),
    {
        if self.delete_selection() {
            return;
        }
        if self.cursor == 0 {
            return;
        }
        self.text = self.cut_text(self.cursor - 1, self.cursor);
        self.cursor = self.cursor - 1;
        self.anchor = self.cursor;
        self.caret_visible = true;
    }

    pub fn delete_forward(&mut self)
        ensures
            final(self)@ == old(self)@.delete_forward(),
    {
        if self.delete_selection() {
            return;
        }
        if self.cursor >= self.char_len() {
            return;
        }
        self.text = self.cut_text(self.cursor, self.cursor + 1);
        self.anchor = self.cursor;
        self.caret_visible = true;
    }

    pub fn move_left(&mut self, extend: bool)
        ensures
            final(self)@ == old(self)@.move_left(extend),
    {
        if !extend && self.has_selection() {
            let (lo, _) = self.sel_range();
            self.cursor = lo;
            self.anchor = lo;
            self.caret_visible = true;
            return;
        }
        if self.cursor > 0 {
            self.cursor = self.cursor - 1;
        }
        if !extend {
            self.anchor = self.cursor;
        }
        self.caret_visible = true;
    }

    pub fn move_right(&mut self, extend: bool)
        ensures
            final(self)@ == old(self)@.move_right(extend),
    {
        if !extend && self.has_selection() {
            let (_, hi) = self.sel_range();
            self.cursor = hi;
            self.anchor = hi;
            self.caret_visible = true;
            return;
        }
        if self.cursor < self.char_len() {
            self.cursor = self.cursor + 1;
        }
        if !extend {
            self.anchor = self.cursor;
        }
        self.caret_visible = true;
    }

    pub fn move_home(&mut self, extend: bool)
        ensures
            final(self)@ == old(self)@.move_home(extend),
    {
        self.cursor = 0;
        if !extend {
            self.anchor = 0;
        }
        self.caret_visible = true;
    }

    pub fn move_end(&mut self, extend: bool)
        ensures
            final(self)@ == old(self)@.move_end(extend),
    {
        self.cursor = self.char_len();
        if !extend {
            self.anchor = self.cursor;
        }
        self.caret_visible = true;
    }

    /// The pieces the editor is drawn in (`pieces_of`).
    pub fn pieces(&self) -> (p: Vec<EditPiece>)
        ensures
            piece_views(p@) == pieces_of(self@),
    {
        let chars = text::chars_of(self.text.as_str());
        let n = chars.len();
        let (lo, hi) = self.sel_range();
        let c = if self.cursor < n {
            self.cursor
        } else {
            n
        };
        let l = if lo < n {
            lo
        } else {
            n
        };
        let h = if hi < n {
            hi
        } else {
            n
        };
        let cs = chars.as_slice();
        let mut p: Vec<EditPiece> = Vec::new();
        if lo == hi {
            p.push(EditPiece::Text(range_string(cs, 0, c)));
            p.push(EditPiece::Caret);
            p.push(EditPiece::Text(range_string(cs, c, n)));
        } else if c <= lo {
            p.push(EditPiece::Text(range_string(cs, 0, c)));
            p.push(EditPiece::Caret);
            p.push(EditPiece::Text(range_string(cs, c, l)));
            p.push(EditPiece::Selected(range_string(cs, l, h)));
            p.push(EditPiece::Text(range_string(cs, h, n)));
        } else if c >= hi {
            p.push(EditPiece::Text(range_string(cs, 0, l)));
            p.push(EditPiece::Selected(range_string(cs, l, h)));
            p.push(EditPiece::Text(range_string(cs, h, c)));
            p.push(EditPiece::Caret);
            p.push(EditPiece::Text(range_string(cs, c, n)));
        } else {
            p.push(EditPiece::Text(range_string(cs, 0, l)));
            p.push(EditPiece::Selected(range_string(cs, l, c)));
            p.push(EditPiece::Caret);
            p.push(EditPiece::Selected(range_string(cs, c, h)));
            p.push(EditPiece::Text(range_string(cs, h, n)));
        }
        assert(piece_views(p@) =~= pieces_of(self@));
        p
    }

    pub fn selected_text(&self) -> (s: String)
        ensures
            s@ == self@.selected(),
    {
        let (lo, hi) = self.sel_range();
        let chars = text::chars_of(self.text.as_str());
        let n = chars.len();
        let a = if lo < n {
            lo
        } else {
            n
        };
        let b = if hi < n {
            hi
        } else {
            n
        };
        let mut out = String::new();
        text::push_range(&mut out, chars.as_slice(), a, b);
        assert(out@ =~= self@.selected());
        out
    }


    /// Apply a key press (see `key_effect`). `clipboard` is the clipboard
    /// text for a paste and `typed` the text the key types, if any.
    pub fn handle_key(
        &mut self,
        key: &str,
        chord: bool,
        shift: bool,
        clipboard: Option<&str>,
        typed: Option<&str>,
    ) -> (outcome: KeyOutcome)
        requires
            clipboard matches Some(t) ==> old(self)@.lo() + t@.len() <= usize::MAX,
            typed matches Some(t) ==> old(self)@.lo() + t@.len() <= usize::MAX,
        ensures
            ({
                let (e2, handled, copy) = key_effect(
                    old(self)@,
                    key@,
                    chord,
                    shift,
                    match clipboard {
                        Some(t) => Some(t@),
                        None => None,
                    },
                    match typed {
                        Some(t) => Some(t@),
                        None => None,
                    },
                );
                &&& final(self)@ == e2
                &&& outcome.handled == handled
                &&& match outcome.copy {
                    Some(c) => copy == Some(c@),
                    None => copy is None,
                }
            }),
    {
        let k = text::chars_of(key);
        let ks = k.as_slice();
        if chord && eq_ci_str(ks, "a") {
            self.select_all();
            return KeyOutcome { handled: true, copy: None };
        }
        let is_c = chord && eq_ci_str(ks, "c");
        let is_x = chord && eq_ci_str(ks, "x");
        if is_c || is_x {
            let t = if self.has_selection() {
                self.selected_text()
            } else {
                self.text.clone()
            };
            let ghost copy_text = if old(self)@.has_selection() {
                old(self)@.selected()
            } else {
                old(self)@.text
            };
            assert(t@ == copy_text);
            let copy = if t.as_str().unicode_len() > 0 {
                Some(t)
            } else {
                None
            };
            if !is_c {
                if self.has_selection() {
                    self.delete_selection();
                } else {
                    self.clear();
                }
            }
            return KeyOutcome { handled: true, copy };
        }
        if (chord && eq_ci_str(ks, "v")) || (shift && eq_ci_str(ks, "insert")) {
            if let Some(t) = clipboard {
                let cleaned = strip_newlines_string(t);
                proof {
                    t@.lemma_filter_len(|c: char| c != '\r' && c != '\n');
                }
                if cleaned.as_str().unicode_len() > 0 {
                    self.insert(cleaned.as_str());
                }
            }
            return KeyOutcome { handled: true, copy: None };
        }
        if text::eq_str(ks, "backspace") {
            self.backspace();
        } else if text::eq_str(ks, "delete") {
            self.delete_forward();
        } else if text::eq_str(ks, "left") {
            self.move_left(shift);
        } else if text::eq_str(ks, "right") {
            self.move_right(shift);
        } else if text::eq_str(ks, "home") {
            self.move_home(shift);
        } else if text::eq_str(ks, "end") {
            self.move_end(shift);
        } else {
            match typed {
                Some(t) => {
                    if chord {
                        return KeyOutcome { handled: false, copy: None };
                    }
                    self.insert(t);
                },
                None => {
                    return KeyOutcome { handled: false, copy: None };
                },
            }
        }
        KeyOutcome { handled: true, copy: None }
    }

    /// Empty the text (cut with nothing selected).
    pub fn clear(&mut self)
        ensures
            final(self)@ == (EditView { text: Seq::empty(), cursor: 0, anchor: 0, ..old(self)@ }),
    {
        self.text = String::new();
        self.cursor = 0;
        self.anchor = 0;
    }

    /// The selection as UTF-16 offsets (what a text-input client asks
    /// for), and whether the caret is before the anchor.
    pub fn selected_utf16(&self) -> (r: (usize, usize, bool))
        requires
            self.text@.len() <= usize::MAX / 2,
        ensures
            r.0 == text::utf16_prefix(self.text@, clip(self@.lo() as int, self.text@.len() as int)),
            r.1 == text::utf16_prefix(self.text@, clip(self@.hi() as int, self.text@.len() as int)),
            r.2 == (self.cursor < self.anchor),
    {
        let (lo, hi) = self.sel_range();
        let start = text::char_to_utf16(self.text.as_str(), lo);
        let end = text::char_to_utf16(self.text.as_str(), hi);
        (start, end, self.cursor < self.anchor)
    }

    /// Text typed through an input method, replacing the UTF-16 range
    /// `range` (the selection when `None`); line breaks are dropped. Returns
    /// whether anything was done: a range is always applied, typed text
    /// only when something is left of it.
    pub fn replace_utf16_range(&mut self, range: Option<(usize, usize)>, typed: &str) -> (changed: bool)
        requires
            old(self).text@.len() <= usize::MAX / 2,
            typed@.len() <= usize::MAX / 2,
            range is None ==> old(self)@.lo() + typed@.len() <= usize::MAX,
        ensures
            changed == (range is Some || strip_newlines(typed@).len() > 0),
            final(self)@ == replaced_utf16(old(self)@, range, typed@),
    {
        let had_range = range.is_some();
        let ghost mut lo_g: int = 0;
        let ghost mut hi_g: int = 0;
        if let Some((a, b)) = range {
            let lo = text::utf16_to_char(self.text.as_str(), a);
            let hi = text::utf16_to_char(self.text.as_str(), b);
            self.anchor = lo;
            self.cursor = hi;
            proof {
                lo_g = lo as int;
                hi_g = hi as int;
            }
        }
        let ghost moved = self@;
        assert(range is Some ==> moved == EditView { anchor: lo_g as nat, cursor: hi_g as nat, ..old(self)@ });
        let cleaned = strip_newlines_string(typed);
        proof {
            typed@.lemma_filter_len(|c: char| c != '\r' && c != '\n');
        }
        if !(cleaned.as_str().unicode_len() == 0) || had_range {
            if cleaned.as_str().unicode_len() == 0 {
                self.delete_selection();
            } else {
                self.insert(cleaned.as_str());
            }
            self.caret_visible = true;
            proof {
                if let Some((a, b)) = range {
                    text::lemma_char_index_unique(old(self).text@, a as int, lo_g);
                    text::lemma_char_index_unique(old(self).text@, b as int, hi_g);
                }
            }
            return true;
        }
        false
    }
}

} // verus!
