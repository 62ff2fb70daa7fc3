//! A multi-line text input with a cursor: the requirement writer and the
//! answer dialog both edit one.
//!
//! The text is held as characters; the cursor is kept both as a character
//! index and as the byte offset into the text's UTF-8 encoding, which is what
//! the terminal rendering measures.
use vstd::prelude::*;
use crate::text::{
    byte_len, char_byte_len, last_index_before, find_index, len_utf8, lemma_byte_len_concat,
    lemma_byte_len_push, lemma_byte_len_single, lemma_byte_len_take, lemma_find_index,
    lemma_find_index_bound, rfind_char_before, lemma_len_le_byte_len,
};

verus! {

/// The mathematical value of a [`TextBuffer`]: its characters and the
/// character index of the cursor.
pub struct BufferView {
    pub text: Seq<char>,
    pub cursor: int,
}

/// Editable text with a cursor.
#[derive(Debug, Clone)]
pub struct TextBuffer {
    /// The characters of the text.
    pub text: Vec<char>,
    /// The cursor as an index into `text` (the cursor stands before `text[cursor_index]`).
    pub cursor_index: usize,
    /// The cursor as a byte offset into the UTF-8 encoding of `text`.
    pub cursor_pos: usize,
}

impl View for TextBuffer {
    type V = BufferView;

    open spec fn view(&self) -> BufferView {
        BufferView { text: self.text@, cursor: self.cursor_index as int }
    }
}

/// The largest number of bytes a text may hold (the largest size of a `String`).
pub open spec fn max_text_bytes() -> nat {
    isize::MAX as nat
}

/// Whether the cursor stands inside the text.
pub open spec fn buffer_valid(b: BufferView) -> bool {
    0 <= b.cursor <= b.text.len() && byte_len(b.text) <= max_text_bytes()
}

/// The byte offset of the cursor in the UTF-8 encoding of the text.
pub open spec fn cursor_byte_offset(b: BufferView) -> nat {
    byte_len(b.text.take(b.cursor))
}

// ---------------------------------------------------------------------------
// The editing operations, as functions on the mathematical value
// ---------------------------------------------------------------------------

/// Types `c` at the cursor; the cursor moves past it.
pub open spec fn spec_insert_char(b: BufferView, c: char) -> BufferView {
    BufferView { text: b.text.insert(b.cursor, c), cursor: b.cursor + 1 }
}

/// Removes the character before the cursor, if any.
pub open spec fn spec_backspace(b: BufferView) -> BufferView {
    if b.cursor > 0 {
        BufferView { text: b.text.remove(b.cursor - 1), cursor: b.cursor - 1 }
    } else {
        b
    }
}

/// Removes the character after the cursor, if any.
pub open spec fn spec_delete(b: BufferView) -> BufferView {
    if b.cursor < b.text.len() {
        BufferView { text: b.text.remove(b.cursor), cursor: b.cursor }
    } else {
        b
    }
}

/// Moves the cursor one character left, if it can.
pub open spec fn spec_move_left(b: BufferView) -> BufferView {
    if b.cursor > 0 {
        BufferView { cursor: b.cursor - 1, ..b }
    } else {
        b
    }
}

/// Moves the cursor one character right, if it can.
pub open spec fn spec_move_right(b: BufferView) -> BufferView {
    if b.cursor < b.text.len() {
        BufferView { cursor: b.cursor + 1, ..b }
    } else {
        b
    }
}

/// Moves the cursor to the start of its line: just after the last newline
/// before it, or to the start of the text.
pub open spec fn spec_move_home(b: BufferView) -> BufferView {
    match last_index_before(b.text, '\n', b.cursor) {
        Some(i) => BufferView { cursor: i + 1, ..b },
        None => BufferView { cursor: 0, ..b },
    }
}

/// Moves the cursor to the end of its line: onto the first newline at or
/// after it, or to the end of the text.
pub open spec fn spec_move_end(b: BufferView) -> BufferView {
    BufferView { cursor: b.cursor + find_index(b.text.skip(b.cursor), '\n'), ..b }
}

// ---------------------------------------------------------------------------
// Executable operations
// ---------------------------------------------------------------------------

impl TextBuffer {
    /// Whether the two cursor positions agree and lie inside the text.
    pub open spec fn wf(&self) -> bool {
        &&& buffer_valid(self@)
        &&& self.cursor_pos == cursor_byte_offset(self@)
    }

    /// An empty text with the cursor at its start.
    pub fn new() -> (b: Self)
        ensures
            b.wf(),
            b@.text.len() == 0,
            b@.cursor == 0,
            b.cursor_pos == 0,
    {
        let b = TextBuffer { text: Vec::new(), cursor_index: 0, cursor_pos: 0 };
        assert(b@.text.take(0) =~= Seq::<char>::empty());
        assert(byte_len(Seq::<char>::empty()) == 0);
        b
    }

    /// A buffer holding `text` with the cursor at its end; nothing when the
    /// text is longer than a string can hold.
    pub fn from_text(text: Vec<char>) -> (r: Option<Self>)
        ensures
            match r {
                Some(b) => byte_len(text@) <= max_text_bytes() && b.wf() && b@ == (BufferView {
                    text: text@,
                    cursor: text@.len() as int,
                }),
                None => byte_len(text@) > max_text_bytes(),
            },
    {
        let max: usize = isize::MAX as usize;
        let mut n: usize = 0;
        let mut i: usize = 0;
        assert(text@.take(0) =~= Seq::<char>::empty());
        assert(byte_len(Seq::<char>::empty()) == 0);
        while i < text.len()
            invariant
                i <= text.len(),
                max == max_text_bytes(),
                n == byte_len(text@.take(i as int)),
                n <= max,
            decreases text.len() - i,
        {
            let l = len_utf8(text[i]);
            proof {
                assert(text@.take(i + 1) =~= text@.take(i as int).push(text@[i as int]));
                lemma_byte_len_push(text@.take(i as int), text@[i as int]);
                lemma_byte_len_take(text@, i + 1, text.len() as int);
                assert(text@.take(text.len() as int) =~= text@);
            }
            if l > max - n {
                return None;
            }
            n = n + l;
            i += 1;
        }
        assert(text@.take(text.len() as int) =~= text@);
        let k = text.len();
        Some(TextBuffer { text, cursor_index: k, cursor_pos: n })
    }

    /// Whether the text is empty.
    pub fn is_empty(&self) -> (r: bool)
        ensures
            r == (self@.text.len() == 0),
    {
        self.text.len() == 0
    }

    /// Types `c` at the cursor; the cursor moves past it (by `c`'s UTF-8 length in bytes).
    pub fn insert_char(&mut self, c: char)
        requires
            old(self).wf(),
            byte_len(old(self)@.text) + char_byte_len(c) <= max_text_bytes(),
        ensures
            final(self).wf(),
            final(self)@ == spec_insert_char(old(self)@, c),
            final(self).cursor_pos == old(self).cursor_pos + char_byte_len(c),
    {
        let ghost t = self.text@;
        let ghost k = self.cursor_index as int;
        proof {
            lemma_len_le_byte_len(t);
        }
        self.text.insert(self.cursor_index, c);
        self.cursor_index = self.cursor_index + 1;
        let n = len_utf8(c);
        proof {
            assert(self.text@.take(k + 1) =~= t.take(k).push(c));
            lemma_byte_len_push(t.take(k), c);
            assert(self.text@ =~= t.take(k) + (seq![c] + t.skip(k)));
            assert(t =~= t.take(k) + t.skip(k));
            lemma_byte_len_concat(t.take(k), seq![c] + t.skip(k));
            lemma_byte_len_concat(seq![c], t.skip(k));
            lemma_byte_len_concat(t.take(k), t.skip(k));
            lemma_byte_len_push(Seq::<char>::empty(), c);
            assert(seq![c] =~= Seq::<char>::empty().push(c));
            assert(byte_len(Seq::<char>::empty()) == 0);
        }
        self.cursor_pos = self.cursor_pos + n;
    }

    /// Types a newline at the cursor.
    pub fn insert_newline(&mut self)
        requires
            old(self).wf(),
            byte_len(old(self)@.text) + 1 <= max_text_bytes(),
        ensures
            final(self).wf(),
            final(self)@ == spec_insert_char(old(self)@, '\n'),
            final(self).cursor_pos == old(self).cursor_pos + 1,
    {
        assert(char_byte_len('\n') == 1);
        self.insert_char('\n');
    }

    /// Removes the character before the cursor, if any; the cursor moves back over it.
    pub fn backspace(&mut self)
        requires
            old(self).wf(),
        ensures
            final(self).wf(),
            final(self)@ == spec_backspace(old(self)@),
    {
        if self.cursor_index > 0 {
            let ghost t = self.text@;
            let ghost k = self.cursor_index as int;
            let c = self.text.remove(self.cursor_index - 1);
            let n = len_utf8(c);
            proof {
                assert(t.take(k) =~= t.take(k - 1).push(c));
                lemma_byte_len_push(t.take(k - 1), c);
                assert(self.text@.take(k - 1) =~= t.take(k - 1));
                assert(t =~= t.take(k) + t.skip(k));
                assert(self.text@ =~= t.take(k - 1) + t.skip(k));
                lemma_byte_len_concat(t.take(k), t.skip(k));
                lemma_byte_len_concat(t.take(k - 1), t.skip(k));
            }
            self.cursor_index = self.cursor_index - 1;
            self.cursor_pos = self.cursor_pos - n;
        }
    }

    /// Removes the character after the cursor, if any; the cursor stays.
    pub fn delete(&mut self)
        requires
            old(self).wf(),
        ensures
            final(self).wf(),
            final(self)@ == spec_delete(old(self)@),
    {
        if self.cursor_index < self.text.len() {
            let ghost t = self.text@;
            let ghost k = self.cursor_index as int;
            let c = self.text.remove(self.cursor_index);
            proof {
                assert(self.text@.take(k) =~= t.take(k));
                assert(t =~= t.take(k + 1) + t.skip(k + 1));
                assert(t.take(k + 1) =~= t.take(k).push(c));
                assert(self.text@ =~= t.take(k) + t.skip(k + 1));
                lemma_byte_len_concat(t.take(k + 1), t.skip(k + 1));
                lemma_byte_len_concat(t.take(k), t.skip(k + 1));
                lemma_byte_len_push(t.take(k), c);
            }
        }
    }

    /// Moves the cursor one character left, if it can.
    pub fn move_left(&mut self)
        requires
            old(self).wf(),
        ensures
            final(self).wf(),
            final(self)@ == spec_move_left(old(self)@),
    {
        if self.cursor_index > 0 {
            let ghost t = self.text@;
            let ghost k = self.cursor_index as int;
            let n = len_utf8(self.text[self.cursor_index - 1]);
            proof {
                assert(t.take(k) =~= t.take(k - 1).push(t[k - 1]));
                lemma_byte_len_push(t.take(k - 1), t[k - 1]);
            }
            self.cursor_index = self.cursor_index - 1;
            self.cursor_pos = self.cursor_pos - n;
        }
    }

    /// Moves the cursor one character right, if it can.
    pub fn move_right(&mut self)
        requires
            old(self).wf(),
        ensures
            final(self).wf(),
            final(self)@ == spec_move_right(old(self)@),
    {
        if self.cursor_index < self.text.len() {
            let ghost t = self.text@;
            let ghost k = self.cursor_index as int;
            let n = len_utf8(self.text[self.cursor_index]);
            proof {
                assert(t.take(k + 1) =~= t.take(k).push(t[k]));
                lemma_byte_len_push(t.take(k), t[k]);
                lemma_byte_len_take(t, k + 1, t.len() as int);
                assert(t.take(t.len() as int) =~= t);
            }
            self.cursor_index = self.cursor_index + 1;
            self.cursor_pos = self.cursor_pos + n;
        }
    }

    /// Moves the cursor to the start of its line.
    pub fn move_home(&mut self)
        requires
            old(self).wf(),
        ensures
            final(self).wf(),
            final(self)@ == spec_move_home(old(self)@),
    {
        proof {
            lemma_last_index_before_bound(self.text@, '\n', self.cursor_index as int);
        }
        match rfind_char_before(&self.text, '\n', self.cursor_index) {
            Some(i) => {
                let ghost t = self.text@;
                let ghost k = self.cursor_index as int;
                proof {
                    assert(t.take(i + 1) =~= t.take(i as int).push('\n'));
                    lemma_byte_len_push(t.take(i as int), '\n');
                    assert(char_byte_len('\n') == 1);
                    lemma_byte_len_take(t, i + 1, k);
                    lemma_byte_len_take(t, i as int, k);
                }
                self.cursor_index = i + 1;
                self.cursor_pos = byte_offset(&self.text, i + 1);
            },
            None => {
                self.cursor_index = 0;
                self.cursor_pos = 0;
                assert(self.text@.take(0) =~= Seq::<char>::empty());
                assert(byte_len(Seq::<char>::empty()) == 0);
            },
        }
    }

    /// Moves the cursor to the end of its line.
    pub fn move_end(&mut self)
        requires
            old(self).wf(),
        ensures
            final(self).wf(),
            final(self)@ == spec_move_end(old(self)@),
    {
        let ghost t = self.text@;
        let ghost k = self.cursor_index as int;
        let mut j: usize = self.cursor_index;
        while j < self.text.len() && self.text[j] != '\n'
            invariant
                k <= j <= self.text.len(),
                self.text@ == t,
                forall|m: int| k <= m < j ==> self.text@[m] != '\n',
            decreases self.text.len() - j,
        {
            j += 1;
        }
        proof {
            let s = t.skip(k);
            assert forall|m: int| 0 <= m < j - k implies s[m] != '\n' by {
                assert(s[m] == t[m + k]);
            }
            if j < t.len() {
                assert(s[j - k] == t[j as int]);
            }
            lemma_find_index(s, '\n', j - k);
            lemma_byte_len_take(t, j as int, t.len() as int);
            assert(t.take(t.len() as int) =~= t);
        }
        self.cursor_index = j;
        self.cursor_pos = byte_offset(&self.text, j);
    }
}

/// The byte offset of character index `j` in the UTF-8 encoding of `text`.
pub fn byte_offset(text: &Vec<char>, j: usize) -> (n: usize)
    requires
        j <= text.len(),
        byte_len(text@) <= max_text_bytes(),
    ensures
        n == byte_len(text@.take(j as int)),
{
    let mut n: usize = 0;
    let mut i: usize = 0;
    assert(text@.take(0) =~= Seq::<char>::empty());
    assert(byte_len(Seq::<char>::empty()) == 0);
    while i < j
        invariant
            i <= j <= text.len(),
            byte_len(text@) <= max_text_bytes(),
            n == byte_len(text@.take(i as int)),
        decreases j - i,
    {
        proof {
            assert(text@.take(i + 1) =~= text@.take(i as int).push(text@[i as int]));
            lemma_byte_len_push(text@.take(i as int), text@[i as int]);
            lemma_byte_len_take(text@, i + 1, text.len() as int);
            assert(text@.take(text.len() as int) =~= text@);
        }
        n = n + len_utf8(text[i]);
        i += 1;
    }
    n
}

// ---------------------------------------------------------------------------
// Laws of editing
// ---------------------------------------------------------------------------

/// Backspace undoes typing a character.
pub proof fn lemma_backspace_undoes_insert(b: BufferView, c: char)
    requires
        buffer_valid(b),
    ensures
        spec_backspace(spec_insert_char(b, c)) == b,
{
    assert(b.text.insert(b.cursor, c).remove(b.cursor) =~= b.text);
}

/// Moving right undoes moving left, away from the start of the text.
pub proof fn lemma_move_right_undoes_move_left(b: BufferView)
    requires
        buffer_valid(b),
        b.cursor > 0,
    ensures
        spec_move_right(spec_move_left(b)) == b,
{
}

/// Moving left undoes moving right, away from the end of the text.
pub proof fn lemma_move_left_undoes_move_right(b: BufferView)
    requires
        buffer_valid(b),
        b.cursor < b.text.len(),
    ensures
        spec_move_left(spec_move_right(b)) == b,
{
}

/// Backspace is moving left and then deleting.
pub proof fn lemma_backspace_is_left_then_delete(b: BufferView)
    requires
        buffer_valid(b),
        b.cursor > 0,
    ensures
        spec_backspace(b) == spec_delete(spec_move_left(b)),
{
}

/// Delete leaves the text before the cursor as it was.
pub proof fn lemma_delete_keeps_prefix(b: BufferView)
    requires
        buffer_valid(b),
    ensures
        spec_delete(b).text.take(b.cursor) == b.text.take(b.cursor),
        spec_delete(b).cursor == b.cursor,
{
    assert(spec_delete(b).text.take(b.cursor) =~= b.text.take(b.cursor));
}

/// Home and End each land on the same place when pressed again.
pub proof fn lemma_home_end_idempotent(b: BufferView)
    requires
        buffer_valid(b),
    ensures
        spec_move_home(spec_move_home(b)) == spec_move_home(b),
        spec_move_end(spec_move_end(b)) == spec_move_end(b),
{
    let h = spec_move_home(b);
    lemma_last_index_before_bound(b.text, '\n', b.cursor);
    match last_index_before(b.text, '\n', b.cursor) {
        Some(i) => {
            assert(h.cursor == i + 1);
            assert(last_index_before(b.text, '\n', i + 1) == Some(i));
        },
        None => {
            assert(last_index_before(b.text, '\n', 0) is None);
        },
    }
    let e = spec_move_end(b);
    let s = b.text.skip(b.cursor);
    lemma_find_index_bound(s, '\n');
    let f = find_index(s, '\n');
    let s2 = b.text.skip(e.cursor);
    if f < s.len() {
        assert(s2[0] == s[f]);
        lemma_find_index(s2, '\n', 0);
    } else {
        assert(s2.len() == 0);
    }
}

/// Where Home lands: right after a newline, or at the start of the text.
pub proof fn lemma_last_index_before_bound(s: Seq<char>, c: char, end: int)
    requires
        0 <= end <= s.len(),
    ensures
        match last_index_before(s, c, end) {
            Some(i) => 0 <= i < end && s[i] == c && forall|m: int| i < m < end ==> s[m] != c,
            None => forall|m: int| 0 <= m < end ==> s[m] != c,
        },
    decreases end,
{
    if end > 0 && s[end - 1] != c {
        lemma_last_index_before_bound(s, c, end - 1);
    }
}

/// A character takes at most four bytes.
proof fn lemma_char_byte_len_bound(c: char)
    ensures
        1 <= char_byte_len(c) <= 4,
{
    lemma_byte_len_single(c);
    lemma_byte_len_push(Seq::<char>::empty(), c);
    assert(seq![c] =~= Seq::<char>::empty().push(c));
    assert(Seq::<char>::empty().len() == 0);
    lemma_len_le_byte_len(seq![c]);
}

/// Every editing operation keeps the cursor inside the text, and keeps the
/// text within the size a string can hold when it has room for one more character.
pub proof fn lemma_edits_keep_valid(b: BufferView, c: char)
    requires
        buffer_valid(b),
        byte_len(b.text) + 4 <= max_text_bytes(),
    ensures
        buffer_valid(spec_insert_char(b, c)),
        buffer_valid(spec_backspace(b)),
        buffer_valid(spec_delete(b)),
        buffer_valid(spec_move_left(b)),
        buffer_valid(spec_move_right(b)),
        buffer_valid(spec_move_home(b)),
        buffer_valid(spec_move_end(b)),
{
    let t = b.text;
    let k = b.cursor;
    lemma_char_byte_len_bound(c);
    assert(t.insert(k, c) =~= t.take(k) + (seq![c] + t.skip(k)));
    assert(t =~= t.take(k) + t.skip(k));
    lemma_byte_len_concat(t.take(k), seq![c] + t.skip(k));
    lemma_byte_len_concat(seq![c], t.skip(k));
    lemma_byte_len_concat(t.take(k), t.skip(k));
    lemma_byte_len_single(c);
    if k > 0 {
        lemma_byte_len_remove(t, k - 1);
    }
    if k < t.len() {
        lemma_byte_len_remove(t, k);
    }
    lemma_last_index_before_bound(t, '\n', k);
    lemma_find_index_bound(t.skip(k), '\n');
}

proof fn lemma_byte_len_remove(t: Seq<char>, i: int)
    requires
        0 <= i < t.len(),
    ensures
        byte_len(t.remove(i)) <= byte_len(t),
{
    assert(t.remove(i) =~= t.take(i) + t.skip(i + 1));
    assert(t =~= t.take(i) + (seq![t[i]] + t.skip(i + 1)));
    lemma_byte_len_concat(t.take(i), t.skip(i + 1));
    lemma_byte_len_concat(t.take(i), seq![t[i]] + t.skip(i + 1));
    lemma_byte_len_concat(seq![t[i]], t.skip(i + 1));
}

} // verus!
