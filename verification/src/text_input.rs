//! The one-line text prompt.
//!
//! The prompt keeps its text as characters, but its cursor is a byte
//! position into the UTF-8 form of the text, and insertion goes to a byte
//! position too, while deletion goes to a character position. For ASCII text
//! the two agree; for other text they do not, and some keys cannot be taken
//! (see `TextInput::accepts`).
use vstd::prelude::*;
use crate::ui::Key;

verus! {

/// The number of bytes of the UTF-8 form of `c`.
pub open spec fn char_width(c: char) -> nat {
    let v = c as u32;
    if v <= 0x7F {
        1
    } else if v <= 0x7FF {
        2
    } else if v <= 0xFFFF {
        3
    } else {
        4
    }
}

/// The number of bytes of the UTF-8 form of `s`.
pub open spec fn byte_len(s: Seq<char>) -> nat
    decreases s.len(),
{
    if s.len() == 0 {
        0
    } else {
        char_width(s[0]) + byte_len(s.drop_first())
    }
}

/// Whether byte position `b` of the UTF-8 form of `s` falls between two
/// characters (or at either end).
pub open spec fn is_boundary(s: Seq<char>, b: int) -> bool {
    exists|k: int| 0 <= k <= s.len() && #[trigger] byte_len(s.take(k)) == b
}

/// `s` with `c` put in at byte position `b`, which must be a boundary.
pub open spec fn insert_at_byte(s: Seq<char>, b: int, c: char) -> Seq<char>
    decreases s.len(),
{
    if b <= 0 || s.len() == 0 {
        seq![c] + s
    } else {
        seq![s[0]] + insert_at_byte(s.drop_first(), b - char_width(s[0]), c)
    }
}

/// Where the cursor rests after a key: a cursor at or past the end of a
/// non-empty text goes back to its last byte.
pub open spec fn settle(s: Seq<char>, cursor: int) -> int {
    if cursor >= byte_len(s) && byte_len(s) > 0 {
        byte_len(s) - 1
    } else {
        cursor
    }
}

/// One key on the prompt, as the quadruple (text, cursor, warning shown,
/// finished); `n` is the byte length of the text.
///
/// Backspace with the cursor at or past the end drops the last character,
/// else it deletes the character whose index is the cursor; `Enter` finishes
/// unless the text is empty and the warning is not shown yet, in which case
/// it shows the warning; Left and Right move the cursor one byte, not before
/// the start and not past the end; a character is appended when the cursor
/// is on the last byte or further, else it is put in at the byte just after
/// the cursor, and the cursor moves one byte on. Every key but `Enter` takes
/// the warning down, and every key leaves the cursor settled.
pub open spec fn typing_step(text: Seq<char>, cursor: int, warned: bool, key: Key) -> (
    Seq<char>,
    int,
    bool,
    bool,
) {
    let n = byte_len(text);
    match key {
        Key::Backspace => {
            let t = if cursor >= n {
                if text.len() > 0 {
                    text.drop_last()
                } else {
                    text
                }
            } else {
                text.remove(cursor)
            };
            (t, settle(t, cursor), false, false)
        },
        Key::Enter => {
            if n == 0 && !warned {
                (text, cursor, true, false)
            } else {
                (text, cursor, warned, true)
            }
        },
        Key::Left => (text, if cursor > 0 { cursor - 1 } else { cursor }, false, false),
        Key::Right => {
            let c = if cursor >= n { cursor } else { cursor + 1 };
            (text, settle(text, c), false, false)
        },
        Key::Char(c) => {
            let t = if cursor + 1 >= n {
                text.push(c)
            } else {
                insert_at_byte(text, cursor + 1, c)
            };
            (t, settle(t, cursor + 1), false, false)
        },
        _ => (text, cursor, warned, false),
    }
}

/// A cursor that has settled: within the text, or at 0 in an empty text.
pub open spec fn settled(s: Seq<char>, cursor: int) -> bool {
    (0 <= cursor < byte_len(s)) || (byte_len(s) == 0 && cursor == 0)
}

/// The largest byte length a `String` can have.
pub open spec fn max_text_bytes() -> int {
    isize::MAX as int
}

/// The byte length counted here is the length of the UTF-8 encoding of the
/// text as vstd defines it, which is what `str::len` measures.
pub proof fn lemma_byte_len_is_utf8_len(s: Seq<char>)
    ensures
        byte_len(s) == vstd::utf8::encode_utf8(s).len(),
    decreases s.len(),
{
    if s.len() > 0 {
        lemma_byte_len_is_utf8_len(s.drop_first());
        vstd::utf8::char_is_scalar(s[0]);
    }
}

/// A character takes one to four bytes.
pub proof fn lemma_char_width_bounds(c: char)
    ensures
        1 <= char_width(c) <= 4,
{
}

/// Byte lengths add up over concatenation.
pub proof fn lemma_byte_len_concat(a: Seq<char>, b: Seq<char>)
    ensures
        byte_len(a + b) == byte_len(a) + byte_len(b),
    decreases a.len(),
{
    if a.len() == 0 {
        assert(a + b =~= b);
    } else {
        assert((a + b).drop_first() =~= a.drop_first() + b);
        lemma_byte_len_concat(a.drop_first(), b);
    }
}

/// The byte length of one character.
pub proof fn lemma_byte_len_single(c: char)
    ensures
        byte_len(seq![c]) == char_width(c),
{
    assert(seq![c].drop_first() =~= Seq::<char>::empty());
    assert(seq![c][0] == c);
    assert(byte_len(Seq::<char>::empty()) == 0);
}

/// A text is empty exactly when its UTF-8 form is.
pub proof fn lemma_byte_len_zero(s: Seq<char>)
    ensures
        (byte_len(s) == 0) == (s.len() == 0),
{
    if s.len() > 0 {
        lemma_char_width_bounds(s[0]);
    }
}

/// Each character of the text adds its width to the bytes of the prefix
/// before it.
pub proof fn lemma_byte_len_take_step(s: Seq<char>, i: int)
    requires
        0 <= i < s.len(),
    ensures
        byte_len(s.take(i + 1)) == byte_len(s.take(i)) + char_width(s[i]),
{
    assert(s.take(i + 1) =~= s.take(i) + seq![s[i]]);
    lemma_byte_len_concat(s.take(i), seq![s[i]]);
    lemma_byte_len_single(s[i]);
}

/// Longer prefixes have strictly more bytes.
pub proof fn lemma_byte_len_take_mono(s: Seq<char>, j: int, i: int)
    requires
        0 <= j <= i <= s.len(),
    ensures
        byte_len(s.take(j)) + (i - j) <= byte_len(s.take(i)),
    decreases i - j,
{
    if j < i {
        lemma_byte_len_take_mono(s, j, i - 1);
        lemma_byte_len_take_step(s, i - 1);
        lemma_char_width_bounds(s[i - 1]);
    }
}

/// Deleting character `i` takes away its width.
pub proof fn lemma_byte_len_remove(s: Seq<char>, i: int)
    requires
        0 <= i < s.len(),
    ensures
        byte_len(s.remove(i)) + char_width(s[i]) == byte_len(s),
{
    assert(s =~= s.take(i) + (seq![s[i]] + s.skip(i + 1)));
    assert(s.remove(i) =~= s.take(i) + s.skip(i + 1));
    lemma_byte_len_concat(s.take(i), seq![s[i]] + s.skip(i + 1));
    lemma_byte_len_concat(seq![s[i]], s.skip(i + 1));
    lemma_byte_len_concat(s.take(i), s.skip(i + 1));
    lemma_byte_len_single(s[i]);
}

/// Putting a character in at the boundary after `k` characters is putting
/// it in at index `k`, and adds its width.
pub proof fn lemma_insert_at_byte(s: Seq<char>, k: int, c: char)
    requires
        0 <= k <= s.len(),
    ensures
        insert_at_byte(s, byte_len(s.take(k)) as int, c) == s.insert(k, c),
        byte_len(s.insert(k, c)) == byte_len(s) + char_width(c),
    decreases k,
{
    if k == 0 {
        assert(s.take(0) =~= Seq::<char>::empty());
        assert(s.insert(0, c) =~= seq![c] + s);
    } else {
        let r = s.drop_first();
        assert(s.take(k) =~= seq![s[0]] + r.take(k - 1));
        lemma_byte_len_concat(seq![s[0]], r.take(k - 1));
        lemma_byte_len_single(s[0]);
        lemma_char_width_bounds(s[0]);
        lemma_insert_at_byte(r, k - 1, c);
        assert(s.insert(k, c) =~= seq![s[0]] + r.insert(k - 1, c));
    }
    assert(s.insert(k, c) =~= s.take(k) + (seq![c] + s.skip(k)));
    assert(s =~= s.take(k) + s.skip(k));
    lemma_byte_len_concat(s.take(k), seq![c] + s.skip(k));
    lemma_byte_len_concat(seq![c], s.skip(k));
    lemma_byte_len_concat(s.take(k), s.skip(k));
    lemma_byte_len_single(c);
}

/// Whether every character of `s` is ASCII.
pub open spec fn ascii_text(s: Seq<char>) -> bool {
    forall|i: int| 0 <= i < s.len() ==> (s[i] as u32) <= 0x7F
}

/// The settled cursor at the end of `s`: on its last byte, or 0 when it is
/// empty.
pub open spec fn end_cursor(s: Seq<char>) -> int {
    if byte_len(s) == 0 {
        0
    } else {
        byte_len(s) - 1
    }
}

/// ASCII text has one byte per character.
pub proof fn lemma_ascii_byte_len(s: Seq<char>)
    requires
        ascii_text(s),
    ensures
        byte_len(s) == s.len(),
    decreases s.len(),
{
    if s.len() > 0 {
        assert(ascii_text(s.drop_first())) by {
            assert forall|i: int| 0 <= i < s.drop_first().len() implies (s.drop_first()[i] as u32)
                <= 0x7F by {
                assert(s.drop_first()[i] == s[i + 1]);
            }
        }
        lemma_ascii_byte_len(s.drop_first());
    }
}

/// `Enter` finishes the prompt exactly when some text was typed or the
/// warning about an empty answer is shown.
pub proof fn law_enter_finishes_iff(text: Seq<char>, cursor: int, warned: bool)
    ensures
        typing_step(text, cursor, warned, Key::Enter).3 == (text.len() > 0 || warned),
{
    lemma_byte_len_zero(text);
}

/// The prompt always finishes at the latest on the second `Enter` in a row.
pub proof fn law_second_enter_finishes(text: Seq<char>, cursor: int, warned: bool)
    ensures
        ({
            let first = typing_step(text, cursor, warned, Key::Enter);
            first.3 || typing_step(first.0, first.1, first.2, Key::Enter).3
        }),
{
}

/// In ASCII text with the cursor at its end, a typed ASCII character is
/// appended and the cursor stays at the end; Backspace then takes the
/// character back and returns the cursor where it was.
pub proof fn law_backspace_undoes_typing_at_end(text: Seq<char>, warned: bool, c: char)
    requires
        ascii_text(text),
        (c as u32) <= 0x7F,
    ensures
        ({
            let typed = typing_step(text, end_cursor(text), warned, Key::Char(c));
            let back = typing_step(typed.0, typed.1, typed.2, Key::Backspace);
            &&& typed.0 == text.push(c)
            &&& typed.1 == end_cursor(text.push(c))
            &&& back.0 == text
            &&& back.1 == end_cursor(text)
        }),
{
    lemma_ascii_byte_len(text);
    assert(text.push(c) =~= text + seq![c]);
    lemma_byte_len_concat(text, seq![c]);
    lemma_byte_len_single(c);
    let t = text.push(c);
    assert(t.remove(text.len() as int) =~= text);
}

/// On ASCII text every settled cursor stands on a character, so Backspace
/// is always taken: it deletes the character under the cursor, or does
/// nothing on an empty text.
pub proof fn law_ascii_backspace_is_taken(t: TextInput)
    requires
        t.wf(),
        ascii_text(t.text()),
    ensures
        t.accepts(Key::Backspace),
        t.text().len() > 0 ==> typing_step(t.text(), t.cursor_at(), t.warning_shown(), Key::Backspace).0
            == t.text().remove(t.cursor_at()),
{
    lemma_ascii_byte_len(t.text());
}

/// On ASCII text every byte position is between two characters, so a
/// character is taken wherever the cursor is, as long as the text stays
/// within the size of a `String`.
pub proof fn law_ascii_typing_is_taken(t: TextInput, c: char)
    requires
        t.wf(),
        ascii_text(t.text()),
        byte_len(t.text()) + char_width(c) <= max_text_bytes(),
    ensures
        t.accepts(Key::Char(c)),
{
    lemma_ascii_byte_len(t.text());
    let n = t.text().len();
    let b = t.cursor_at() + 1;
    if b < n {
        let s = t.text();
        assert(ascii_text(s.take(b))) by {
            assert forall|i: int| 0 <= i < s.take(b).len() implies (s.take(b)[i] as u32) <= 0x7F by {
                assert(s.take(b)[i] == s[i]);
            }
        }
        lemma_ascii_byte_len(s.take(b));
        assert(byte_len(s.take(b)) == b);
    }
}

/// Every key the prompt takes leaves the cursor settled.
pub proof fn law_typing_keeps_cursor_settled(t: TextInput, key: Key)
    requires
        t.wf(),
        t.accepts(key),
    ensures
        settled(
            typing_step(t.text(), t.cursor_at(), t.warning_shown(), key).0,
            typing_step(t.text(), t.cursor_at(), t.warning_shown(), key).1,
        ),
{
    let s = t.text();
    let cur = t.cursor_at();
    lemma_byte_len_zero(s);
    match key {
        Key::Backspace => {
            if cur < byte_len(s) {
                lemma_byte_len_remove(s, cur);
                lemma_byte_len_zero(s.remove(cur));
            }
        },
        Key::Char(c) => {
            let n = byte_len(s);
            let r = typing_step(s, cur, t.warning_shown(), key).0;
            if cur + 1 >= n {
                assert(s.push(c) =~= s + seq![c]);
                lemma_byte_len_concat(s, seq![c]);
                lemma_byte_len_single(c);
            } else {
                let k = choose|k: int| 0 <= k <= s.len() && #[trigger] byte_len(s.take(k)) == cur + 1;
                lemma_insert_at_byte(s, k, c);
            }
            lemma_char_width_bounds(c);
            lemma_byte_len_zero(r);
        },
        _ => {},
    }
}

/// A character typed with the cursor before the last byte goes in between
/// the characters that meet at the byte after the cursor, and the cursor
/// moves one byte on; a character typed on the last byte (or in an empty
/// text) is appended.
pub proof fn law_typing_inserts_after_cursor(
    text: Seq<char>,
    cursor: int,
    warned: bool,
    c: char,
    k: int,
)
    requires
        0 <= cursor,
        0 <= k <= text.len(),
        byte_len(text.take(k)) == cursor + 1,
        cursor + 1 < byte_len(text),
    ensures
        typing_step(text, cursor, warned, Key::Char(c)).0 == text.insert(k, c),
        typing_step(text, cursor, warned, Key::Char(c)).1 == cursor + 1,
        typing_step(text, end_cursor(text), warned, Key::Char(c)).0 == text.push(c),
{
    lemma_insert_at_byte(text, k, c);
    lemma_char_width_bounds(c);
}

/// Left and Right move the cursor by one byte within the text, stopping at
/// its first and last byte, and never change the text.
pub proof fn law_arrows_move_one_byte(text: Seq<char>, cursor: int, warned: bool)
    requires
        0 <= cursor < byte_len(text),
    ensures
        typing_step(text, cursor, warned, Key::Left) == (
            text,
            if cursor == 0 { 0 } else { cursor - 1 },
            false,
            false,
        ),
        typing_step(text, cursor, warned, Key::Right) == (
            text,
            if cursor == byte_len(text) - 1 { cursor } else { cursor + 1 },
            false,
            false,
        ),
{
}

/// The number of bytes of the UTF-8 form of `c`.
fn width_of(c: char) -> (w: usize)
    ensures
        w == char_width(c),
{
    let v = c as u32;
    if v <= 0x7F {
        1
    } else if v <= 0x7FF {
        2
    } else if v <= 0xFFFF {
        3
    } else {
        4
    }
}

/// The character index at which byte position `b` of `text` falls between
/// two characters, if it does.
fn boundary_index(text: &Vec<char>, b: usize) -> (r: Option<usize>)
    ensures
        match r {
            Some(k) => k <= text@.len() && byte_len(text@.take(k as int)) == b,
            None => !is_boundary(text@, b as int),
        },
{
    let n = text.len();
    let mut i: usize = 0;
    let mut sum: usize = 0;
    assert(text@.take(0) =~= Seq::<char>::empty());
    while i < n && sum < b
        invariant
            n == text@.len(),
            i <= n,
            sum == byte_len(text@.take(i as int)),
            sum <= b,
            forall|j: int| 0 <= j < i ==> byte_len(#[trigger] text@.take(j)) < b,
        decreases n - i,
    {
        proof {
            lemma_byte_len_take_step(text@, i as int);
            lemma_byte_len_take_mono(text@, i as int, i as int);
        }
        let w = width_of(text[i]);
        if w > b - sum {
            proof {
                assert forall|j: int| 0 <= j <= n implies byte_len(#[trigger] text@.take(j))
                    != b by {
                    if j > i {
                        lemma_byte_len_take_mono(text@, i + 1, j);
                    }
                }
            }
            return None;
        }
        sum = sum + w;
        i = i + 1;
    }
    if sum == b {
        Some(i)
    } else {
        proof {
            assert forall|j: int| 0 <= j <= n implies byte_len(#[trigger] text@.take(j)) != b by {
                if j > i {
                    lemma_byte_len_take_mono(text@, i as int, j);
                }
            }
        }
        None
    }
}

/// The text prompt: the text typed so far, a cursor, and whether the
/// warning about an empty answer is shown.
pub struct TextInput {
    text: Vec<char>,
    bytes: usize,
    cursor: usize,
    warned: bool,
}

impl TextInput {
    /// The text typed so far.
    pub closed spec fn text(&self) -> Seq<char> {
        self.text@
    }

    /// The cursor, a byte position.
    pub closed spec fn cursor_at(&self) -> int {
        self.cursor as int
    }

    /// Whether the warning about an empty answer is shown.
    pub closed spec fn warning_shown(&self) -> bool {
        self.warned
    }

    /// The byte count is kept, the text fits in a `String`, and the cursor
    /// is settled.
    pub closed spec fn wf(&self) -> bool {
        &&& self.bytes == byte_len(self.text@)
        &&& byte_len(self.text@) <= max_text_bytes()
        &&& settled(self.text@, self.cursor as int)
    }

    /// Whether the prompt can take `key`. Backspace inside the text needs a
    /// character whose index is the cursor; a character put inside the text
    /// needs the byte after the cursor to fall between two characters; and a
    /// character must leave the text within the size of a `String`.
    pub open spec fn accepts(&self, key: Key) -> bool {
        let n = byte_len(self.text());
        match key {
            Key::Backspace => self.cursor_at() >= n || self.cursor_at() < self.text().len(),
            Key::Char(c) => {
                &&& n + char_width(c) <= max_text_bytes()
                &&& (self.cursor_at() + 1 >= n || is_boundary(self.text(), self.cursor_at() + 1))
            },
            _ => true,
        }
    }

    /// An empty prompt.
    pub fn new() -> (t: Self)
        ensures
            t.wf(),
            t.text() == Seq::<char>::empty(),
            t.cursor_at() == 0,
            !t.warning_shown(),
    {
        TextInput { text: Vec::new(), bytes: 0, cursor: 0, warned: false }
    }

    /// The text typed so far.
    pub fn chars(&self) -> (t: &Vec<char>)
        ensures
            t@ == self.text(),
    {
        &self.text
    }

    /// The cursor, a byte position.
    pub fn cursor(&self) -> (c: usize)
        ensures
            c == self.cursor_at(),
    {
        self.cursor
    }

    /// The byte length of the UTF-8 form of the text.
    pub fn byte_count(&self) -> (n: usize)
        requires
            self.wf(),
        ensures
            n == byte_len(self.text()),
    {
        self.bytes
    }

    /// Whether the warning about an empty answer is shown.
    pub fn is_warning_shown(&self) -> (w: bool)
        ensures
            w == self.warning_shown(),
    {
        self.warned
    }

    /// Whether the prompt can take `key` (see `accepts`).
    pub fn can_take(&self, key: Key) -> (b: bool)
        requires
            self.wf(),
        ensures
            b == self.accepts(key),
    {
        match key {
            Key::Backspace => self.cursor >= self.bytes || self.cursor < self.text.len(),
            Key::Char(c) => {
                let w = width_of(c);
                if self.bytes > isize::MAX as usize - w {
                    false
                } else if self.cursor + 1 >= self.bytes {
                    true
                } else {
                    boundary_index(&self.text, self.cursor + 1).is_some()
                }
            },
            _ => true,
        }
    }

    /// Moves a cursor at or past the end of a non-empty text back onto its
    /// last byte.
    fn settle_cursor(&mut self)
        requires
            old(self).bytes == byte_len(old(self).text@),
            byte_len(old(self).text@) <= max_text_bytes(),
            byte_len(old(self).text@) == 0 ==> old(self).cursor == 0,
        ensures
            final(self).wf(),
            final(self).text@ == old(self).text@,
            final(self).warned == old(self).warned,
            final(self).cursor == settle(old(self).text@, old(self).cursor as int),
    {
        proof {
            lemma_byte_len_zero(self.text@);
        }
        if self.cursor >= self.bytes && self.bytes > 0 {
            self.cursor = self.bytes - 1;
        }
    }

    /// Handles one key as `typing_step` says, and tells whether the prompt
    /// is finished.
    pub fn on_key(&mut self, key: Key) -> (done: bool)
        requires
            old(self).wf(),
            old(self).accepts(key),
        ensures
            final(self).wf(),
            (final(self).text(), final(self).cursor_at(), final(self).warning_shown(), done)
                == typing_step(old(self).text(), old(self).cursor_at(), old(self).warning_shown(), key),
    {
        let ghost t0 = self.text@;
        proof {
            lemma_byte_len_zero(t0);
        }
        match key {
            Key::Backspace => {
                self.warned = false;
                if self.cursor >= self.bytes {
                    if self.text.len() > 0 {
                        let ghost s = self.text@;
                        let last = self.text.pop().unwrap();
                        proof {
                            assert(s =~= s.drop_last() + seq![last]);
                            lemma_byte_len_concat(s.drop_last(), seq![last]);
                            lemma_byte_len_single(last);
                        }
                        self.bytes = self.bytes - width_of(last);
                    }
                } else {
                    let ghost s = self.text@;
                    let gone = self.text.remove(self.cursor);
                    proof {
                        lemma_byte_len_remove(s, self.cursor as int);
                        lemma_byte_len_zero(self.text@);
                    }
                    self.bytes = self.bytes - width_of(gone);
                }
                self.settle_cursor();
                false
            },
            Key::Enter => {
                if self.bytes == 0 && !self.warned {
                    self.warned = true;
                    false
                } else {
                    true
                }
            },
            Key::Left => {
                self.warned = false;
                if self.cursor > 0 {
                    self.cursor = self.cursor - 1;
                }
                false
            },
            Key::Right => {
                self.warned = false;
                if self.cursor < self.bytes {
                    self.cursor = self.cursor + 1;
                }
                self.settle_cursor();
                false
            },
            Key::Char(c) => {
                self.warned = false;
                let w = width_of(c);
                let ghost s = self.text@;
                if self.cursor + 1 >= self.bytes {
                    self.text.push(c);
                    proof {
                        assert(self.text@ =~= s + seq![c]);
                        lemma_byte_len_concat(s, seq![c]);
                        lemma_byte_len_single(c);
                    }
                } else {
                    let k = boundary_index(&self.text, self.cursor + 1).unwrap();
                    self.text.insert(k, c);
                    proof {
                        lemma_insert_at_byte(s, k as int, c);
                    }
                }
                self.bytes = self.bytes + w;
                self.cursor = self.cursor + 1;
                self.settle_cursor();
                false
            },
            _ => false,
        }
    }

    /// The text typed, as a `String`.
    pub fn to_text(&self) -> (s: String)
        ensures
            s@ == self.text(),
    {
        collect_chars(&self.text)
    }
}

/// The characters of `v`, in order, gathered into a `String` by std's
/// `FromIterator<&char>`; its documentation gives a string made of those
/// characters.
#[verifier::external_body]
fn collect_chars(v: &Vec<char>) -> (s: String)
    ensures
        s@ == v@,
{
    v.iter().collect()
}

} // verus!
