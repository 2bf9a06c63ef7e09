//! Key events and the small screens of the terminal interface: the
//! two-option confirmation and the option menu.
//!
//! Each screen is a state machine: the terminal loop draws the state, reads
//! one key, and hands it to `on_key`, which decides the next state and
//! whether the screen is finished.
use vstd::prelude::*;

verus! {

/// A key press, as far as the screens of this program distinguish them.
#[derive(Clone, Copy, Debug, PartialEq, Eq, Structural)]
pub enum Key {
    Up,
    Down,
    Left,
    Right,
    Enter,
    Backspace,
    Char(char),
    Other,
}

/// Keys that move the highlight of a confirmation screen to the other option.
pub open spec fn confirm_switches(key: Key) -> bool {
    key == Key::Left || key == Key::Right || key == Key::Char('j') || key == Key::Char('k')
}

/// Keys that move a highlight one row down (the arrow, or `k`).
pub open spec fn moves_down(key: Key) -> bool {
    key == Key::Down || key == Key::Char('k')
}

/// Keys that move a highlight one row up (the arrow, or `j`).
pub open spec fn moves_up(key: Key) -> bool {
    key == Key::Up || key == Key::Char('j')
}

/// One key on a confirmation screen, as the pair (first option highlighted,
/// answer): `Enter` answers with the highlighted option, `true` for the
/// first; the arrow keys and `j`/`k` switch the highlight; any other key
/// changes nothing.
pub open spec fn confirm_step(first: bool, key: Key) -> (bool, Option<bool>) {
    if key == Key::Enter {
        (first, Some(first))
    } else if confirm_switches(key) {
        (!first, None)
    } else {
        (first, None)
    }
}

/// The confirmation screen: two options, the first one highlighted at start.
pub struct ConfirmScreen {
    first: bool,
}

impl ConfirmScreen {
    /// Whether the first option is the highlighted one.
    pub closed spec fn first_highlighted(&self) -> bool {
        self.first
    }

    /// A fresh screen, with the first option highlighted.
    pub fn new() -> (s: Self)
        ensures
            s.first_highlighted(),
    {
        ConfirmScreen { first: true }
    }

    /// Whether the first option is highlighted now.
    pub fn is_first_highlighted(&self) -> (b: bool)
        ensures
            b == self.first_highlighted(),
    {
        self.first
    }

    /// Handles one key as `confirm_step` says; `Some` answer ends the screen.
    pub fn on_key(&mut self, key: Key) -> (answer: Option<bool>)
        ensures
            (final(self).first_highlighted(), answer) == confirm_step(
                old(self).first_highlighted(),
                key,
            ),
    {
        match key {
            Key::Left | Key::Right | Key::Char('j') | Key::Char('k') => {
                self.first = !self.first;
                None
            },
            Key::Enter => Some(self.first),
            _ => None,
        }
    }
}

/// A switching key moves the highlight to the other option and answers
/// nothing; `Enter` answers with the highlighted option and keeps it.
pub proof fn law_confirm_keys(first: bool, key: Key)
    ensures
        confirm_switches(key) ==> confirm_step(first, key) == (!first, None::<bool>),
        key == Key::Enter ==> confirm_step(first, key) == (first, Some(first)),
        !confirm_switches(key) && key != Key::Enter ==> confirm_step(first, key) == (
            first,
            None::<bool>,
        ),
{
}

/// Switching the highlight twice gives back the highlight it started with.
pub proof fn law_confirm_switch_twice(first: bool, a: Key, b: Key)
    requires
        confirm_switches(a),
        confirm_switches(b),
    ensures
        confirm_step(confirm_step(first, a).0, b).0 == first,
{
}

/// Where the menu highlight lands after one step down: the next row, or the
/// first row once the last one is passed.
pub open spec fn menu_down(cursor: int, len: int) -> int {
    if cursor + 1 >= len {
        0
    } else {
        cursor + 1
    }
}

/// Where the menu highlight lands after one step up: the previous row; from
/// the first row of a non-empty menu it goes to the position just past the
/// last row, where no option is highlighted.
pub open spec fn menu_up(cursor: int, len: int) -> int {
    if cursor <= 0 && len > 0 {
        len
    } else {
        cursor - 1
    }
}

/// One key on a menu with `len` options, as the pair (highlight, chosen
/// option): Down or `k` and Up or `j` move the highlight (`menu_down`,
/// `menu_up`); `Enter` chooses the highlighted option; any other key changes
/// nothing.
pub open spec fn menu_step(cursor: int, len: int, key: Key) -> (int, Option<usize>) {
    if moves_down(key) {
        (menu_down(cursor, len), None)
    } else if moves_up(key) {
        (menu_up(cursor, len), None)
    } else if key == Key::Enter {
        (cursor, Some(cursor as usize))
    } else {
        (cursor, None)
    }
}

/// The option menu: `len` options and a highlight position, which ranges over
/// the options and the position just past the last one.
pub struct SelectScreen {
    cursor: usize,
    len: usize,
}

impl SelectScreen {
    /// The highlight position.
    pub closed spec fn cursor_at(&self) -> int {
        self.cursor as int
    }

    /// The number of options.
    pub closed spec fn option_count(&self) -> int {
        self.len as int
    }

    /// The highlight never leaves the options and the place just past them.
    pub open spec fn wf(&self) -> bool {
        0 <= self.cursor_at() <= self.option_count()
    }

    /// Whether the menu can take `key`: stepping up from the first row of an
    /// empty menu, or choosing where no option is highlighted, is refused.
    pub open spec fn accepts(&self, key: Key) -> bool {
        &&& moves_up(key) ==> !(self.cursor_at() == 0 && self.option_count() == 0)
        &&& key == Key::Enter ==> self.cursor_at() < self.option_count()
    }

    /// A menu of `len` options with the first one highlighted.
    pub fn new(len: usize) -> (s: Self)
        ensures
            s.wf(),
            s.cursor_at() == 0,
            s.option_count() == len,
    {
        SelectScreen { cursor: 0, len }
    }

    /// The highlight position now.
    pub fn cursor(&self) -> (c: usize)
        ensures
            c == self.cursor_at(),
    {
        self.cursor
    }

    /// The number of options.
    pub fn len(&self) -> (n: usize)
        ensures
            n == self.option_count(),
    {
        self.len
    }

    /// Whether the menu can take `key` (see `accepts`).
    pub fn can_take(&self, key: Key) -> (b: bool)
        requires
            self.wf(),
        ensures
            b == self.accepts(key),
    {
        match key {
            Key::Up | Key::Char('j') => !(self.cursor == 0 && self.len == 0),
            Key::Enter => self.cursor < self.len,
            _ => true,
        }
    }

    /// Handles one key as `menu_step` says; `Some` row ends the menu with
    /// that option chosen.
    pub fn on_key(&mut self, key: Key) -> (chosen: Option<usize>)
        requires
            old(self).wf(),
            old(self).accepts(key),
        ensures
            final(self).wf(),
            final(self).option_count() == old(self).option_count(),
            (final(self).cursor_at(), chosen) == menu_step(
                old(self).cursor_at(),
                old(self).option_count(),
                key,
            ),
    {
        match key {
            Key::Down | Key::Char('k') => {
                if self.len == 0 || self.cursor >= self.len - 1 {
                    self.cursor = 0;
                } else {
                    self.cursor = self.cursor + 1;
                }
                None
            },
            Key::Up | Key::Char('j') => {
                if self.cursor == 0 && self.len > 0 {
                    self.cursor = self.len;
                } else {
                    self.cursor = self.cursor - 1;
                }
                None
            },
            Key::Enter => Some(self.cursor),
            _ => None,
        }
    }
}

/// A menu takes `Enter` whenever the highlight is on an option, and every
/// key but Up and `Enter` always; Up is refused only on an empty menu.
pub proof fn law_menu_takes_keys_on_options(m: SelectScreen, key: Key)
    requires
        m.wf(),
    ensures
        0 <= m.cursor_at() < m.option_count() ==> m.accepts(Key::Enter),
        m.option_count() > 0 ==> m.accepts(Key::Up) && m.accepts(Key::Char('j')),
        key != Key::Enter && !moves_up(key) ==> m.accepts(key),
{
}

/// `Enter` chooses the highlighted option and leaves the highlight where it
/// is.
pub proof fn law_menu_enter_chooses_highlight(cursor: int, len: int)
    requires
        0 <= cursor < len,
    ensures
        menu_step(cursor, len, Key::Enter) == (cursor, Some(cursor as usize)),
{
}

/// Down keeps the highlight on an option of a non-empty menu, and Up from an
/// option other than the first goes to the option before it.
pub proof fn law_menu_moves_stay_on_options(cursor: int, len: int)
    requires
        0 <= cursor <= len,
        len > 0,
    ensures
        0 <= menu_down(cursor, len) < len,
        cursor > 0 ==> menu_up(cursor, len) == cursor - 1,
        cursor < len - 1 ==> menu_down(cursor, len) == cursor + 1,
{
}

/// Stepping up and then down comes back to the option one started on.
pub proof fn law_menu_down_undoes_up(cursor: int, len: int)
    requires
        0 <= cursor < len,
    ensures
        menu_down(menu_up(cursor, len), len) == cursor,
{
}

/// Stepping down from the last option comes round to the first.
pub proof fn law_menu_down_wraps(len: int)
    requires
        len > 0,
    ensures
        menu_down(len - 1, len) == 0,
{
}

} // verus!
