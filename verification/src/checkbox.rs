//! The check-box list: a list of entries, each with a mark, a highlighted
//! row, and the rule that a selection with nothing marked has to be
//! confirmed by pressing `Enter` a second time.
use vstd::prelude::*;
use crate::ui::{Key, moves_down, moves_up};

verus! {

/// Whether any entry is marked.
pub open spec fn any_marked(marks: Seq<bool>) -> bool {
    exists|i: int| 0 <= i < marks.len() && #[trigger] marks[i]
}

/// What a list hands back when it is closed: every entry in order when
/// `keep_unmarked` holds, else only the marked ones, in order.
pub open spec fn kept<T>(items: Seq<T>, marks: Seq<bool>, keep_unmarked: bool) -> Seq<T>
    decreases items.len(),
{
    if items.len() == 0 {
        Seq::empty()
    } else {
        let rest = kept(items.drop_first(), marks.drop_first(), keep_unmarked);
        if keep_unmarked || marks[0] {
            seq![items[0]] + rest
        } else {
            rest
        }
    }
}

/// One key on a check-box list, as the quadruple (marks, highlighted row,
/// warning shown, finished).
///
/// Down or `k` moves the highlight one row down, staying on the last row;
/// Up or `j` moves it one row up, staying on the first row; `s` flips the
/// mark of the highlighted row and takes the warning down; `Enter` finishes
/// the list unless nothing is marked and the warning is not shown yet, in
/// which case it shows the warning; any other key changes nothing.
pub open spec fn box_step(marks: Seq<bool>, row: int, warned: bool, key: Key) -> (
    Seq<bool>,
    int,
    bool,
    bool,
) {
    if moves_down(key) {
        (marks, if row + 1 >= marks.len() { row } else { row + 1 }, warned, false)
    } else if moves_up(key) {
        (marks, if row <= 0 { 0 } else { row - 1 }, warned, false)
    } else if key == Key::Char('s') {
        (marks.update(row, !marks[row]), row, false, false)
    } else if key == Key::Enter {
        if !any_marked(marks) && !warned {
            (marks, row, true, false)
        } else {
            (marks, row, warned, true)
        }
    } else {
        (marks, row, warned, false)
    }
}

/// The highlighted row is a row of the list, or the first place of an
/// empty list.
pub open spec fn row_in_list(row: int, len: int) -> bool {
    (0 <= row < len) || (len == 0 && row == 0)
}

/// A check-box list over entries of type `T`.
pub struct CheckBox<T> {
    items: Vec<T>,
    marks: Vec<bool>,
    row: usize,
    warned: bool,
}

impl<T> CheckBox<T> {
    /// The entries, in order.
    pub closed spec fn entries(&self) -> Seq<T> {
        self.items@
    }

    /// The mark of each entry.
    pub closed spec fn marking(&self) -> Seq<bool> {
        self.marks@
    }

    /// The highlighted row.
    pub closed spec fn row_at(&self) -> int {
        self.row as int
    }

    /// Whether the warning about an empty selection is shown.
    pub closed spec fn warning_shown(&self) -> bool {
        self.warned
    }

    /// One mark per entry, and the highlight within the list.
    pub open spec fn wf(&self) -> bool {
        &&& self.marking().len() == self.entries().len()
        &&& row_in_list(self.row_at(), self.entries().len() as int)
    }

    /// Whether the list can take `key`: flipping a mark needs a row to flip.
    pub open spec fn accepts(&self, key: Key) -> bool {
        key == Key::Char('s') ==> self.entries().len() > 0
    }

    /// A list whose entries start with the given marks, the first row
    /// highlighted and no warning shown.
    pub fn with_marks(items: Vec<T>, marks: Vec<bool>) -> (b: Self)
        requires
            items.len() == marks.len(),
        ensures
            b.wf(),
            b.entries() == items@,
            b.marking() == marks@,
            b.row_at() == 0,
            !b.warning_shown(),
    {
        CheckBox { items, marks, row: 0, warned: false }
    }

    /// A list whose entries all start marked (`checked`) or all unmarked.
    pub fn with_all(items: Vec<T>, checked: bool) -> (b: Self)
        ensures
            b.wf(),
            b.entries() == items@,
            b.marking() == Seq::new(items@.len(), |i: int| checked),
            b.row_at() == 0,
            !b.warning_shown(),
    {
        let mut marks: Vec<bool> = Vec::new();
        let n = items.len();
        let mut i: usize = 0;
        while i < n
            invariant
                n == items.len(),
                i <= n,
                marks@ == Seq::new(i as nat, |j: int| checked),
            decreases n - i,
        {
            marks.push(checked);
            i = i + 1;
            assert(marks@ =~= Seq::new(i as nat, |j: int| checked));
        }
        CheckBox { items, marks, row: 0, warned: false }
    }

    /// The number of entries.
    pub fn len(&self) -> (n: usize)
        ensures
            n == self.entries().len(),
    {
        self.items.len()
    }

    /// The entry at row `i`.
    pub fn item(&self, i: usize) -> (e: &T)
        requires
            i < self.entries().len(),
        ensures
            *e == self.entries()[i as int],
    {
        &self.items[i]
    }

    /// Whether the entry at row `i` is marked.
    pub fn is_marked(&self, i: usize) -> (m: bool)
        requires
            self.wf(),
            i < self.entries().len(),
        ensures
            m == self.marking()[i as int],
    {
        self.marks[i]
    }

    /// The highlighted row.
    pub fn row(&self) -> (r: usize)
        ensures
            r == self.row_at(),
    {
        self.row
    }

    /// Whether the warning about an empty selection is shown.
    pub fn is_warning_shown(&self) -> (w: bool)
        ensures
            w == self.warning_shown(),
    {
        self.warned
    }

    /// Whether the list can take `key` (see `accepts`).
    pub fn can_take(&self, key: Key) -> (b: bool)
        ensures
            b == self.accepts(key),
    {
        match key {
            Key::Char('s') => self.items.len() > 0,
            _ => true,
        }
    }

    /// Whether any entry is marked now.
    pub fn has_marked(&self) -> (b: bool)
        requires
            self.wf(),
        ensures
            b == any_marked(self.marking()),
            b == (exists|i: int| 0 <= i < self.marking().len() && #[trigger] self.marking()[i]),
    {
        let n = self.marks.len();
        let mut i: usize = 0;
        while i < n
            invariant
                n == self.marks@.len(),
                i <= n,
                forall|j: int| 0 <= j < i ==> !self.marks@[j],
            decreases n - i,
        {
            if self.marks[i] {
                return true;
            }
            i = i + 1;
        }
        false
    }

    /// Handles one key as `box_step` says, and tells whether the list is
    /// finished. The entries never change.
    pub fn on_key(&mut self, key: Key) -> (done: bool)
        requires
            old(self).wf(),
            old(self).accepts(key),
        ensures
            final(self).wf(),
            final(self).entries() == old(self).entries(),
            (final(self).marking(), final(self).row_at(), final(self).warning_shown(), done)
                == box_step(old(self).marking(), old(self).row_at(), old(self).warning_shown(), key),
    {
        match key {
            Key::Down | Key::Char('k') => {
                if self.items.len() > 0 && self.row < self.items.len() - 1 {
                    self.row = self.row + 1;
                }
                false
            },
            Key::Up | Key::Char('j') => {
                if self.row > 0 {
                    self.row = self.row - 1;
                }
                false
            },
            Key::Char('s') => {
                self.warned = false;
                let flipped = !self.marks[self.row];
                self.marks.set(self.row, flipped);
                false
            },
            Key::Enter => {
                if !self.has_marked() && !self.warned {
                    self.warned = true;
                    false
                } else {
                    true
                }
            },
            _ => false,
        }
    }

    /// Closes the list and hands back its entries: all of them, in order,
    /// when `keep_unmarked` holds, else the marked ones, in order.
    pub fn finish(self, keep_unmarked: bool) -> (out: Vec<T>)
        requires
            self.wf(),
        ensures
            out@ == kept(self.entries(), self.marking(), keep_unmarked),
    {
        let ghost whole = kept(self.items@, self.marks@, keep_unmarked);
        let mut items = self.items;
        let mut marks = self.marks;
        let mut out: Vec<T> = Vec::new();
        while items.len() > 0
            invariant
                items@.len() == marks@.len(),
                out@ + kept(items@, marks@, keep_unmarked) == whole,
            decreases items@.len(),
        {
            let ghost before_items = items@;
            let ghost before_marks = marks@;
            let item = items.remove(0);
            let mark = marks.remove(0);
            assert(items@ =~= before_items.drop_first());
            assert(marks@ =~= before_marks.drop_first());
            let ghost rest = kept(items@, marks@, keep_unmarked);
            if keep_unmarked || mark {
                let ghost before_out = out@;
                out.push(item);
                assert(out@ + rest =~= before_out + (seq![before_items[0]] + rest));
            }
        }
        assert(out@ + kept(items@, marks@, keep_unmarked) =~= out@);
        out
    }
}

/// Flipping the mark of the same row twice gives back the marks and the
/// highlight.
pub proof fn law_flip_twice_restores(marks: Seq<bool>, row: int, warned: bool)
    requires
        0 <= row < marks.len(),
    ensures
        ({
            let once = box_step(marks, row, warned, Key::Char('s'));
            let twice = box_step(once.0, once.1, once.2, Key::Char('s'));
            twice.0 == marks && twice.1 == row
        }),
{
    assert(marks.update(row, !marks[row]).update(row, marks[row]) =~= marks);
}

/// A list always closes at the latest on the second `Enter` in a row: the
/// first one either closes it or shows the warning, and with the warning
/// shown `Enter` closes it.
pub proof fn law_second_enter_finishes(marks: Seq<bool>, row: int, warned: bool)
    ensures
        ({
            let first = box_step(marks, row, warned, Key::Enter);
            first.3 || box_step(first.0, first.1, first.2, Key::Enter).3
        }),
{
}

/// `Enter` on a list with something marked closes it at once.
pub proof fn law_enter_with_marks_finishes(marks: Seq<bool>, row: int, warned: bool)
    requires
        any_marked(marks),
    ensures
        box_step(marks, row, warned, Key::Enter).3,
{
}

/// The highlighted row stays in the list whatever key comes.
pub proof fn law_row_stays_in_list(marks: Seq<bool>, row: int, warned: bool, key: Key)
    requires
        row_in_list(row, marks.len() as int),
        key == Key::Char('s') ==> marks.len() > 0,
    ensures
        row_in_list(box_step(marks, row, warned, key).1, marks.len() as int),
        box_step(marks, row, warned, key).0.len() == marks.len(),
{
}

/// Keeping the unmarked entries hands back every entry, in order.
pub proof fn law_keep_all_returns_entries<T>(items: Seq<T>, marks: Seq<bool>)
    ensures
        kept(items, marks, true) == items,
    decreases items.len(),
{
    if items.len() > 0 {
        law_keep_all_returns_entries(items.drop_first(), marks.drop_first());
        assert(seq![items[0]] + items.drop_first() =~= items);
    }
}

/// Without the unmarked entries, what comes back is exactly the marked
/// entries: each one kept is marked at its row, and the rows keep their
/// order.
pub proof fn law_kept_are_marked<T>(items: Seq<T>, marks: Seq<bool>)
    requires
        items.len() == marks.len(),
    ensures
        exists|rows: Seq<int>|
            #![trigger rows.len()]
            rows.len() == kept(items, marks, false).len() && (forall|k: int|
                0 <= k < rows.len() ==> 0 <= #[trigger] rows[k] < items.len() && marks[rows[k]]
                    && kept(items, marks, false)[k] == items[rows[k]]) && (forall|k: int, l: int|
                0 <= k < l < rows.len() ==> rows[k] < rows[l]) && (forall|i: int|
                0 <= i < items.len() && marks[i] ==> rows.contains(i)),
    decreases items.len(),
{
    let out = kept(items, marks, false);
    if items.len() == 0 {
        let rows = Seq::<int>::empty();
        assert(rows.len() == out.len());
    } else {
        law_kept_are_marked(items.drop_first(), marks.drop_first());
        let rest = kept(items.drop_first(), marks.drop_first(), false);
        let r0 = choose|rows: Seq<int>|
            #![trigger rows.len()]
            rows.len() == rest.len() && (forall|k: int|
                0 <= k < rows.len() ==> 0 <= #[trigger] rows[k] < items.drop_first().len()
                    && marks.drop_first()[rows[k]] && rest[k] == items.drop_first()[rows[k]]) && (
            forall|k: int, l: int| 0 <= k < l < rows.len() ==> rows[k] < rows[l]) && (forall|i: int|
                0 <= i < items.drop_first().len() && marks.drop_first()[i] ==> rows.contains(i));
        let shifted = r0.map_values(|r: int| r + 1);
        if marks[0] {
            let rows = seq![0int] + shifted;
            assert(out == seq![items[0]] + rest);
            assert forall|k: int| 0 <= k < rows.len() implies 0 <= #[trigger] rows[k] < items.len()
                && marks[rows[k]] && out[k] == items[rows[k]] by {
                if k > 0 {
                    assert(rows[k] == r0[k - 1] + 1);
                }
            }
            assert forall|i: int| 0 <= i < items.len() && marks[i] implies rows.contains(i) by {
                if i > 0 {
                    assert(marks.drop_first()[i - 1] == marks[i]);
                    assert(r0.contains(i - 1));
                    let k = choose|k: int| 0 <= k < r0.len() && r0[k] == i - 1;
                    assert(rows[k + 1] == i);
                } else {
                    assert(rows[0] == 0);
                }
            }
            assert(rows.len() == out.len());
        } else {
            let rows = shifted;
            assert(out == rest);
            assert forall|k: int| 0 <= k < rows.len() implies 0 <= #[trigger] rows[k] < items.len()
                && marks[rows[k]] && out[k] == items[rows[k]] by {
                assert(rows[k] == r0[k] + 1);
            }
            assert forall|i: int| 0 <= i < items.len() && marks[i] implies rows.contains(i) by {
                assert(i > 0);
                assert(marks.drop_first()[i - 1] == marks[i]);
                assert(r0.contains(i - 1));
                let k = choose|k: int| 0 <= k < r0.len() && r0[k] == i - 1;
                assert(rows[k] == i);
            }
            assert(rows.len() == out.len());
        }
    }
}

/// Something is marked exactly when some row holds a mark.
pub proof fn law_any_marked_means_some_row(marks: Seq<bool>, i: int)
    ensures
        (0 <= i < marks.len() && marks[i]) ==> any_marked(marks),
        any_marked(marks) ==> exists|j: int| 0 <= j < marks.len() && #[trigger] marks[j],
        !any_marked(marks) ==> forall|j: int| 0 <= j < marks.len() ==> !#[trigger] marks[j],
{
}

/// `Enter` on a list in which any row is marked closes it, wherever the
/// mark is and whatever else is marked.
pub proof fn law_enter_with_a_marked_row_finishes(
    marks: Seq<bool>,
    row: int,
    warned: bool,
    i: int,
)
    requires
        0 <= i < marks.len(),
        marks[i],
    ensures
        box_step(marks, row, warned, Key::Enter).3,
        box_step(marks, row, warned, Key::Enter).0 == marks,
        box_step(marks, row, warned, Key::Enter).2 == warned,
{
}

/// `Enter` on a list with no row marked and no warning shown does not close
/// it: it shows the warning and changes nothing else.
pub proof fn law_enter_without_marks_warns(marks: Seq<bool>, row: int)
    requires
        forall|j: int| 0 <= j < marks.len() ==> !#[trigger] marks[j],
    ensures
        box_step(marks, row, false, Key::Enter) == (marks, row, true, false),
{
}

/// `s` flips the mark of the highlighted row and only that one, and takes
/// the warning down.
pub proof fn law_flip_changes_only_the_row(marks: Seq<bool>, row: int, warned: bool)
    requires
        0 <= row < marks.len(),
    ensures
        ({
            let after = box_step(marks, row, warned, Key::Char('s'));
            &&& after.0.len() == marks.len()
            &&& after.0[row] == !marks[row]
            &&& forall|j: int| 0 <= j < marks.len() && j != row ==> after.0[j] == marks[j]
            &&& after.1 == row
            &&& !after.2
            &&& !after.3
        }),
{
}

/// Down moves the highlight to the next row unless it is on the last row,
/// and Up to the previous row unless it is on the first; neither changes a
/// mark, the warning, or closes the list.
pub proof fn law_moves_by_one_row(marks: Seq<bool>, row: int, warned: bool)
    requires
        0 <= row < marks.len(),
    ensures
        box_step(marks, row, warned, Key::Down) == (
            marks,
            if row == marks.len() - 1 { row } else { row + 1 },
            warned,
            false,
        ),
        box_step(marks, row, warned, Key::Up) == (
            marks,
            if row == 0 { row } else { row - 1 },
            warned,
            false,
        ),
{
}

/// A list with entries takes every key.
pub proof fn law_non_empty_list_takes_every_key<T>(b: CheckBox<T>, key: Key)
    requires
        b.entries().len() > 0,
    ensures
        b.accepts(key),
{
}

} // verus!
