//! The list of pin groups and the paths they hold.
use vstd::prelude::*;
use crate::checkbox::{CheckBox, kept};
use crate::pin::{Pin, pin_text};
use crate::style::drawn_bold_blue;

verus! {

/// What std's `Path::extension` gives for the path written as `path`: the
/// part of the file name after its last dot, if the name has a dot that is
/// not its first character.
pub uninterp spec fn path_extension(path: Seq<char>) -> Option<Seq<char>>;

/// std's `Path::extension` on `path`, taken as text. The contract claims that
/// the result is `path_extension` of the path; the extension of a path given
/// as UTF-8 text is UTF-8 text itself, so no character is lost in the
/// conversion.
#[verifier::external_body]
fn extension_of(path: &str) -> (ext: Option<String>)
    ensures
        match ext {
            Some(e) => path_extension(path@) == Some(e@),
            None => path_extension(path@) is None,
        },
{
    match std::path::Path::new(path).extension() {
        Some(e) => Some(e.to_string_lossy().into_owned()),
        None => None,
    }
}

/// Whether an extension marks a LaTeX source: `latex` or `tex`.
pub open spec fn tex_extension(ext: Option<Seq<char>>) -> bool {
    match ext {
        Some(e) => e == "latex"@ || e == "tex"@,
        None => false,
    }
}

/// Whether the file at `path` is a LaTeX source, judged by its extension.
pub open spec fn tex_source(path: Seq<char>) -> bool {
    tex_extension(path_extension(path))
}

/// Whether an extension, as `Path::extension` gives it, marks a LaTeX source.
pub fn is_tex_extension(ext: &Option<String>) -> (b: bool)
    ensures
        b == tex_extension(
            match ext {
                Some(e) => Some(e@),
                None => None,
            },
        ),
        b == (ext matches Some(e) && (e@ == "latex"@ || e@ == "tex"@)),
{
    match ext {
        Some(e) => {
            let latex = "latex".to_owned();
            let tex = "tex".to_owned();
            *e == latex || *e == tex
        },
        None => false,
    }
}

/// An extension marks a LaTeX source exactly when it is `tex` or `latex`,
/// and a file is a LaTeX source exactly when `Path::extension` gives one of
/// those two.
pub proof fn law_tex_extension_is_tex_or_latex(e: Seq<char>, path: Seq<char>)
    ensures
        tex_extension(Some(e)) == (e == "tex"@ || e == "latex"@),
        !tex_extension(None),
        tex_source(path) == (path_extension(path) == Some("tex"@) || path_extension(path) == Some(
            "latex"@,
        )),
{
}

/// A path of a file, kept as text.
#[derive(Clone, Debug)]
pub struct PathBuffer(pub String);

impl PathBuffer {
    /// The path written as `path`.
    pub fn new(path: String) -> (p: Self)
        ensures
            p.0@ == path@,
    {
        PathBuffer(path)
    }

    /// Whether the file is a LaTeX source (`.tex` or `.latex`).
    pub fn is_tex_source(&self) -> (b: bool)
        ensures
            b == tex_source(self.0@),
    {
        let ext = extension_of(self.0.as_str());
        is_tex_extension(&ext)
    }

    /// The path as it is shown.
    pub fn to_display_string(&self) -> (s: String)
        ensures
            s@ == self.0@,
    {
        self.0.clone()
    }
}

/// `rows` lists, in increasing order, exactly the rows of `pins` whose
/// group is called `name`.
pub open spec fn rows_named(pins: Seq<Pin>, name: Seq<char>, rows: Seq<usize>) -> bool {
    &&& forall|k: int|
        0 <= k < rows.len() ==> #[trigger] rows[k] < pins.len() && pins[rows[k] as int].name_view()
            == name
    &&& forall|k: int, l: int| 0 <= k < l < rows.len() ==> rows[k] < rows[l]
    &&& forall|i: int|
        0 <= i < pins.len() && (#[trigger] pins[i]).name_view() == name ==> rows.contains(
            i as usize,
        )
}

/// No two groups share a name.
pub open spec fn names_unique(pins: Seq<Pin>) -> bool {
    forall|i: int, j: int|
        0 <= i < j < pins.len() ==> pins[i].name_view() != pins[j].name_view()
}

/// The texts of the groups, one after the other, group `i` with its name
/// drawn as `titles[i]`.
pub open spec fn pins_text(pins: Seq<Pin>, titles: Seq<Seq<char>>) -> Seq<char>
    decreases pins.len(),
{
    if pins.len() == 0 {
        Seq::empty()
    } else {
        pins_text(pins.drop_last(), titles.drop_last()) + pin_text(
            titles.last(),
            pins.last().paths_view(),
            pins.last().args_view(),
        )
    }
}

/// The listing has one text per group, in order: adding a group at the end
/// adds its text at the end, whatever the group holds.
pub proof fn law_listing_appends_each_group(
    pins: Seq<Pin>,
    titles: Seq<Seq<char>>,
    p: Pin,
    t: Seq<char>,
)
    ensures
        pins_text(pins.push(p), titles.push(t)) == pins_text(pins, titles) + pin_text(
            t,
            p.paths_view(),
            p.args_view(),
        ),
        pins_text(Seq::<Pin>::empty(), titles) == Seq::<char>::empty(),
{
    assert(pins.push(p).drop_last() =~= pins);
    assert(titles.push(t).drop_last() =~= titles);
}

/// The listing of a single group is exactly the text of that group.
pub proof fn law_listing_of_one_group(p: Pin, t: Seq<char>)
    ensures
        pins_text(seq![p], seq![t]) == pin_text(t, p.paths_view(), p.args_view()),
{
    law_listing_appends_each_group(Seq::empty(), Seq::empty(), p, t);
    assert(Seq::<Pin>::empty().push(p) =~= seq![p]);
    assert(Seq::<Seq<char>>::empty().push(t) =~= seq![t]);
    assert(Seq::<char>::empty() + pin_text(t, p.paths_view(), p.args_view()) =~= pin_text(
        t,
        p.paths_view(),
        p.args_view(),
    ));
}

/// The heading of the list of groups.
pub open spec fn listing_heading() -> Seq<char> {
    "List of pins: \n\n"@
}

/// The groups of pins.
#[derive(Clone)]
pub struct Logger {
    pub pins: Vec<Pin>,
}

impl Logger {
    /// A logger with no groups.
    pub fn new() -> (l: Logger)
        ensures
            l.pins@ == Seq::<Pin>::empty(),
    {
        Logger { pins: Vec::new() }
    }

    /// The rows of the groups called `name`, in increasing order: the groups
    /// a new group of that name may replace.
    pub fn duplicate_rows(&self, name: &String) -> (rows: Vec<usize>)
        ensures
            rows_named(self.pins@, name@, rows@),
    {
        let mut rows: Vec<usize> = Vec::new();
        let n = self.pins.len();
        let mut i: usize = 0;
        while i < n
            invariant
                n == self.pins@.len(),
                i <= n,
                forall|k: int|
                    0 <= k < rows@.len() ==> #[trigger] rows@[k] < i && self.pins@[rows@[k] as int].name_view()
                        == name@,
                forall|k: int, l: int| 0 <= k < l < rows@.len() ==> rows@[k] < rows@[l],
                forall|j: int|
                    0 <= j < i && (#[trigger] self.pins@[j]).name_view() == name@ ==> rows@.contains(
                        j as usize,
                    ),
            decreases n - i,
        {
            let here = self.pins[i].name();
            if here == *name {
                let ghost before = rows@;
                rows.push(i);
                assert forall|j: int|
                    0 <= j < i + 1 && (#[trigger] self.pins@[j]).name_view() == name@ implies rows@.contains(
                    j as usize,
                ) by {
                    if j < i {
                        let k = choose|k: int| 0 <= k < before.len() && before[k] == j as usize;
                        assert(rows@[k] == j as usize);
                    } else {
                        assert(rows@[before.len() as int] == i);
                    }
                }
            }
            i = i + 1;
        }
        rows
    }

    /// The text that lists all groups: a heading, then each group as
    /// `Pin::describe` shows it, in order.
    pub fn pins_listing(&self) -> (text: String)
        ensures
            exists|titles: Seq<Seq<char>>|
                #![trigger titles.len()]
                titles.len() == self.pins@.len() && (forall|i: int|
                    0 <= i < titles.len() ==> drawn_bold_blue(
                        self.pins@[i].name_view(),
                        #[trigger] titles[i],
                    )) && text@ == listing_heading() + pins_text(self.pins@, titles),
    {
        let mut out = String::new();
        out.append("List of pins: \n\n");
        let ghost head = out@;
        let ghost mut titles: Seq<Seq<char>> = Seq::empty();
        let n = self.pins.len();
        let mut i: usize = 0;
        assert(self.pins@.take(0) =~= Seq::<Pin>::empty());
        assert(out@ =~= head + pins_text(self.pins@.take(0), titles));
        while i < n
            invariant
                n == self.pins@.len(),
                i <= n,
                head == listing_heading(),
                titles.len() == i,
                forall|j: int|
                    0 <= j < i ==> drawn_bold_blue(self.pins@[j].name_view(), #[trigger] titles[j]),
                out@ == head + pins_text(self.pins@.take(i as int), titles),
            decreases n - i,
        {
            let shown = self.pins[i].describe();
            let ghost title = choose|title: Seq<char>|
                drawn_bold_blue(self.pins@[i as int].name_view(), title) && shown@ == pin_text(
                    title,
                    self.pins@[i as int].paths_view(),
                    self.pins@[i as int].args_view(),
                );
            let ghost before = out@;
            let ghost old_titles = titles;
            out.append(shown.as_str());
            proof {
                titles = titles.push(title);
                assert(self.pins@.take(i + 1).drop_last() =~= self.pins@.take(i as int));
                assert(titles.drop_last() =~= old_titles);
                assert(out@ =~= head + pins_text(self.pins@.take(i + 1), titles));
            }
            i = i + 1;
        }
        assert(self.pins@.take(n as int) =~= self.pins@);
        out
    }

    /// Removes the group at `row`.
    pub fn remove_pin(&mut self, row: usize) -> (gone: Pin)
        requires
            row < old(self).pins@.len(),
        ensures
            final(self).pins@ == old(self).pins@.remove(row as int),
            gone == old(self).pins@[row as int],
    {
        self.pins.remove(row)
    }

    /// Adds a group after the others.
    pub fn add_pin(&mut self, pin: Pin)
        ensures
            final(self).pins@ == old(self).pins@.push(pin),
    {
        self.pins.push(pin);
    }

    /// Clears the list of groups when the user confirmed it, and leaves it
    /// as it is otherwise.
    pub fn clear_if_confirmed(&mut self, confirmed: bool)
        ensures
            confirmed ==> final(self).pins@ == Seq::<Pin>::empty(),
            !confirmed ==> final(self).pins@ == old(self).pins@,
    {
        if confirmed {
            self.pins.clear();
        }
    }

    /// Starts toggling the groups: `None` when there are none, else a
    /// check-box list of all groups, in order, each marked when it is active.
    /// The groups move into the list while it is open.
    pub fn open_toggle(&mut self) -> (b: Option<CheckBox<Pin>>)
        ensures
            old(self).pins@.len() == 0 <==> b is None,
            b is None ==> final(self).pins@ == old(self).pins@,
            b matches Some(bx) ==> {
                &&& bx.wf()
                &&& bx.entries() == old(self).pins@
                &&& bx.marking() == old(self).pins@.map_values(|p: Pin| p.is_active())
                &&& bx.row_at() == 0
                &&& !bx.warning_shown()
                &&& final(self).pins@ == Seq::<Pin>::empty()
            },
    {
        if self.pins.len() == 0 {
            return None;
        }
        let mut pins: Vec<Pin> = Vec::new();
        std::mem::swap(&mut pins, &mut self.pins);
        let mut marks: Vec<bool> = Vec::new();
        let n = pins.len();
        let mut i: usize = 0;
        while i < n
            invariant
                n == pins@.len(),
                i <= n,
                marks@ == pins@.take(i as int).map_values(|p: Pin| p.is_active()),
            decreases n - i,
        {
            let a = pins[i].active();
            marks.push(a);
            i = i + 1;
            assert(marks@ =~= pins@.take(i as int).map_values(|p: Pin| p.is_active()));
        }
        assert(pins@.take(n as int) =~= pins@);
        Some(CheckBox::with_marks(pins, marks))
    }

    /// Ends toggling the groups: the logger keeps the groups marked in the
    /// list, in order, and drops the others.
    pub fn close_toggle(&mut self, b: CheckBox<Pin>)
        requires
            b.wf(),
        ensures
            final(self).pins@ == kept(b.entries(), b.marking(), false),
    {
        self.pins = b.finish(false);
    }
}

/// Replacing the group that shares a new group's name keeps the names
/// unique: when no two groups shared a name before, removing the one called
/// like the new group and adding the new group leaves no two sharing one.
pub proof fn law_replacing_keeps_names_unique(pins: Seq<Pin>, row: int, pin: Pin)
    requires
        names_unique(pins),
        0 <= row < pins.len(),
        pins[row].name_view() == pin.name_view(),
    ensures
        names_unique(pins.remove(row).push(pin)),
{
    let after = pins.remove(row).push(pin);
    assert forall|i: int, j: int| 0 <= i < j < after.len() implies after[i].name_view()
        != after[j].name_view() by {
        let oi = if i < row { i } else { i + 1 };
        if j == after.len() - 1 {
            assert(after[i] == pins[oi]);
            assert(oi != row);
        } else {
            let oj = if j < row { j } else { j + 1 };
            assert(after[i] == pins[oi]);
            assert(after[j] == pins[oj]);
        }
    }
}

/// Adding a group whose name no group has keeps the names unique.
pub proof fn law_adding_new_name_keeps_names_unique(pins: Seq<Pin>, pin: Pin, rows: Seq<usize>)
    requires
        names_unique(pins),
        rows_named(pins, pin.name_view(), rows),
        rows.len() == 0,
    ensures
        names_unique(pins.push(pin)),
{
    let after = pins.push(pin);
    assert forall|i: int, j: int| 0 <= i < j < after.len() implies after[i].name_view()
        != after[j].name_view() by {
        if j == after.len() - 1 {
            assert(after[i] == pins[i]);
            if pins[i].name_view() == pin.name_view() {
                assert(rows.contains(i as usize));
            }
        } else {
            assert(after[i] == pins[i]);
            assert(after[j] == pins[j]);
        }
    }
}

} // verus!
