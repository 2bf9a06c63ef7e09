//! A pin group: a named set of files that are compiled with the same
//! arguments.
use vstd::prelude::*;
use crate::checkbox::CheckBox;
use crate::logger::{PathBuffer, tex_source};
use crate::style::{bold_blue, drawn_bold_blue};

verus! {

/// The lines that list the paths of a group, one line per path.
pub open spec fn path_lines(paths: Seq<PathBuffer>) -> Seq<char>
    decreases paths.len(),
{
    if paths.len() == 0 {
        Seq::empty()
    } else {
        path_lines(paths.drop_last()) + "\n\t│ "@ + paths.last().0@
    }
}

/// Each path adds its own line after the lines of the paths before it.
pub proof fn law_path_lines_append(paths: Seq<PathBuffer>, p: PathBuffer)
    ensures
        path_lines(paths.push(p)) == path_lines(paths) + "\n\t│ "@ + p.0@,
        path_lines(Seq::<PathBuffer>::empty()) == Seq::<char>::empty(),
{
    assert(paths.push(p).drop_last() =~= paths);
}

/// The text that shows a group whose name is drawn as `title`.
pub open spec fn pin_text(title: Seq<char>, paths: Seq<PathBuffer>, args: Seq<char>) -> Seq<char> {
    "\n\t┍─"@ + title + "──"@ + path_lines(paths) + "\n\t┖──\n\tgroup gets applied as latex "@
        + args + " [filename]"@
}

/// A pin group.
#[derive(Clone, Debug)]
pub struct Pin {
    args: String,
    paths: Vec<PathBuffer>,
    name: String,
    active: bool,
}

impl Default for Pin {
    /// An inactive group with no files, no name and no arguments.
    fn default() -> (p: Pin)
        ensures
            p.args_view() == Seq::<char>::empty(),
            p.paths_view() == Seq::<PathBuffer>::empty(),
            p.name_view() == Seq::<char>::empty(),
            !p.is_active(),
    {
        Pin { args: String::new(), paths: Vec::new(), name: String::new(), active: false }
    }
}

impl Pin {
    /// The arguments passed to `latex` for the files of the group.
    pub closed spec fn args_view(&self) -> Seq<char> {
        self.args@
    }

    /// The files of the group.
    pub closed spec fn paths_view(&self) -> Seq<PathBuffer> {
        self.paths@
    }

    /// The name of the group.
    pub closed spec fn name_view(&self) -> Seq<char> {
        self.name@
    }

    /// Whether the group is active.
    pub closed spec fn is_active(&self) -> bool {
        self.active
    }

    /// A new, active group of the given files, with no name and no arguments.
    pub fn new(paths: Vec<PathBuffer>) -> (p: Pin)
        ensures
            p.paths_view() == paths@,
            p.args_view() == Seq::<char>::empty(),
            p.name_view() == Seq::<char>::empty(),
            p.is_active(),
    {
        Pin { args: String::new(), paths, name: String::new(), active: true }
    }

    /// A group made of the given parts.
    pub fn from_parts(args: String, paths: Vec<PathBuffer>, name: String, active: bool) -> (p: Pin)
        ensures
            p.args_view() == args@,
            p.paths_view() == paths@,
            p.name_view() == name@,
            p.is_active() == active,
    {
        Pin { args, paths, name, active }
    }

    /// The name of the group.
    pub fn name(&self) -> (n: String)
        ensures
            n@ == self.name_view(),
    {
        self.name.clone()
    }

    /// Whether the group is active.
    pub fn active(&self) -> (a: bool)
        ensures
            a == self.is_active(),
    {
        self.active
    }

    /// The arguments of the group.
    pub fn args(&self) -> (a: &String)
        ensures
            a@ == self.args_view(),
    {
        &self.args
    }

    /// The files of the group.
    pub fn paths(&self) -> (p: &Vec<PathBuffer>)
        ensures
            p@ == self.paths_view(),
    {
        &self.paths
    }

    /// Sets the arguments of the group.
    pub fn set_args(&mut self, args: String)
        ensures
            final(self).args_view() == args@,
            final(self).paths_view() == old(self).paths_view(),
            final(self).name_view() == old(self).name_view(),
            final(self).is_active() == old(self).is_active(),
    {
        self.args = args;
    }

    /// Takes `name` as the name of the group unless it is empty: a group is
    /// never given an empty name. Tells whether the name was taken.
    pub fn offer_name(&mut self, name: String) -> (taken: bool)
        ensures
            taken == (name@.len() > 0),
            taken ==> final(self).name_view() == name@,
            !taken ==> final(self).name_view() == old(self).name_view(),
            final(self).paths_view() == old(self).paths_view(),
            final(self).args_view() == old(self).args_view(),
            final(self).is_active() == old(self).is_active(),
    {
        if name.as_str().is_empty() {
            false
        } else {
            self.name = name;
            true
        }
    }

    /// The check-box list from which the files of a new group are picked:
    /// every file of the folder, marked when it is a `.tex` or `.latex` file.
    pub fn path_box(paths: Vec<PathBuffer>) -> (b: CheckBox<PathBuffer>)
        ensures
            b.wf(),
            b.entries() == paths@,
            b.marking() == paths@.map_values(|p: PathBuffer| tex_source(p.0@)),
            b.row_at() == 0,
            !b.warning_shown(),
    {
        let mut marks: Vec<bool> = Vec::new();
        let n = paths.len();
        let mut i: usize = 0;
        while i < n
            invariant
                n == paths@.len(),
                i <= n,
                marks@ == paths@.take(i as int).map_values(|p: PathBuffer| tex_source(p.0@)),
            decreases n - i,
        {
            let m = paths[i].is_tex_source();
            marks.push(m);
            i = i + 1;
            assert(marks@ =~= paths@.take(i as int).map_values(|p: PathBuffer| tex_source(p.0@)));
        }
        assert(paths@.take(n as int) =~= paths@);
        CheckBox::with_marks(paths, marks)
    }

    /// The text that shows the group: its name, drawn bold and blue, the
    /// list of its files, and its arguments.
    pub fn describe(&self) -> (text: String)
        ensures
            exists|title: Seq<char>|
                drawn_bold_blue(self.name_view(), title) && text@ == pin_text(
                    title,
                    self.paths_view(),
                    self.args_view(),
                ),
    {
        let mut out = String::new();
        out.append("\n\t┍─");
        let title = bold_blue(self.name.as_str());
        out.append(title.as_str());
        out.append("──");
        let ghost head = out@;
        let n = self.paths.len();
        let mut i: usize = 0;
        assert(self.paths@.take(0) =~= Seq::<PathBuffer>::empty());
        assert(out@ =~= head + path_lines(self.paths@.take(0)));
        while i < n
            invariant
                n == self.paths@.len(),
                i <= n,
                out@ == head + path_lines(self.paths@.take(i as int)),
            decreases n - i,
        {
            let ghost before = out@;
            out.append("\n\t│ ");
            out.append(self.paths[i].0.as_str());
            i = i + 1;
            assert(self.paths@.take(i as int).drop_last() =~= self.paths@.take(i - 1));
            assert(out@ =~= head + path_lines(self.paths@.take(i as int)));
        }
        assert(self.paths@.take(n as int) =~= self.paths@);
        out.append("\n\t┖──\n\tgroup gets applied as latex ");
        out.append(self.args.as_str());
        out.append(" [filename]");
        assert(out@ =~= pin_text(title@, self.paths@, self.args@));
        assert(drawn_bold_blue(self.name_view(), title@) && out@ == pin_text(
            title@,
            self.paths_view(),
            self.args_view(),
        ));
        out
    }
}

} // verus!
