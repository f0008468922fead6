//! The browser's state machine. Keys and directory listings come in,
//! commands go out; listing, previewing and the clipboard are the caller's.
//! A path is the sequence of its components below the root.
use vstd::prelude::*;
use crate::entry::{Entry, EntryView, entries_view, names_view};
use crate::pattern::{filter_entries, filtered, effective};

verus! {

/// What the keys currently act on.
#[derive(PartialEq, Eq, Structural, Clone, Copy, Debug)]
pub enum Mode {
    /// Moving through the browse list.
    Browsing,
    /// Editing the filter pattern.
    Searching,
    /// Scrolling the preview list.
    Previewing,
}

/// A key press.
#[derive(PartialEq, Eq, Structural, Clone, Copy, Debug)]
pub enum Key {
    Char(char),
    Enter,
    Escape,
    Backspace,
    Other,
}

/// A navigation whose listing has been asked for and not yet delivered.
#[derive(PartialEq, Eq, Structural, Clone, Copy, Debug)]
pub enum Pending {
    Idle,
    /// Entering the target directory.
    Descend,
    /// Going up to the target, the parent of the working directory.
    Ascend,
    /// Listing the previewed directory, to enter the child at the preview index.
    Hop,
}

/// What the caller is to do next.
#[derive(Debug, PartialEq, Eq)]
pub enum Command {
    /// Nothing: render and wait for the next key.
    Continue,
    /// End the session with nothing for the clipboard.
    Quit,
    /// End the session, handing this path to the clipboard.
    Yank(Vec<String>),
    /// List this directory and hand the result to `listed`.
    List(Vec<String>),
}

pub enum CommandView {
    Continue,
    Quit,
    Yank(Seq<Seq<char>>),
    List(Seq<Seq<char>>),
}

impl View for Command {
    type V = CommandView;

    open spec fn view(&self) -> CommandView {
        match self {
            Command::Continue => CommandView::Continue,
            Command::Quit => CommandView::Quit,
            Command::Yank(p) => CommandView::Yank(names_view(p@)),
            Command::List(p) => CommandView::List(names_view(p@)),
        }
    }
}

/// The browser's state as values.
pub struct Model {
    pub cwd: Seq<Seq<char>>,
    pub contents: Seq<EntryView>,
    pub input: Seq<char>,
    pub mode: Mode,
    pub selected: int,
    pub preview_line: int,
    pub preview_length: int,
    pub running: bool,
    pub pending: Pending,
    pub target: Seq<Seq<char>>,
}

/// The entries on show: the listing under the filter.
pub open spec fn shown(s: Model) -> Seq<EntryView> {
    filtered(s.contents, s.input)
}

/// An index into a list of `n` rows is in bounds, or 0 where the list is empty.
pub open spec fn index_ok(i: int, n: int) -> bool {
    (n == 0 && i == 0) || (0 <= i < n)
}

/// What holds of every state the browser is in between calls.
pub open spec fn inv(s: Model) -> bool {
    &&& effective(s.input) == s.input
    &&& index_ok(s.selected, shown(s).len() as int)
    &&& index_ok(s.preview_line, s.preview_length)
    &&& s.pending == Pending::Ascend ==> s.cwd.len() > 0
}

/// The state at the start of a session in `cwd`, listed as `contents`.
pub open spec fn initial(cwd: Seq<Seq<char>>, contents: Seq<EntryView>) -> Model {
    Model {
        cwd,
        contents,
        input: seq![],
        mode: Mode::Browsing,
        selected: 0,
        preview_line: 0,
        preview_length: 0,
        running: true,
        pending: Pending::Idle,
        target: seq![],
    }
}

/// The render pass: a pattern that does not compile is cleared, and a
/// selection that fell out of the shown entries goes back to 0.
pub open spec fn settle(s: Model) -> Model {
    let input = effective(s.input);
    let n = filtered(s.contents, input).len() as int;
    Model { input, selected: if 0 <= s.selected < n { s.selected } else { 0 }, ..s }
}

/// One row down in a list of `n` rows, staying on the last one.
pub open spec fn step_down(i: int, n: int) -> int {
    if n > 0 && i < n - 1 { i + 1 } else { i }
}

/// One row up, staying on the first one.
pub open spec fn step_up(i: int) -> int {
    if i > 0 { i - 1 } else { i }
}

/// The path of entry `i` of the shown entries.
pub open spec fn path_of(s: Model, i: int) -> Seq<Seq<char>> {
    s.cwd.push(shown(s)[i].0)
}

/// What a key does before the render pass.
pub open spec fn key_effect(s: Model, k: Key) -> (Model, CommandView) {
    let s0 = Model { pending: Pending::Idle, ..s };
    let n = shown(s).len() as int;
    match k {
        Key::Char(c) => if s.mode == Mode::Searching {
            (Model { input: s.input.push(c), ..s0 }, CommandView::Continue)
        } else if c == 'q' {
            (Model { running: false, ..s0 }, CommandView::Quit)
        } else if c == 'i' {
            if s.mode == Mode::Browsing {
                (Model { mode: Mode::Searching, ..s0 }, CommandView::Continue)
            } else {
                (s0, CommandView::Continue)
            }
        } else if c == 'j' {
            if s.mode == Mode::Browsing {
                (Model { selected: step_down(s.selected, n), ..s0 }, CommandView::Continue)
            } else {
                (Model { preview_line: step_down(s.preview_line, s.preview_length), ..s0 }, CommandView::Continue)
            }
        } else if c == 'k' {
            if s.mode == Mode::Browsing {
                (Model { selected: step_up(s.selected), ..s0 }, CommandView::Continue)
            } else {
                (Model { preview_line: step_up(s.preview_line), ..s0 }, CommandView::Continue)
            }
        } else if c == 'y' {
            if n > 0 {
                (Model { running: false, ..s0 }, CommandView::Yank(path_of(s, s.selected)))
            } else {
                (Model { running: false, ..s0 }, CommandView::Quit)
            }
        } else if c == 'l' {
            if s.mode == Mode::Browsing {
                (Model { mode: Mode::Previewing, preview_line: 0, ..s0 }, CommandView::Continue)
            } else {
                (s0, CommandView::Continue)
            }
        } else if c == 'h' {
            if s.mode == Mode::Previewing {
                (Model { mode: Mode::Browsing, selected: 0, ..s0 }, CommandView::Continue)
            } else {
                (s0, CommandView::Continue)
            }
        } else {
            (s0, CommandView::Continue)
        },
        Key::Escape => if s.mode == Mode::Searching {
            (Model { mode: Mode::Browsing, input: seq![], ..s0 }, CommandView::Continue)
        } else {
            (s0, CommandView::Continue)
        },
        Key::Backspace => if s.mode == Mode::Searching {
            let input = if s.input.len() > 0 { s.input.drop_last() } else { s.input };
            (Model { input, ..s0 }, CommandView::Continue)
        } else if s.cwd.len() > 0 {
            let up = s.cwd.drop_last();
            (Model { pending: Pending::Ascend, target: up, ..s0 }, CommandView::List(up))
        } else {
            (s0, CommandView::Continue)
        },
        Key::Enter => if s.mode == Mode::Searching {
            (Model { mode: Mode::Browsing, ..s0 }, CommandView::Continue)
        } else if n > 0 && shown(s)[s.selected].1 {
            let into = path_of(s, s.selected);
            let pending = if s.mode == Mode::Browsing { Pending::Descend } else { Pending::Hop };
            (Model { pending, target: into, ..s0 }, CommandView::List(into))
        } else {
            (s0, CommandView::Continue)
        },
        Key::Other => (s0, CommandView::Continue),
    }
}

/// The path of the selected entry, where an entry is shown.
pub open spec fn focus(s: Model) -> Option<Seq<Seq<char>>> {
    if shown(s).len() > 0 {
        Some(path_of(s, s.selected))
    } else {
        None
    }
}

/// `u`, coming after `s`, with the preview selection back at 0 where the
/// selected entry is another one.
pub open spec fn track(s: Model, u: Model) -> Model {
    if focus(u) == focus(s) {
        u
    } else {
        Model { preview_line: 0, ..u }
    }
}

/// What a key does: its effect, then the render pass; a change of the
/// selected entry resets the preview selection.
pub open spec fn key_step(s: Model, k: Key) -> (Model, CommandView) {
    let (t, c) = key_effect(s, k);
    (track(s, settle(t)), c)
}

/// The index of the first entry of `l` named `name`, if there is one.
pub open spec fn first_named(l: Seq<EntryView>, name: Seq<char>) -> Option<int> {
    if exists|i: int| is_first_named(l, name, i) {
        Some(choose|i: int| is_first_named(l, name, i))
    } else {
        None
    }
}

pub open spec fn is_first_named(l: Seq<EntryView>, name: Seq<char>, i: int) -> bool {
    &&& 0 <= i < l.len()
    &&& l[i].0 == name
    &&& forall|j: int| 0 <= j < i ==> l[j].0 != name
}

/// What the listing of the target does to a pending navigation. A failed
/// listing drops the navigation and leaves the state as it was.
pub open spec fn listed_step(s: Model, l: Option<Seq<EntryView>>) -> (Model, CommandView) {
    let s0 = Model { pending: Pending::Idle, ..s };
    match l {
        None => (s0, CommandView::Continue),
        Some(l) => match s.pending {
            Pending::Idle => (s, CommandView::Continue),
            Pending::Descend => (
                settle(
                    Model {
                        cwd: s.target,
                        contents: l,
                        input: seq![],
                        mode: Mode::Browsing,
                        selected: 0,
                        preview_line: 0,
                        ..s0
                    },
                ),
                CommandView::Continue,
            ),
            Pending::Hop => if 0 <= s.preview_line < l.len() {
                let into = s.target.push(l[s.preview_line].0);
                (Model { pending: Pending::Descend, target: into, ..s }, CommandView::List(into))
            } else {
                (s0, CommandView::Continue)
            },
            Pending::Ascend => {
                let t = settle(Model { cwd: s.target, contents: l, preview_line: 0, ..s0 });
                match first_named(shown(t), s.cwd.last()) {
                    Some(i) => (Model { selected: i, ..t }, CommandView::Continue),
                    None => (t, CommandView::Continue),
                }
            },
        },
    }
}

/// The preview of the selected entry now has `n` lines.
pub open spec fn preview_step(s: Model, n: int) -> Model {
    Model { preview_length: n, preview_line: if s.preview_line < n { s.preview_line } else { 0 }, ..s }
}

pub open spec fn path_option_view(p: Option<Vec<String>>) -> Option<Seq<Seq<char>>> {
    match p {
        Some(v) => Some(names_view(v@)),
        None => None,
    }
}

pub open spec fn listing_view(l: Option<Vec<Entry>>) -> Option<Seq<EntryView>> {
    match l {
        Some(v) => Some(entries_view(v@)),
        None => None,
    }
}

/// The browser: a working directory and its listing, the filter, the
/// browse and preview selections, and the mode.
pub struct Application {
    cwd: Vec<String>,
    contents: Vec<Entry>,
    filtered: Vec<Entry>,
    input: Vec<char>,
    mode: Mode,
    selected: usize,
    preview_line: usize,
    preview_length: usize,
    running: bool,
    pending: Pending,
    target: Vec<String>,
}

impl View for Application {
    type V = Model;

    closed spec fn view(&self) -> Model {
        Model {
            cwd: names_view(self.cwd@),
            contents: entries_view(self.contents@),
            input: self.input@,
            mode: self.mode,
            selected: self.selected as int,
            preview_line: self.preview_line as int,
            preview_length: self.preview_length as int,
            running: self.running,
            pending: self.pending,
            target: names_view(self.target@),
        }
    }
}

/// A copy of a path.
fn copy_path(p: &Vec<String>) -> (r: Vec<String>)
    ensures
        names_view(r@) == names_view(p@),
{
    let mut r: Vec<String> = Vec::new();
    let mut i: usize = 0;
    while i < p.len()
        invariant
            i <= p.len(),
            names_view(r@) == names_view(p@.take(i as int)),
        decreases p.len() - i,
    {
        let s = p[i].clone();
        let ghost before = r@;
        r.push(s);
        assert(r@ == before.push(p@[i as int]));
        assert(names_view(r@) =~= names_view(before).push(p@[i as int]@));
        assert(names_view(p@.take(i as int + 1)) =~= names_view(p@.take(i as int)).push(p@[i as int]@));
        i = i + 1;
    }
    assert(p@.take(p.len() as int) =~= p@);
    r
}

/// Whether two paths are the same.
fn same_path(a: &Vec<String>, b: &Vec<String>) -> (r: bool)
    ensures
        r == (names_view(a@) == names_view(b@)),
{
    if a.len() != b.len() {
        assert(names_view(a@).len() != names_view(b@).len());
        return false;
    }
    let mut i: usize = 0;
    while i < a.len()
        invariant
            i <= a.len(),
            a.len() == b.len(),
            forall|j: int| 0 <= j < i ==> a@[j]@ == b@[j]@,
        decreases a.len() - i,
    {
        if a[i] != b[i] {
            assert(names_view(a@)[i as int] != names_view(b@)[i as int]);
            return false;
        }
        i = i + 1;
    }
    assert(names_view(a@) =~= names_view(b@));
    true
}

/// Whether two selections name the same path.
fn same_focus(a: &Option<Vec<String>>, b: &Option<Vec<String>>) -> (r: bool)
    ensures
        r == (path_option_view(*a) == path_option_view(*b)),
{
    match (a, b) {
        (Some(x), Some(y)) => same_path(x, y),
        (None, None) => true,
        _ => false,
    }
}

/// `i` is the first index of an entry named `name`.
proof fn lemma_first_named(l: Seq<EntryView>, name: Seq<char>, i: int)
    requires
        is_first_named(l, name, i),
    ensures
        first_named(l, name) == Some(i),
{
    let k = choose|k: int| is_first_named(l, name, k);
    assert(is_first_named(l, name, k));
    if k < i {
        assert(l[k].0 != name);
    } else if k > i {
        assert(l[i].0 != name);
    }
}

/// The index of the first entry of `l` named `name`, if there is one.
fn find_named(l: &Vec<Entry>, name: &String) -> (r: Option<usize>)
    ensures
        r matches Some(i) ==> first_named(entries_view(l@), name@) == Some(i as int),
        r is None ==> first_named(entries_view(l@), name@) is None,
{
    let ghost lv = entries_view(l@);
    let mut i: usize = 0;
    while i < l.len()
        invariant
            i <= l.len(),
            lv == entries_view(l@),
            forall|j: int| 0 <= j < i ==> lv[j].0 != name@,
        decreases l.len() - i,
    {
        if l[i].name == *name {
            proof {
                lemma_first_named(lv, name@, i as int);
            }
            return Some(i);
        }
        i = i + 1;
    }
    proof {
        if exists|k: int| is_first_named(lv, name@, k) {
            let k = choose|k: int| is_first_named(lv, name@, k);
            assert(lv[k].0 != name@);
        }
    }
    None
}

impl Application {
    /// The fields agree with the model, and the model's invariant holds.
    pub closed spec fn wf(&self) -> bool {
        &&& inv(self@)
        &&& entries_view(self.filtered@) == shown(self@)
    }

    /// A session in `cwd`, whose listing is `contents`.
    pub fn new(cwd: Vec<String>, contents: Vec<Entry>) -> (r: Application)
        ensures
            r.wf(),
            inv(r@),
            r@ == initial(names_view(cwd@), entries_view(contents@)),
    {
        let mut a = Application {
            cwd,
            contents,
            filtered: Vec::new(),
            input: Vec::new(),
            mode: Mode::Browsing,
            selected: 0,
            preview_line: 0,
            preview_length: 0,
            running: true,
            pending: Pending::Idle,
            target: Vec::new(),
        };
        assert(a@.input =~= seq![]);
        assert(a@.target =~= seq![]);
        a.refresh();
        a
    }

    /// The render pass: filter the listing again, clear a pattern that does
    /// not compile, and bring the selection back into the shown entries.
    fn refresh(&mut self)
        requires
            index_ok(old(self).preview_line as int, old(self).preview_length as int),
            old(self).pending == Pending::Ascend ==> old(self).cwd.len() > 0,
        ensures
            final(self)@ == settle(old(self)@),
            final(self).wf(),
    {
        match filter_entries(&self.contents, &self.input) {
            Some(v) => {
                self.filtered = v;
            },
            None => {
                self.input = Vec::new();
                assert(self.input@ =~= seq![]);
                match filter_entries(&self.contents, &self.input) {
                    Some(v) => {
                        self.filtered = v;
                    },
                    None => {},
                }
            },
        }
        if self.selected >= self.filtered.len() {
            self.selected = 0;
        }
    }

    /// The path of the selected entry.
    fn selected_path_of(&self) -> (r: Vec<String>)
        requires
            self.wf(),
            self.filtered.len() > 0,
        ensures
            names_view(r@) == path_of(self@, self.selected as int),
    {
        let mut p = copy_path(&self.cwd);
        p.push(self.filtered[self.selected].name.clone());
        assert(names_view(p@) =~= path_of(self@, self.selected as int));
        p
    }

    /// What a key does, before the render pass.
    fn apply_key(&mut self, key: Key) -> (c: Command)
        requires
            old(self).wf(),
        ensures
            (final(self)@, c@) == key_effect(old(self)@, key),
            index_ok(final(self).preview_line as int, final(self).preview_length as int),
            final(self).pending == Pending::Ascend ==> final(self).cwd.len() > 0,
    {
        self.pending = Pending::Idle;
        match key {
            Key::Char(c) => {
                if self.mode == Mode::Searching {
                    self.input.push(c);
                    Command::Continue
                } else if c == 'q' {
                    self.running = false;
                    Command::Quit
                } else if c == 'i' {
                    if self.mode == Mode::Browsing {
                        self.mode = Mode::Searching;
                    }
                    Command::Continue
                } else if c == 'j' {
                    if self.mode == Mode::Browsing {
                        if self.filtered.len() > 0 && self.selected < self.filtered.len() - 1 {
                            self.selected = self.selected + 1;
                        }
                    } else if self.preview_length > 0 && self.preview_line < self.preview_length - 1 {
                        self.preview_line = self.preview_line + 1;
                    }
                    Command::Continue
                } else if c == 'k' {
                    if self.mode == Mode::Browsing {
                        if self.selected > 0 {
                            self.selected = self.selected - 1;
                        }
                    } else if self.preview_line > 0 {
                        self.preview_line = self.preview_line - 1;
                    }
                    Command::Continue
                } else if c == 'y' {
                    self.running = false;
                    if self.filtered.len() > 0 {
                        Command::Yank(self.selected_path_of())
                    } else {
                        Command::Quit
                    }
                } else if c == 'l' {
                    if self.mode == Mode::Browsing {
                        self.mode = Mode::Previewing;
                        self.preview_line = 0;
                    }
                    Command::Continue
                } else if c == 'h' {
                    if self.mode == Mode::Previewing {
                        self.mode = Mode::Browsing;
                        self.selected = 0;
                    }
                    Command::Continue
                } else {
                    Command::Continue
                }
            },
            Key::Escape => {
                if self.mode == Mode::Searching {
                    self.mode = Mode::Browsing;
                    self.input = Vec::new();
                    assert(self.input@ =~= seq![]);
                }
                Command::Continue
            },
            Key::Backspace => {
                if self.mode == Mode::Searching {
                    self.input.pop();
                    Command::Continue
                } else if self.cwd.len() > 0 {
                    let mut up = copy_path(&self.cwd);
                    up.pop();
                    assert(names_view(up@) =~= names_view(self.cwd@).drop_last());
                    self.pending = Pending::Ascend;
                    self.target = copy_path(&up);
                    Command::List(up)
                } else {
                    Command::Continue
                }
            },
            Key::Enter => {
                if self.mode == Mode::Searching {
                    self.mode = Mode::Browsing;
                    Command::Continue
                } else if self.filtered.len() > 0 && self.filtered[self.selected].is_dir {
                    let into = self.selected_path_of();
                    self.pending = if self.mode == Mode::Browsing {
                        Pending::Descend
                    } else {
                        Pending::Hop
                    };
                    self.target = copy_path(&into);
                    Command::List(into)
                } else {
                    Command::Continue
                }
            },
            Key::Other => Command::Continue,
        }
    }

    /// Handle one key: its effect, then the render pass.
    pub fn handle_key(&mut self, key: Key) -> (c: Command)
        requires
            old(self).wf(),
        ensures
            final(self).wf(),
            inv(final(self)@),
            (final(self)@, c@) == key_step(old(self)@, key),
    {
        let before = self.selected_path();
        let c = self.apply_key(key);
        self.refresh();
        let after = self.selected_path();
        if !same_focus(&before, &after) {
            self.preview_line = 0;
        }
        c
    }

    /// Hand over the listing that the last `Command::List` asked for, or
    /// `None` where it could not be read.
    pub fn listed(&mut self, listing: Option<Vec<Entry>>) -> (c: Command)
        requires
            old(self).wf(),
        ensures
            final(self).wf(),
            inv(final(self)@),
            (final(self)@, c@) == listed_step(old(self)@, listing_view(listing)),
    {
        match listing {
            None => {
                self.pending = Pending::Idle;
                Command::Continue
            },
            Some(l) => match self.pending {
                Pending::Idle => Command::Continue,
                Pending::Descend => {
                    self.cwd = copy_path(&self.target);
                    self.contents = l;
                    self.input = Vec::new();
                    assert(self.input@ =~= seq![]);
                    self.mode = Mode::Browsing;
                    self.selected = 0;
                    self.preview_line = 0;
                    self.pending = Pending::Idle;
                    self.refresh();
                    Command::Continue
                },
                Pending::Hop => {
                    if self.preview_line < l.len() {
                        let mut into = copy_path(&self.target);
                        into.push(l[self.preview_line].name.clone());
                        assert(names_view(into@) =~= names_view(self.target@).push(
                            entries_view(l@)[self.preview_line as int].0,
                        ));
                        self.target = copy_path(&into);
                        self.pending = Pending::Descend;
                        Command::List(into)
                    } else {
                        self.pending = Pending::Idle;
                        Command::Continue
                    }
                },
                Pending::Ascend => {
                    let left = self.cwd[self.cwd.len() - 1].clone();
                    assert(left@ == old(self)@.cwd.last());
                    self.cwd = copy_path(&self.target);
                    self.contents = l;
                    self.pending = Pending::Idle;
                    self.preview_line = 0;
                    self.refresh();
                    match find_named(&self.filtered, &left) {
                        Some(i) => {
                            self.selected = i;
                        },
                        None => {},
                    }
                    Command::Continue
                },
            },
        }
    }

    /// The preview of the selected entry now has `n` lines; a preview
    /// selection past its end goes back to 0.
    pub fn set_preview_length(&mut self, n: usize)
        requires
            old(self).wf(),
        ensures
            final(self).wf(),
            inv(final(self)@),
            final(self)@ == preview_step(old(self)@, n as int),
    {
        self.preview_length = n;
        if self.preview_line >= n {
            self.preview_line = 0;
        }
    }
    /// The working directory.
    pub fn cwd(&self) -> (r: &Vec<String>)
        ensures
            names_view(r@) == self@.cwd,
    {
        &self.cwd
    }

    /// The listing of the working directory.
    pub fn contents(&self) -> (r: &Vec<Entry>)
        ensures
            entries_view(r@) == self@.contents,
    {
        &self.contents
    }

    /// The entries on show: the listing under the filter.
    pub fn shown_entries(&self) -> (r: &Vec<Entry>)
        requires
            self.wf(),
        ensures
            entries_view(r@) == shown(self@),
    {
        &self.filtered
    }

    /// The filter pattern.
    pub fn input(&self) -> (r: &Vec<char>)
        ensures
            r@ == self@.input,
    {
        &self.input
    }

    pub fn mode(&self) -> (r: Mode)
        ensures
            r == self@.mode,
    {
        self.mode
    }

    /// The index of the selected entry among the shown ones.
    pub fn selected(&self) -> (r: usize)
        ensures
            r == self@.selected,
    {
        self.selected
    }

    /// The index of the selected line of the preview.
    pub fn preview_line(&self) -> (r: usize)
        ensures
            r == self@.preview_line,
    {
        self.preview_line
    }

    /// The number of lines of the preview.
    pub fn preview_length(&self) -> (r: usize)
        ensures
            r == self@.preview_length,
    {
        self.preview_length
    }

    /// Whether the session goes on.
    pub fn is_running(&self) -> (r: bool)
        ensures
            r == self@.running,
    {
        self.running
    }

    /// The path of the selected entry, where an entry is shown.
    pub fn selected_path(&self) -> (r: Option<Vec<String>>)
        requires
            self.wf(),
        ensures
            path_option_view(r) == focus(self@),
    {
        if self.filtered.len() > 0 {
            Some(self.selected_path_of())
        } else {
            None
        }
    }
}

} // verus!
