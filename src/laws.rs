//! What holds of the browser over every state and every sequence of events.
use vstd::prelude::*;
use crate::entry::EntryView;
use crate::pattern::{filtered, keeps, effective, regex_compiles, filtered_is_ordered_subsequence};
use crate::browser::{
    Model, Key, Mode, Pending, CommandView, inv, shown, settle, key_effect, key_step, listed_step,
    preview_step, initial, index_ok, path_of, first_named, is_first_named,
};

verus! {

/// The render pass leaves a state whose pattern compiles (or is empty) and
/// whose selection is within the shown entries.
proof fn lemma_settle(t: Model)
    requires
        index_ok(t.preview_line, t.preview_length),
        t.pending == Pending::Ascend ==> t.cwd.len() > 0,
    ensures
        inv(settle(t)),
{
}

/// A session starts in a state where the invariant holds.
pub proof fn initial_state_is_valid(cwd: Seq<Seq<char>>, contents: Seq<EntryView>)
    ensures
        inv(initial(cwd, contents)),
{
}

/// Whatever happens (a key, a listing delivered or failed, a new preview),
/// the selection stays within the shown entries, or is 0 where none is shown,
/// and so does the preview selection within the preview.
pub proof fn selection_stays_in_bounds(s: Model, k: Key, l: Option<Seq<EntryView>>, n: int)
    requires
        inv(s),
        n >= 0,
    ensures
        inv(key_step(s, k).0),
        inv(listed_step(s, l).0),
        inv(preview_step(s, n)),
        index_ok(key_step(s, k).0.selected, shown(key_step(s, k).0).len() as int),
        index_ok(listed_step(s, l).0.selected, shown(listed_step(s, l).0).len() as int),
{
    lemma_settle(key_effect(s, k).0);
    if let Some(l) = l {
        if s.pending == Pending::Descend || s.pending == Pending::Ascend {
            let s0 = Model { pending: Pending::Idle, ..s };
            let t = settle(Model { cwd: s.target, contents: l, preview_line: 0, ..s0 });
            lemma_settle(Model { cwd: s.target, contents: l, preview_line: 0, ..s0 });
            lemma_settle(
                Model {
                    cwd: s.target,
                    contents: l,
                    input: seq![],
                    mode: Mode::Browsing,
                    selected: 0,
                    preview_line: 0,
                    ..s0
                },
            );
            if let Some(i) = first_named(shown(t), s.cwd.last()) {
                assert(is_first_named(shown(t), s.cwd.last(), i));
            }
        }
    }
}

/// A pattern that does not compile is cleared by the render pass, and then
/// every entry of the listing is shown.
pub proof fn invalid_pattern_shows_everything(s: Model)
    requires
        s.input.len() > 0,
        !regex_compiles(s.input),
    ensures
        settle(s).input == Seq::<char>::empty(),
        shown(settle(s)) == s.contents,
{
    filtered_is_ordered_subsequence(s.contents, seq![]);
    assert(settle(s).input =~= Seq::<char>::empty());
}

/// No two entries of `l` share a name, as in one directory's listing.
pub open spec fn unique_names(l: Seq<EntryView>) -> bool {
    forall|i: int, j: int| 0 <= i < l.len() && 0 <= j < l.len() && l[i].0 == l[j].0 ==> i == j
}

/// An entry of the listing that the pattern lets through is shown, and
/// filtering keeps names unique.
proof fn lemma_filtered_keeps(l: Seq<EntryView>, p: Seq<char>, e: EntryView)
    requires
        l.contains(e),
        keeps(p, e),
        unique_names(l),
    ensures
        filtered(l, p).contains(e),
        unique_names(filtered(l, p)),
    decreases l.len(),
{
    let rest = filtered(l.drop_last(), p);
    let idx = filtered_is_ordered_subsequence(l, p);
    let f = filtered(l, p);
    assert forall|i: int, j: int| 0 <= i < f.len() && 0 <= j < f.len() && f[i].0 == f[j].0 implies i == j by {
        assert(f[i] == l[idx[i]] && f[j] == l[idx[j]]);
        if i < j {
            assert(idx[i] < idx[j]);
        } else if j < i {
            assert(idx[j] < idx[i]);
        }
    }
    if l.last() == e {
        assert(f == rest.push(e));
        assert(f[f.len() - 1] == e);
    } else {
        let k = choose|k: int| 0 <= k < l.len() && l[k] == e;
        assert(k != l.len() - 1);
        assert(l.drop_last()[k] == e);
        assert forall|i: int, j: int|
            0 <= i < l.drop_last().len() && 0 <= j < l.drop_last().len() && l.drop_last()[i].0
                == l.drop_last()[j].0 implies i == j by {
            assert(l.drop_last()[i] == l[i] && l.drop_last()[j] == l[j]);
        }
        lemma_filtered_keeps(l.drop_last(), p, e);
        let m = choose|m: int| 0 <= m < rest.len() && rest[m] == e;
        if keeps(p, l.last()) {
            assert(f[m] == e);
        }
    }
}

/// Going up and then back into the directory just left: going up selects
/// that directory where the new listing shows it, and entering it returns to
/// the working directory of the start.
pub proof fn up_then_in_restores(s: Model, l: Seq<EntryView>, l2: Seq<EntryView>)
    requires
        inv(s),
        s.mode == Mode::Browsing,
        s.cwd.len() > 0,
        unique_names(l),
        l.contains((s.cwd.last(), true)),
        keeps(s.input, (s.cwd.last(), true)),
    ensures
        key_step(s, Key::Backspace).1 == CommandView::List(s.cwd.drop_last()),
        ({
            let s2 = listed_step(key_step(s, Key::Backspace).0, Some(l)).0;
            &&& s2.cwd == s.cwd.drop_last()
            &&& shown(s2)[s2.selected] == (s.cwd.last(), true)
            &&& key_step(s2, Key::Enter).1 == CommandView::List(s.cwd)
            &&& listed_step(key_step(s2, Key::Enter).0, Some(l2)).0.cwd == s.cwd
        }),
{
    let e = (s.cwd.last(), true);
    let s1 = key_step(s, Key::Backspace).0;
    assert(s1.pending == Pending::Ascend && s1.target == s.cwd.drop_last() && s1.cwd == s.cwd);
    let s0 = Model { pending: Pending::Idle, ..s1 };
    let t = settle(Model { cwd: s1.target, contents: l, preview_line: 0, ..s0 });
    assert(t.input == s.input);
    lemma_filtered_keeps(l, s.input, e);
    let k = choose|k: int| 0 <= k < shown(t).len() && shown(t)[k] == e;
    assert forall|j: int| 0 <= j < k implies shown(t)[j].0 != e.0 by {}
    assert(is_first_named(shown(t), e.0, k));
    let i = choose|i: int| is_first_named(shown(t), e.0, i);
    assert(is_first_named(shown(t), e.0, i));
    let s2 = listed_step(s1, Some(l)).0;
    assert(s2 == Model { selected: i, ..t });
    assert(path_of(s2, s2.selected) =~= s.cwd);
    lemma_settle(Model { cwd: s1.target, contents: l, preview_line: 0, ..s0 });
    assert(shown(s2).len() > 0);
}

/// `y` ends the session, handing over the path of the selected entry where
/// one is shown; `q` ends it with nothing to hand over.
pub proof fn yank_and_quit_end_the_session(s: Model)
    requires
        inv(s),
        s.mode != Mode::Searching,
    ensures
        !key_step(s, Key::Char('y')).0.running,
        shown(s).len() > 0 ==> key_step(s, Key::Char('y')).1 == CommandView::Yank(
            s.cwd.push(shown(s)[s.selected].0),
        ),
        shown(s).len() == 0 ==> key_step(s, Key::Char('y')).1 == CommandView::Quit,
        !key_step(s, Key::Char('q')).0.running,
        key_step(s, Key::Char('q')).1 == CommandView::Quit,
{
}

} // verus!
