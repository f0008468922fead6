//! The live filter: a regular expression over entry names.
use vstd::prelude::*;
use crate::entry::{Entry, EntryView, entries_view};

verus! {

#[verifier::external_type_specification]
#[verifier::external_body]
pub struct ExRegex(regex::Regex);

#[verifier::external_type_specification]
#[verifier::external_body]
pub struct ExRegexError(regex::Error);

/// Whether the regex crate accepts `p` as a pattern.
pub uninterp spec fn regex_compiles(p: Seq<char>) -> bool;

/// Whether the compiled pattern `p` matches somewhere in `t`.
pub uninterp spec fn regex_match(p: Seq<char>, t: Seq<char>) -> bool;

/// A compiled pattern together with the text it was compiled from.
/// Only `compile` builds one, so `re` is always the compilation of `source`.
pub struct Matcher {
    re: regex::Regex,
    source: Vec<char>,
}

impl Matcher {
    /// The text this matcher was compiled from.
    pub closed spec fn pattern(&self) -> Seq<char> {
        self.source@
    }
}

/// Relies on regex::Regex::new: it succeeds exactly when the pattern is
/// accepted, which depends on the pattern alone.
#[verifier::external_body]
fn compile(p: &Vec<char>) -> (r: Result<Matcher, regex::Error>)
    ensures
        r is Ok <==> regex_compiles(p@),
        r matches Ok(m) ==> m.pattern() == p@,
{
    let s: String = p.iter().collect();
    match regex::Regex::new(&s) {
        Ok(re) => Ok(Matcher { re, source: p.clone() }),
        Err(e) => Err(e),
    }
}

/// Relies on regex::Regex::is_match: whether the pattern matches anywhere in
/// the text, which depends on the pattern and the text alone.
#[verifier::external_body]
fn matches_text(m: &Matcher, t: &str) -> (r: bool)
    ensures
        r == regex_match(m.pattern(), t@),
{
    m.re.is_match(t)
}

/// Whether the filter `p` lets an entry through: the empty pattern lets
/// every entry through, another one the entries whose name it matches.
pub open spec fn keeps(p: Seq<char>, e: EntryView) -> bool {
    p.len() == 0 || regex_match(p, e.0)
}

/// The entries of `l` that `p` lets through, in their order in `l`.
pub open spec fn filtered(l: Seq<EntryView>, p: Seq<char>) -> Seq<EntryView>
    decreases l.len(),
{
    if l.len() == 0 {
        seq![]
    } else {
        let rest = filtered(l.drop_last(), p);
        if keeps(p, l.last()) {
            rest.push(l.last())
        } else {
            rest
        }
    }
}

/// The pattern that takes effect: one that does not compile is dropped in
/// favour of the empty pattern, which lets everything through.
pub open spec fn effective(p: Seq<char>) -> Seq<char> {
    if p.len() == 0 || regex_compiles(p) {
        p
    } else {
        seq![]
    }
}

/// The entries that `pattern` lets through, or `None` where the pattern is
/// not empty and does not compile.
pub fn filter_entries(entries: &Vec<Entry>, pattern: &Vec<char>) -> (r: Option<Vec<Entry>>)
    ensures
        r is None <==> (pattern@.len() > 0 && !regex_compiles(pattern@)),
        r matches Some(v) ==> entries_view(v@) == filtered(entries_view(entries@), pattern@),
{
    let mut matcher: Option<Matcher> = None;
    if pattern.len() > 0 {
        match compile(pattern) {
            Ok(m) => {
                matcher = Some(m);
            },
            Err(_) => {
                return None;
            },
        }
    }
    let mut out: Vec<Entry> = Vec::new();
    let mut i: usize = 0;
    while i < entries.len()
        invariant
            i <= entries.len(),
            pattern@.len() > 0 <==> matcher is Some,
            matcher matches Some(m) ==> m.pattern() == pattern@,
            entries_view(out@) == filtered(entries_view(entries@.take(i as int)), pattern@),
        decreases entries.len() - i,
    {
        let keep = match &matcher {
            None => true,
            Some(m) => matches_text(m, entries[i].name.as_str()),
        };
        proof {
            let l = entries_view(entries@.take(i as int + 1));
            assert(l.drop_last() =~= entries_view(entries@.take(i as int)));
            assert(l.last() == entries[i as int]@);
        }
        if keep {
            out.push(entries[i].duplicate());
            assert(entries_view(out@) =~= filtered(entries_view(entries@.take(i as int + 1)), pattern@));
        }
        i = i + 1;
    }
    assert(entries@.take(entries.len() as int) =~= entries@);
    Some(out)
}

/// `idx` places each element of `f` at a position of `l`, strictly
/// increasing, so that `f` is `l` with some elements left out.
pub open spec fn embeds(idx: Seq<int>, f: Seq<EntryView>, l: Seq<EntryView>) -> bool {
    &&& idx.len() == f.len()
    &&& forall|j: int| 0 <= j < f.len() ==> 0 <= #[trigger] idx[j] < l.len() && f[j] == l[idx[j]]
    &&& forall|j: int, k: int| 0 <= j < k < f.len() ==> #[trigger] idx[j] < #[trigger] idx[k]
}

/// Filtering keeps a subsequence of the listing in its relative order, every
/// element of it is let through by the pattern, and the empty pattern keeps
/// the whole listing. The result is the witness of the order.
pub proof fn filtered_is_ordered_subsequence(l: Seq<EntryView>, p: Seq<char>) -> (idx: Seq<int>)
    ensures
        embeds(idx, filtered(l, p), l),
        forall|j: int| 0 <= j < filtered(l, p).len() ==> keeps(p, #[trigger] filtered(l, p)[j]),
        p.len() == 0 ==> filtered(l, p) == l,
    decreases l.len(),
{
    if l.len() == 0 {
        assert(filtered(l, p) =~= l);
        seq![]
    } else {
        let prev = filtered_is_ordered_subsequence(l.drop_last(), p);
        let rest = filtered(l.drop_last(), p);
        if p.len() == 0 {
            assert(l.drop_last().push(l.last()) =~= l);
        }
        if keeps(p, l.last()) {
            let idx = prev.push(l.len() - 1);
            assert(filtered(l, p) == rest.push(l.last()));
            assert forall|j: int| 0 <= j < filtered(l, p).len() implies keeps(p, #[trigger] filtered(l, p)[j]) by {
                if j < rest.len() {
                    assert(filtered(l, p)[j] == rest[j]);
                }
            }
            idx
        } else {
            prev
        }
    }
}

} // verus!
