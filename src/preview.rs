//! What the preview pane shows: the children of a directory, or the lines
//! of a file cut into coloured tokens by syntect.
use vstd::prelude::*;
use crate::entry::{Entry, names_view};
use syntect::easy::HighlightLines;
use syntect::highlighting::ThemeSet;
use syntect::parsing::SyntaxSet;

verus! {

#[verifier::external_type_specification]
#[verifier::external_body]
pub struct ExSyntaxSet(SyntaxSet);

#[verifier::external_type_specification]
#[verifier::external_body]
pub struct ExThemeSet(ThemeSet);

#[verifier::external_type_specification]
#[verifier::external_body]
pub struct ExHighlightLines<'a>(HighlightLines<'a>);

#[verifier::external_type_specification]
#[verifier::external_body]
pub struct ExSyntectError(syntect::Error);

/// Relies on syntect's SyntaxSet::load_defaults_newlines: the bundled syntaxes.
pub assume_specification[ SyntaxSet::load_defaults_newlines ]() -> SyntaxSet;

/// Relies on syntect's ThemeSet::load_defaults: the bundled themes.
pub assume_specification[ ThemeSet::load_defaults ]() -> ThemeSet;

/// Whether syntect's bundled syntaxes have one for the file extension `ext`.
pub uninterp spec fn has_syntax(ext: Seq<char>) -> bool;

/// What syntect gives for `line` when it highlights in the bundled syntax
/// for `ext` and the bundled theme "base16-ocean.dark", after the lines
/// `before`: the segments of the line with their foreground colours, or
/// `None` where it fails.
pub uninterp spec fn highlighted(ext: Seq<char>, before: Seq<Seq<char>>, line: Seq<char>) -> Option<
    (Seq<Seq<char>>, Seq<(u8, u8, u8)>),
>;

/// A colour as red, green and blue.
pub type Rgb = (u8, u8, u8);

/// One line of a preview: text segments, each with its colour.
pub struct SyntaxLine {
    pub text: Vec<String>,
    pub colour: Vec<(u8, u8, u8)>,
}

impl SyntaxLine {
    /// Each segment has a colour.
    pub open spec fn wf(&self) -> bool {
        self.text.len() == self.colour.len()
    }

    /// The text of the line: its segments one after another.
    pub open spec fn text_of(&self) -> Seq<char> {
        names_view(self.text@).flatten()
    }
}

/// The colour of a child in a directory's preview.
pub open spec fn entry_colour(is_dir: bool) -> Rgb {
    if is_dir {
        (10u8, 10u8, 150u8)
    } else {
        (200u8, 200u8, 200u8)
    }
}

/// The preview of a directory: one line per child, its name alone, in one
/// colour for directories and another for files.
pub fn directory_preview(children: &Vec<Entry>) -> (r: Vec<SyntaxLine>)
    ensures
        r.len() == children.len(),
        forall|i: int|
            0 <= i < r.len() ==> #[trigger] r[i].wf() && names_view(r[i].text@) == seq![children[i].name@]
                && r[i].colour@ == seq![entry_colour(children[i].is_dir)],
{
    let mut r: Vec<SyntaxLine> = Vec::new();
    let mut i: usize = 0;
    while i < children.len()
        invariant
            i <= children.len(),
            r.len() == i,
            forall|k: int|
                0 <= k < i ==> #[trigger] r[k].wf() && names_view(r[k].text@) == seq![children[k].name@]
                    && r[k].colour@ == seq![entry_colour(children[k].is_dir)],
        decreases children.len() - i,
    {
        let colour: (u8, u8, u8) = if children[i].is_dir {
            (10, 10, 150)
        } else {
            (200, 200, 200)
        };
        let line = SyntaxLine { text: vec![children[i].name.clone()], colour: vec![colour] };
        assert(names_view(line.text@) =~= seq![children[i as int].name@]);
        assert(line.colour@ =~= seq![entry_colour(children[i as int].is_dir)]);
        r.push(line);
        i = i + 1;
    }
    r
}

/// `ls` is the text `t` cut after each newline, the newlines kept.
pub open spec fn is_line_split(ls: Seq<Seq<char>>, t: Seq<char>) -> bool {
    &&& ls.flatten() == t
    &&& forall|i: int| 0 <= i < ls.len() ==> #[trigger] ls[i].len() > 0
    &&& forall|i: int, j: int| 0 <= i < ls.len() && 0 <= j < ls[i].len() - 1 ==> #[trigger] ls[i][j] != '\n'
    &&& forall|i: int| 0 <= i < ls.len() - 1 ==> #[trigger] ls[i].last() == '\n'
}

/// `r` is the text `t`, cut into the lines `ls`, each line made of the
/// segments of one element of `r`.
pub open spec fn highlights(r: Seq<SyntaxLine>, ls: Seq<Seq<char>>, t: Seq<char>) -> bool {
    &&& is_line_split(ls, t)
    &&& ls.len() == r.len()
    &&& forall|i: int| 0 <= i < r.len() ==> (#[trigger] r[i]).wf() && r[i].text_of() == ls[i]
}

/// Relies on syntect::util::LinesWithEndings: it cuts the text after each
/// newline and keeps the newlines.
#[verifier::external_body]
fn split_lines(t: &str) -> (r: Vec<String>)
    ensures
        is_line_split(names_view(r@), t@),
{
    syntect::util::LinesWithEndings::from(t).map(String::from).collect()
}

/// Turns the text of files into coloured lines. It holds syntect's bundled
/// syntaxes and themes: only `new` builds one.
pub struct SyntaxHighlighter {
    ps: SyntaxSet,
    ts: ThemeSet,
}

/// Highlighting of one text under way: the extension whose syntax it uses
/// and the lines it was given so far.
pub struct LineHighlighter<'a> {
    inner: HighlightLines<'a>,
    ext: Vec<char>,
    seen: Vec<String>,
}

impl<'a> LineHighlighter<'a> {
    pub closed spec fn ext(&self) -> Seq<char> {
        self.ext@
    }

    pub closed spec fn seen(&self) -> Seq<Seq<char>> {
        names_view(self.seen@)
    }
}

/// Relies on syntect's SyntaxSet::find_syntax_by_extension over the bundled
/// syntaxes that every SyntaxHighlighter holds: there is a highlighter where
/// they have a syntax for `ext`. The theme "base16-ocean.dark" is one of the
/// bundled themes (ThemeSet::load_defaults); HighlightLines::new starts at
/// the beginning of a text.
#[verifier::external_body]
fn start<'a>(h: &'a SyntaxHighlighter, ext: &str) -> (r: Option<LineHighlighter<'a>>)
    ensures
        r is Some <==> has_syntax(ext@),
        r matches Some(l) ==> l.ext() == ext@ && l.seen() == Seq::<Seq<char>>::empty(),
{
    let syntax = h.ps.find_syntax_by_extension(ext)?;
    let theme = &h.ts.themes["base16-ocean.dark"];
    Some(LineHighlighter { inner: HighlightLines::new(syntax, theme), ext: ext.chars().collect(), seen: Vec::new() })
}

/// Relies on syntect's HighlightLines::highlight_line: it highlights the next
/// line of the text; the tokens it gives, each with its style, make up the
/// line one after another. Each token is kept with the foreground colour of
/// its style.
#[verifier::external_body]
fn highlight_next(l: &mut LineHighlighter, h: &SyntaxHighlighter, line: &str) -> (r: Result<
    SyntaxLine,
    syntect::Error,
>)
    ensures
        final(l).ext() == old(l).ext(),
        final(l).seen() == old(l).seen().push(line@),
        r is Ok <==> highlighted(old(l).ext(), old(l).seen(), line@) is Some,
        r matches Ok(s) ==> s.wf() && s.text_of() == line@ && highlighted(old(l).ext(), old(l).seen(), line@)
            == Some((names_view(s.text@), s.colour@)),
{
    let r = l.inner.highlight_line(line, &h.ps);
    l.seen.push(line.to_string());
    match r {
        Ok(regions) => Ok(
            SyntaxLine {
                text: regions.iter().map(|x| x.1.to_string()).collect(),
                colour: regions.iter().map(|x| (x.0.foreground.r, x.0.foreground.g, x.0.foreground.b)).collect(),
            },
        ),
        Err(e) => Err(e),
    }
}

/// The segments and colours of each line.
pub open spec fn lines_view(r: Seq<SyntaxLine>) -> Seq<(Seq<Seq<char>>, Seq<(u8, u8, u8)>)> {
    r.map_values(|l: SyntaxLine| (names_view(l.text@), l.colour@))
}

/// The lines `ls` highlighted one after another in the syntax for `ext`, or
/// `None` where one of them fails.
pub open spec fn highlight_all(ext: Seq<char>, ls: Seq<Seq<char>>) -> Option<
    Seq<(Seq<Seq<char>>, Seq<(u8, u8, u8)>)>,
>
    decreases ls.len(),
{
    if ls.len() == 0 {
        Some(seq![])
    } else {
        match highlight_all(ext, ls.drop_last()) {
            Some(prev) => match highlighted(ext, ls.drop_last(), ls.last()) {
                Some(x) => Some(prev.push(x)),
                None => None,
            },
            None => None,
        }
    }
}

/// The extension of plain text.
pub open spec fn plain_ext() -> Seq<char> {
    seq!['t', 'x', 't']
}

/// The extension whose syntax a file is shown in: its own where there is a
/// syntax for it, else plain text.
pub open spec fn syntax_ext(ext: Option<Seq<char>>) -> Seq<char> {
    match ext {
        Some(e) => if has_syntax(e) {
            e
        } else {
            plain_ext()
        },
        None => plain_ext(),
    }
}

/// The preview of the lines `ls` in the syntax for `ext`: empty where there
/// is no such syntax or a line fails.
pub open spec fn preview_lines(ext: Seq<char>, ls: Seq<Seq<char>>) -> Seq<
    (Seq<Seq<char>>, Seq<(u8, u8, u8)>),
> {
    if has_syntax(ext) {
        match highlight_all(ext, ls) {
            Some(v) => v,
            None => seq![],
        }
    } else {
        seq![]
    }
}

pub open spec fn opt_str_view(e: Option<&str>) -> Option<Seq<char>> {
    match e {
        Some(s) => Some(s@),
        None => None,
    }
}

/// Where the lines `ls` highlight, so does each prefix of them.
proof fn lemma_highlight_prefix(ext: Seq<char>, ls: Seq<Seq<char>>, k: int)
    requires
        0 <= k <= ls.len(),
        highlight_all(ext, ls) is Some,
    ensures
        highlight_all(ext, ls.take(k)) is Some,
    decreases ls.len(),
{
    if k == ls.len() {
        assert(ls.take(k) =~= ls);
    } else {
        assert(ls.drop_last().take(k) =~= ls.take(k));
        lemma_highlight_prefix(ext, ls.drop_last(), k);
    }
}

/// A file with no extension, or with one that has no syntax, is shown as
/// a plain-text file is.
pub proof fn unknown_extension_is_plain_text(e: Seq<char>)
    requires
        !has_syntax(e),
    ensures
        syntax_ext(Some(e)) == syntax_ext(Some(plain_ext())),
        syntax_ext(None) == syntax_ext(Some(plain_ext())),
{
}

impl SyntaxHighlighter {
    /// A highlighter with syntect's bundled syntaxes and themes.
    pub fn new() -> (r: SyntaxHighlighter) {
        SyntaxHighlighter { ps: SyntaxSet::load_defaults_newlines(), ts: ThemeSet::load_defaults() }
    }

    /// The text of a file whose name has the given extension, as coloured
    /// lines: one line of segments for each line of the text, highlighted in
    /// the syntax for the extension, or for plain text where there is none
    /// for it or no extension. Where there is no such syntax or syntect
    /// fails on a line, the preview is empty.
    pub fn load_file(&self, extension: Option<&str>, contents: &str) -> (r: Vec<SyntaxLine>)
        ensures
            exists|ls: Seq<Seq<char>>|
                is_line_split(ls, contents@) && lines_view(r@) == preview_lines(
                    syntax_ext(opt_str_view(extension)),
                    ls,
                ),
            r.len() > 0 ==> exists|ls: Seq<Seq<char>>| highlights(r@, ls, contents@),
            contents@.len() == 0 ==> r.len() == 0,
    {
        let lines = split_lines(contents);
        let ghost ls = names_view(lines@);
        let ghost ext = syntax_ext(opt_str_view(extension));
        proof {
            reveal_strlit("txt");
            assert("txt"@ =~= plain_ext());
            if contents@.len() == 0 && ls.len() > 0 {
                assert(ls.flatten() == ls[0] + ls.drop_first().flatten());
            }
        }
        let mut found = match extension {
            Some(e) => start(self, e),
            None => None,
        };
        if found.is_none() {
            found = start(self, "txt");
        }
        let mut lh = match found {
            Some(l) => l,
            None => {
                let r: Vec<SyntaxLine> = Vec::new();
                assert(lines_view(r@) =~= seq![]);
                assert(is_line_split(ls, contents@) && lines_view(r@) == preview_lines(ext, ls));
                return r;
            },
        };
        assert(lh.ext() == ext && has_syntax(ext));
        let mut out: Vec<SyntaxLine> = Vec::new();
        let mut i: usize = 0;
        while i < lines.len()
            invariant
                i <= lines.len(),
                ls == names_view(lines@),
                is_line_split(ls, contents@),
                has_syntax(ext),
                ext == syntax_ext(opt_str_view(extension)),
                lh.ext() == ext,
                lh.seen() == ls.take(i as int),
                highlight_all(ext, ls.take(i as int)) == Some(lines_view(out@)),
                out.len() == i,
                forall|k: int| 0 <= k < i ==> (#[trigger] out@[k]).wf() && out@[k].text_of() == ls[k],
            decreases lines.len() - i,
        {
            let ghost before = out@;
            proof {
                assert(ls.take(i as int + 1).drop_last() =~= ls.take(i as int));
                assert(ls.take(i as int + 1).last() == ls[i as int]);
            }
            match highlight_next(&mut lh, self, lines[i].as_str()) {
                Ok(l) => {
                    out.push(l);
                    assert(lines_view(out@) =~= lines_view(before).push(lines_view(out@).last()));
                },
                Err(_) => {
                    proof {
                        assert(highlight_all(ext, ls.take(i as int + 1)) is None);
                        if highlight_all(ext, ls) is Some {
                            lemma_highlight_prefix(ext, ls, i as int + 1);
                        }
                    }
                    let r: Vec<SyntaxLine> = Vec::new();
                    assert(lines_view(r@) =~= seq![]);
                    assert(is_line_split(ls, contents@) && lines_view(r@) == preview_lines(ext, ls));
                    return r;
                },
            }
            assert(lh.seen() =~= ls.take(i as int + 1));
            i = i + 1;
        }
        assert(ls.take(ls.len() as int) =~= ls);
        assert(highlights(out@, ls, contents@));
        assert(is_line_split(ls, contents@) && lines_view(out@) == preview_lines(ext, ls));
        out
    }
}

} // verus!
