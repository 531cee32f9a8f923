//! Syntax highlighting for the code editor: the text is cut into lines that keep their line
//! breaks, and each line is handed to the highlighter, which gives it back as coloured pieces.
use vstd::prelude::*;
use crate::text::{chars_of, string_from_chars};
use crate::rope::{rope_chars, rope_to_string};
use crate::widgets::code_editor::RuiCodeEditor;

verus! {

#[verifier::external_type_specification]
#[verifier::external_body]
pub struct ExSyntaxSet(syntect::parsing::SyntaxSet);

#[verifier::external_type_specification]
#[verifier::external_body]
pub struct ExSyntaxReference(syntect::parsing::SyntaxReference);

#[verifier::external_type_specification]
#[verifier::external_body]
pub struct ExThemeSet(syntect::highlighting::ThemeSet);

#[verifier::external_type_specification]
#[verifier::external_body]
pub struct ExTheme(syntect::highlighting::Theme);

#[verifier::external_type_specification]
#[verifier::external_body]
pub struct ExHighlightLines<'a>(syntect::easy::HighlightLines<'a>);

#[verifier::external_type_specification]
#[verifier::external_body]
pub struct ExSyntectError(syntect::Error);

/// The names of the syntax definitions a syntax set holds.
pub uninterp spec fn syntax_names(set: syntect::parsing::SyntaxSet) -> Set<Seq<char>>;

/// Whether some syntax of a syntax set lists `ext` among its file extensions, compared without
/// regard to ASCII case.
pub uninterp spec fn syntax_extension_known(set: syntect::parsing::SyntaxSet, ext: Seq<char>) -> bool;

/// The keys under which a theme set holds its themes.
pub uninterp spec fn theme_names(set: syntect::highlighting::ThemeSet) -> Set<Seq<char>>;

/// The name of the syntax used when no other matches the editor's language.
pub open spec fn plain_text_name() -> Seq<char> {
    seq!['P', 'l', 'a', 'i', 'n', ' ', 'T', 'e', 'x', 't']
}

/// The theme the editor uses unless told otherwise.
pub open spec fn default_theme_name() -> Seq<char> {
    seq!['b', 'a', 's', 'e', '1', '6', '-', 'o', 'c', 'e', 'a', 'n', '.', 'd', 'a', 'r', 'k']
}

/// What syntect's `HighlightLines` gives for `line`, as (red, green, blue, alpha, text) pieces,
/// when it was made with the theme named `theme_name` in `themes` and with the syntax of
/// `syntaxes` found by file extension `key` (when `by_extension`) or found by the name `key`
/// (otherwise), and has already been given the lines `before`; `None` when it reports an error.
pub uninterp spec fn highlighted_line(
    syntaxes: syntect::parsing::SyntaxSet,
    by_extension: bool,
    key: Seq<char>,
    themes: syntect::highlighting::ThemeSet,
    theme_name: Seq<char>,
    before: Seq<Seq<char>>,
    line: Seq<char>,
) -> Option<Seq<(u8, u8, u8, u8, Seq<char>)>>;

/// `SyntaxSet::load_defaults_newlines`: the syntax definitions bundled with the highlighter,
/// in the form that expects each line to keep its line break. The bundled data holds a syntax
/// named `Plain Text`; which other syntaxes it holds is not stated here.
#[verifier::external_body]
fn load_default_syntaxes() -> (s: syntect::parsing::SyntaxSet)
    ensures
        syntax_names(s).contains(plain_text_name()),
{
    syntect::parsing::SyntaxSet::load_defaults_newlines()
}

/// `ThemeSet::load_defaults`: the bundled themes. Its documentation lists the keys it holds;
/// of those, this claims the one the editor uses by default.
#[verifier::external_body]
fn load_default_themes() -> (t: syntect::highlighting::ThemeSet)
    ensures
        theme_names(t).contains(default_theme_name()),
{
    syntect::highlighting::ThemeSet::load_defaults()
}

/// A syntax taken from a syntax set, with the set and how it was found: by file extension
/// `key`, or by the name `key`.
struct FoundSyntax<'a> {
    syntax: &'a syntect::parsing::SyntaxReference,
    syntaxes: Ghost<syntect::parsing::SyntaxSet>,
    by_extension: Ghost<bool>,
    key: Ghost<Seq<char>>,
}

/// A theme taken from a theme set, with the set and the theme's key.
struct FoundTheme<'a> {
    theme: &'a syntect::highlighting::Theme,
    themes: Ghost<syntect::highlighting::ThemeSet>,
    name: Ghost<Seq<char>>,
}

/// A highlighting pass over one text (syntect's `HighlightLines`), with what it was made from
/// and the lines it has been given so far.
struct LineHighlighter<'a> {
    lines: syntect::easy::HighlightLines<'a>,
    syntaxes: Ghost<syntect::parsing::SyntaxSet>,
    by_extension: Ghost<bool>,
    key: Ghost<Seq<char>>,
    themes: Ghost<syntect::highlighting::ThemeSet>,
    theme_name: Ghost<Seq<char>>,
    fed: Ghost<Seq<Seq<char>>>,
}

/// `SyntaxSet::find_syntax_by_extension`: the last syntax whose extensions include `ext`,
/// compared without regard to ASCII case; there is one exactly when some syntax lists `ext`.
#[verifier::external_body]
fn syntax_by_extension<'a>(set: &'a syntect::parsing::SyntaxSet, ext: &str) -> (r: Option<FoundSyntax<'a>>)
    ensures
        r is Some <==> syntax_extension_known(*set, ext@),
        r matches Some(f) ==> f.syntaxes@ == *set && f.by_extension@ && f.key@ == ext@,
{
    match set.find_syntax_by_extension(ext) {
        Some(s) => Some(FoundSyntax { syntax: s, syntaxes: Ghost(*set), by_extension: Ghost(true), key: Ghost(ext@) }),
        None => None,
    }
}

/// `SyntaxSet::find_syntax_plain_text`: the syntax named `Plain Text`, which the set must hold
/// (the call panics otherwise).
#[verifier::external_body]
fn plain_text_syntax<'a>(set: &'a syntect::parsing::SyntaxSet) -> (f: FoundSyntax<'a>)
    requires
        syntax_names(*set).contains(plain_text_name()),
    ensures
        f.syntaxes@ == *set && !f.by_extension@ && f.key@ == plain_text_name(),
{
    FoundSyntax { syntax: set.find_syntax_plain_text(), syntaxes: Ghost(*set), by_extension: Ghost(false), key: Ghost(plain_text_name()) }
}

/// `SyntaxSet::find_syntax_by_name`, asked only whether it finds something: whether some syntax
/// of the set has exactly the name `name`.
#[verifier::external_body]
fn has_syntax_named(set: &syntect::parsing::SyntaxSet, name: &str) -> (r: bool)
    ensures
        r == syntax_names(*set).contains(name@),
{
    set.find_syntax_by_name(name).is_some()
}

/// Looks a theme up by key in `ThemeSet::themes`: present exactly when the key is.
#[verifier::external_body]
fn theme_by_name<'a>(set: &'a syntect::highlighting::ThemeSet, name: &String) -> (r: Option<FoundTheme<'a>>)
    ensures
        r is Some <==> theme_names(*set).contains(name@),
        r matches Some(t) ==> t.themes@ == *set && t.name@ == name@,
{
    match set.themes.get(name) {
        Some(t) => Some(FoundTheme { theme: t, themes: Ghost(*set), name: Ghost(name@) }),
        None => None,
    }
}

/// `HighlightLines::new`: a highlighter for one text with the given syntax and theme, before
/// its first line.
#[verifier::external_body]
fn new_highlighter<'a>(syntax: &FoundSyntax, theme: &FoundTheme<'a>) -> (h: LineHighlighter<'a>)
    ensures
        h.syntaxes == syntax.syntaxes && h.by_extension == syntax.by_extension && h.key == syntax.key,
        h.themes == theme.themes && h.theme_name == theme.name,
        h.fed@ == Seq::<Seq<char>>::empty(),
{
    LineHighlighter {
        lines: syntect::easy::HighlightLines::new(syntax.syntax, theme.theme),
        syntaxes: Ghost(syntax.syntaxes@), by_extension: Ghost(syntax.by_extension@), key: Ghost(syntax.key@),
        themes: Ghost(theme.themes@), theme_name: Ghost(theme.name@), fed: Ghost(Seq::empty()),
    }
}

/// One coloured piece of a highlighted line: its foreground colour and its text.
#[derive(Clone, Debug)]
pub struct StyledSegment {
    pub r: u8,
    pub g: u8,
    pub b: u8,
    pub a: u8,
    pub text: String,
}

/// The text of a run of segments, put together in order.
pub open spec fn joined(segs: Seq<StyledSegment>) -> Seq<char>
    decreases segs.len(),
{
    if segs.len() == 0 {
        Seq::empty()
    } else {
        joined(segs.drop_last()) + segs.last().text@
    }
}

/// A segment as (red, green, blue, alpha, text).
pub open spec fn segment_view(s: StyledSegment) -> (u8, u8, u8, u8, Seq<char>) {
    (s.r, s.g, s.b, s.a, s.text@)
}

/// A run of segments as (red, green, blue, alpha, text) values.
pub open spec fn segments_view(v: Seq<StyledSegment>) -> Seq<(u8, u8, u8, u8, Seq<char>)> {
    v.map_values(|s: StyledSegment| segment_view(s))
}

/// Highlighted lines as (red, green, blue, alpha, text) values.
pub open spec fn lines_view(v: Seq<Vec<StyledSegment>>) -> Seq<Seq<(u8, u8, u8, u8, Seq<char>)>> {
    v.map_values(|l: Vec<StyledSegment>| segments_view(l@))
}

/// `HighlightLines::highlight_line`: the next line as coloured pieces, which are what
/// `highlighted_line` names for the lines given before. Each piece is the slice of the line that
/// follows the previous one, starting at the line's start, so the pieces put together are a
/// prefix of the line (the documentation says the whole line; the iterator can stop early on a
/// scope-stack error, so only the prefix is claimed). The set must be the one the syntax came
/// from.
#[verifier::external_body]
fn highlight_one_line(h: &mut LineHighlighter, line: &str, set: &syntect::parsing::SyntaxSet) -> (r: Result<Vec<StyledSegment>, syntect::Error>)
    requires
        *set == old(h).syntaxes@,
    ensures
        final(h).syntaxes == old(h).syntaxes && final(h).by_extension == old(h).by_extension,
        final(h).key == old(h).key && final(h).themes == old(h).themes,
        final(h).theme_name == old(h).theme_name,
        final(h).fed@ == old(h).fed@.push(line@),
        match highlighted_line(old(h).syntaxes@, old(h).by_extension@, old(h).key@, old(h).themes@,
            old(h).theme_name@, old(h).fed@, line@) {
            None => r is Err,
            Some(segs) => r matches Ok(v) && segments_view(v@) == segs,
        },
        r matches Ok(segs) ==> line@.take(joined(segs@).len() as int) == joined(segs@) && joined(segs@).len() <= line@.len(),
{
    h.fed = Ghost(h.fed@.push(line@));
    match h.lines.highlight_line(line, set) {
        Ok(ranges) => Ok(ranges.into_iter().map(|(style, piece)| StyledSegment {
            r: style.foreground.r, g: style.foreground.g, b: style.foreground.b,
            a: style.foreground.a, text: piece.to_string() }).collect()),
        Err(e) => Err(e),
    }
}

/// The lines of a text, each keeping its line break: the text is cut right after every `'\n'`,
/// and a last piece without one is kept. An empty text has no lines.
pub open spec fn line_pieces(s: Seq<char>) -> Seq<Seq<char>>
    decreases s.len(),
{
    if s.len() == 0 {
        Seq::empty()
    } else {
        let rest = line_pieces(s.drop_last());
        if rest.len() == 0 || rest.last().last() == '\n' {
            rest.push(seq![s.last()])
        } else {
            rest.update(rest.len() - 1, rest.last().push(s.last()))
        }
    }
}

/// Whether a sequence of lines is cut as `line_pieces` cuts: no line is empty, a `'\n'` only
/// ever ends a line, and every line but the last ends with one.
pub open spec fn well_cut(p: Seq<Seq<char>>) -> bool {
    &&& forall|i: int| 0 <= i < p.len() ==> #[trigger] p[i].len() > 0
    &&& forall|i: int, j: int| 0 <= i < p.len() && 0 <= j < p[i].len() - 1 ==> #[trigger] p[i][j] != '\n'
    &&& forall|i: int| 0 <= i < p.len() - 1 ==> #[trigger] p[i].last() == '\n'
}

/// Cutting a text into lines loses nothing: the lines put together give back the text, and
/// they are cut exactly after each line break.
pub proof fn law_lines_rebuild_text(s: Seq<char>)
    ensures
        line_pieces(s).flatten() == s,
        well_cut(line_pieces(s)),
    decreases s.len(),
{
    if s.len() > 0 {
        let t = s.drop_last();
        law_lines_rebuild_text(t);
        let rest = line_pieces(t);
        let c = s.last();
        if rest.len() == 0 || rest.last().last() == '\n' {
            rest.lemma_flatten_push(seq![c]);
            assert(t + seq![c] =~= s);
            let p = rest.push(seq![c]);
            assert forall|i: int, j: int| 0 <= i < p.len() && 0 <= j < p[i].len() - 1 implies #[trigger] p[i][j] != '\n' by {
                if i < rest.len() {
                    assert(p[i] == rest[i]);
                }
            }
            assert forall|i: int| 0 <= i < p.len() - 1 implies #[trigger] p[i].last() == '\n' by {
                assert(p[i] == rest[i]);
            }
            assert forall|i: int| 0 <= i < p.len() implies #[trigger] p[i].len() > 0 by {
                if i < rest.len() {
                    assert(p[i] == rest[i]);
                }
            }
        } else {
            let front = rest.drop_last();
            let last = rest.last();
            front.lemma_flatten_push(last);
            front.lemma_flatten_push(last.push(c));
            assert(front.push(last) =~= rest);
            let p = rest.update(rest.len() - 1, last.push(c));
            assert(front.push(last.push(c)) =~= p);
            assert(t + seq![c] =~= s);
            assert(front.flatten() + last.push(c) =~= (front.flatten() + last) + seq![c]);
            assert forall|i: int, j: int| 0 <= i < p.len() && 0 <= j < p[i].len() - 1 implies #[trigger] p[i][j] != '\n' by {
                if i < rest.len() - 1 {
                    assert(p[i] == rest[i]);
                } else {
                    assert(p[i] == last.push(c));
                    if j < last.len() - 1 {
                        assert(last[j] != '\n');
                    }
                }
            }
            assert forall|i: int| 0 <= i < p.len() - 1 implies #[trigger] p[i].last() == '\n' by {
                assert(p[i] == rest[i]);
            }
            assert forall|i: int| 0 <= i < p.len() implies #[trigger] p[i].len() > 0 by {
                if i < rest.len() - 1 {
                    assert(p[i] == rest[i]);
                }
            }
        }
    }
}

/// The lines of `text`, each keeping its line break (as `syntect::util::LinesWithEndings`
/// yields them).
pub fn lines_with_endings(text: &str) -> (lines: Vec<String>)
    ensures
        lines@.len() == line_pieces(text@).len(),
        forall|i: int| 0 <= i < lines@.len() ==> #[trigger] lines@[i]@ == line_pieces(text@)[i],
{
    let chars = chars_of(text);
    let mut lines: Vec<String> = Vec::new();
    let mut current: Vec<char> = Vec::new();
    let ghost mut done: Seq<Seq<char>> = Seq::empty();
    let mut i: usize = 0;
    while i < chars.len()
        invariant
            chars@ == text@,
            i <= chars.len(),
            lines@.len() == done.len(),
            forall|k: int| 0 <= k < done.len() ==> #[trigger] lines@[k]@ == done[k],
            forall|k: int| 0 <= k < done.len() ==> #[trigger] done[k].len() > 0 && done[k].last() == '\n',
            line_pieces(chars@.take(i as int)) == if current@.len() == 0 { done } else { done.push(current@) },
            current@.len() > 0 ==> current@.last() != '\n',
        decreases chars.len() - i,
    {
        let c = chars[i];
        proof {
            let before = chars@.take(i as int);
            let after = chars@.take(i as int + 1);
            assert(after.drop_last() =~= before);
            assert(after.last() == c);
            let rest = line_pieces(before);
            if current@.len() == 0 {
                assert(rest == done);
                assert(line_pieces(after) == done.push(seq![c]));
                assert(current@.push(c) =~= seq![c]);
            } else {
                assert(rest == done.push(current@));
                assert(rest.last() == current@);
                assert(line_pieces(after) == rest.update(rest.len() - 1, current@.push(c)));
                assert(rest.update(rest.len() - 1, current@.push(c)) =~= done.push(current@.push(c)));
            }
        }
        current.push(c);
        if c == '\n' {
            let piece = string_from_chars(current.as_slice());
            lines.push(piece);
            proof {
                done = done.push(current@);
            }
            current = Vec::new();
        }
        i = i + 1;
    }
    assert(chars@.take(i as int) =~= text@);
    if current.len() > 0 {
        let piece = string_from_chars(current.as_slice());
        lines.push(piece);
        proof {
            done = done.push(current@);
        }
    }
    lines
}

/// Why a text could not be highlighted.
#[derive(Clone, Copy, Debug, PartialEq, Eq, Structural)]
pub enum HighlightFault {
    /// The highlighter rejected a line.
    Highlighting,
}

/// How the syntax for `language` is found: by that file extension when some syntax of the set
/// lists it (`(true, language)`), else the plain-text syntax by its name.
pub open spec fn language_lookup(syntaxes: syntect::parsing::SyntaxSet, language: Seq<char>) -> (bool, Seq<char>) {
    if syntax_extension_known(syntaxes, language) {
        (true, language)
    } else {
        (false, plain_text_name())
    }
}

/// The given lines highlighted one after the other by one highlighter, each line given after
/// all the lines before it; `None` as soon as one of them is rejected.
pub open spec fn highlighted_lines(
    syntaxes: syntect::parsing::SyntaxSet,
    by_extension: bool,
    key: Seq<char>,
    themes: syntect::highlighting::ThemeSet,
    theme_name: Seq<char>,
    lines: Seq<Seq<char>>,
) -> Option<Seq<Seq<(u8, u8, u8, u8, Seq<char>)>>>
    decreases lines.len(),
{
    if lines.len() == 0 {
        Some(Seq::empty())
    } else {
        match highlighted_lines(syntaxes, by_extension, key, themes, theme_name, lines.drop_last()) {
            None => None,
            Some(done) => match highlighted_line(syntaxes, by_extension, key, themes, theme_name,
                lines.drop_last(), lines.last()) {
                None => None,
                Some(segs) => Some(done.push(segs)),
            },
        }
    }
}

/// What highlighting `text` as a file of `language` gives with the given sets and theme: the
/// syntax chosen by `language_lookup`, then every line of the text in turn.
pub open spec fn code_highlight(
    syntaxes: syntect::parsing::SyntaxSet,
    themes: syntect::highlighting::ThemeSet,
    theme_name: Seq<char>,
    language: Seq<char>,
    text: Seq<char>,
) -> Option<Seq<Seq<(u8, u8, u8, u8, Seq<char>)>>> {
    let found = language_lookup(syntaxes, language);
    highlighted_lines(syntaxes, found.0, found.1, themes, theme_name, line_pieces(text))
}

/// Once a run of lines is rejected, every longer run that starts with it is rejected too.
proof fn lemma_rejected_prefix(
    syntaxes: syntect::parsing::SyntaxSet,
    by_extension: bool,
    key: Seq<char>,
    themes: syntect::highlighting::ThemeSet,
    theme_name: Seq<char>,
    lines: Seq<Seq<char>>,
    k: int,
)
    requires
        0 <= k <= lines.len(),
        highlighted_lines(syntaxes, by_extension, key, themes, theme_name, lines.take(k)) is None,
    ensures
        highlighted_lines(syntaxes, by_extension, key, themes, theme_name, lines) is None,
    decreases lines.len() - k,
{
    if k < lines.len() {
        let longer = lines.take(k + 1);
        assert(longer.drop_last() =~= lines.take(k));
        lemma_rejected_prefix(syntaxes, by_extension, key, themes, theme_name, lines, k + 1);
    } else {
        assert(lines.take(k) =~= lines);
    }
}

/// Whether every highlighted line's pieces, put together, are a prefix of the text's line.
pub open spec fn pieces_are_prefixes(lines: Seq<Vec<StyledSegment>>, text: Seq<char>) -> bool {
    &&& lines.len() == line_pieces(text).len()
    &&& forall|i: int| 0 <= i < lines.len() ==> {
        let segs = #[trigger] lines[i]@;
        &&& joined(segs).len() <= line_pieces(text)[i].len()
        &&& line_pieces(text)[i].take(joined(segs).len() as int) == joined(segs)
    }
}

/// The syntax definitions and themes the code editor highlights with, and the name of the theme
/// it uses.
pub struct RuiSyntaxAssets {
    pub syntax_set: syntect::parsing::SyntaxSet,
    pub theme_set: syntect::highlighting::ThemeSet,
    pub default_theme: String,
}

impl Default for RuiSyntaxAssets {
    /// The bundled syntaxes and themes, with `base16-ocean.dark` as the theme.
    fn default() -> (r: Self)
        ensures
            r.default_theme@ == default_theme_name(),
            theme_names(r.theme_set).contains(r.default_theme@),
            syntax_names(r.syntax_set).contains(plain_text_name()),
    {
        RuiSyntaxAssets::new()
    }
}

impl RuiSyntaxAssets {
    /// The bundled syntaxes and themes, with `base16-ocean.dark` as the theme.
    pub fn new() -> (r: Self)
        ensures
            r.default_theme@ == default_theme_name(),
            theme_names(r.theme_set).contains(r.default_theme@),
            syntax_names(r.syntax_set).contains(plain_text_name()),
    {
        let name = "base16-ocean.dark";
        proof {
            reveal_strlit("base16-ocean.dark");
        }
        assert(name@ =~= default_theme_name());
        let default_theme = name.to_string();
        RuiSyntaxAssets {
            syntax_set: load_default_syntaxes(),
            theme_set: load_default_themes(),
            default_theme,
        }
    }

    /// Whether text of the given language can be highlighted with these assets: the theme named
    /// `default_theme` is in the theme set, and some syntax has the language as an extension or
    /// the plain-text syntax is there to fall back on.
    pub fn can_highlight(&self, language: &str) -> (r: bool)
        ensures
            r == (theme_names(self.theme_set).contains(self.default_theme@) && (
                syntax_extension_known(self.syntax_set, language@)
                || syntax_names(self.syntax_set).contains(plain_text_name()))),
    {
        let theme_found = match theme_by_name(&self.theme_set, &self.default_theme) {
            Some(_) => true,
            None => false,
        };
        if !theme_found {
            return false;
        }
        let by_extension = match syntax_by_extension(&self.syntax_set, language) {
            Some(_) => true,
            None => false,
        };
        if by_extension {
            return true;
        }
        let name = "Plain Text";
        proof {
            reveal_strlit("Plain Text");
        }
        assert(name@ =~= plain_text_name());
        has_syntax_named(&self.syntax_set, name)
    }

    /// Highlights `text` as a file of the given language (a file extension such as `rs`), line
    /// by line, with the theme named `default_theme`. The syntax is the one registered for that
    /// extension, or else the plain-text syntax; the theme must be in the theme set, and the
    /// plain-text syntax in the syntax set when no syntax has the extension. The result is one
    /// entry per line of the text, each what the highlighter gives for that line after the
    /// lines before it; it is an error exactly when the highlighter rejects a line. The pieces
    /// of each line put together are a prefix of that line.
    pub fn highlight_code(&self, language: &str, text: &str) -> (r: Result<Vec<Vec<StyledSegment>>, HighlightFault>)
        requires
            theme_names(self.theme_set).contains(self.default_theme@),
            syntax_extension_known(self.syntax_set, language@)
                || syntax_names(self.syntax_set).contains(plain_text_name()),
        ensures
            match code_highlight(self.syntax_set, self.theme_set, self.default_theme@, language@, text@) {
                Some(expected) => r matches Ok(v) && lines_view(v@) == expected,
                None => r == Err::<Vec<Vec<StyledSegment>>, HighlightFault>(HighlightFault::Highlighting),
            },
            r matches Ok(v) ==> pieces_are_prefixes(v@, text@),
    {
        let theme = match theme_by_name(&self.theme_set, &self.default_theme) {
            Some(t) => t,
            None => {
                assert(false);
                return Err(HighlightFault::Highlighting);
            },
        };
        let syntax = match syntax_by_extension(&self.syntax_set, language) {
            Some(s) => s,
            None => plain_text_syntax(&self.syntax_set),
        };
        let ghost found = language_lookup(self.syntax_set, language@);
        assert(syntax.by_extension@ == found.0 && syntax.key@ == found.1);
        let mut highlighter = new_highlighter(&syntax, &theme);
        let lines = lines_with_endings(text);
        let ghost pieces = line_pieces(text@);
        let mut out: Vec<Vec<StyledSegment>> = Vec::new();
        let mut i: usize = 0;
        assert(pieces.take(0) =~= Seq::<Seq<char>>::empty());
        assert(lines_view(out@) =~= Seq::empty());
        while i < lines.len()
            invariant
                pieces == line_pieces(text@),
                found == language_lookup(self.syntax_set, language@),
                i <= lines.len(),
                out@.len() == i,
                lines@.len() == pieces.len(),
                forall|k: int| 0 <= k < lines@.len() ==> #[trigger] lines@[k]@ == pieces[k],
                highlighter.syntaxes@ == self.syntax_set,
                highlighter.by_extension@ == found.0,
                highlighter.key@ == found.1,
                highlighter.themes@ == self.theme_set,
                highlighter.theme_name@ == self.default_theme@,
                highlighter.fed@ == pieces.take(i as int),
                highlighted_lines(self.syntax_set, found.0, found.1, self.theme_set, self.default_theme@,
                    pieces.take(i as int)) == Some(lines_view(out@)),
                forall|k: int| 0 <= k < i ==> {
                    let segs = #[trigger] out@[k]@;
                    &&& joined(segs).len() <= pieces[k].len()
                    &&& pieces[k].take(joined(segs).len() as int) == joined(segs)
                },
            decreases lines.len() - i,
        {
            let ghost before = pieces.take(i as int);
            let ghost next = pieces.take(i as int + 1);
            proof {
                assert(next.drop_last() =~= before);
                assert(next.last() == pieces[i as int]);
            }
            let result = highlight_one_line(&mut highlighter, lines[i].as_str(), &self.syntax_set);
            proof {
                assert(next =~= before.push(pieces[i as int]));
            }
            match result {
                Ok(segs) => {
                    let ghost done = lines_view(out@);
                    out.push(segs);
                    proof {
                        assert(lines_view(out@) =~= done.push(segments_view(segs@)));
                    }
                },
                Err(_) => {
                    proof {
                        assert(highlighted_line(self.syntax_set, found.0, found.1, self.theme_set,
                            self.default_theme@, before, pieces[i as int]) is None);
                        assert(highlighted_lines(self.syntax_set, found.0, found.1, self.theme_set,
                            self.default_theme@, next) is None);
                        lemma_rejected_prefix(self.syntax_set, found.0, found.1, self.theme_set,
                            self.default_theme@, pieces, i as int + 1);
                        assert(code_highlight(self.syntax_set, self.theme_set, self.default_theme@,
                            language@, text@) is None);
                    }
                    return Err(HighlightFault::Highlighting);
                },
            }
            i = i + 1;
        }
        assert(pieces.take(i as int) =~= pieces);
        Ok(out)
    }
}

impl RuiCodeEditor {
    /// The editor's text highlighted for its language (see [`RuiSyntaxAssets::highlight_code`]).
    pub fn highlighted(&self, assets: &RuiSyntaxAssets) -> (r: Result<Vec<Vec<StyledSegment>>, HighlightFault>)
        requires
            theme_names(assets.theme_set).contains(assets.default_theme@),
            syntax_extension_known(assets.syntax_set, self.language@)
                || syntax_names(assets.syntax_set).contains(plain_text_name()),
        ensures
            match code_highlight(assets.syntax_set, assets.theme_set, assets.default_theme@,
                self.language@, rope_chars(self.text)) {
                Some(expected) => r matches Ok(v) && lines_view(v@) == expected,
                None => r == Err::<Vec<Vec<StyledSegment>>, HighlightFault>(HighlightFault::Highlighting),
            },
            r matches Ok(v) ==> pieces_are_prefixes(v@, rope_chars(self.text)),
    {
        let text = rope_to_string(&self.text);
        assets.highlight_code(self.language.as_str(), text.as_str())
    }
}

} // verus!
