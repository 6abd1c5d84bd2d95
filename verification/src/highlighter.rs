use vstd::prelude::*;
use syntect::easy::HighlightLines;
use syntect::highlighting::{Theme, ThemeSet};
use syntect::parsing::{SyntaxReference, SyntaxSet};
use syntect::util::LinesWithEndings;
use crate::color::{joined, lemma_joined_concat, runs_of, Color, RunModel};
use crate::text::{flat, lemma_split_lines_flat, split_lines, texts_of};

verus! {

/// syntect's set of grammars, carried through as it is.
#[verifier::external_type_specification]
#[verifier::external_body]
pub struct ExSyntaxSet(SyntaxSet);

/// syntect's set of themes.
#[verifier::external_type_specification]
#[verifier::external_body]
pub struct ExThemeSet(ThemeSet);

/// One theme of syntect.
#[verifier::external_type_specification]
#[verifier::external_body]
pub struct ExTheme(Theme);

/// One grammar of a grammar set.
#[verifier::external_type_specification]
#[verifier::external_body]
pub struct ExSyntaxReference(SyntaxReference);

/// syntect's line-by-line engine, which carries its state between lines.
#[verifier::external_type_specification]
#[verifier::external_body]
pub struct ExHighlightLines<'a>(HighlightLines<'a>);

/// The error that syntect's engine fails with.
#[verifier::external_type_specification]
#[verifier::external_body]
pub struct ExEngineError(syntect::Error);

/// The grammar that `SyntaxSet::find_syntax_by_extension` finds in `set`
/// for `extension`.
pub uninterp spec fn syntax_for(set: SyntaxSet, extension: Seq<char>) -> Option<SyntaxReference>;

/// The theme that the map `themes` of `set` holds under `name`.
pub uninterp spec fn theme_named(set: ThemeSet, name: Seq<char>) -> Option<Theme>;

/// The engine that `HighlightLines::new` makes for a grammar and a theme.
pub uninterp spec fn fresh_engine(syntax: SyntaxReference, theme: Theme) -> HighlightLines<'static>;

/// What `HighlightLines::highlight_line` does with one line: the runs of
/// the line, or nothing where the engine fails, and the engine afterwards.
pub uninterp spec fn line_step(engine: HighlightLines<'_>, set: SyntaxSet, line: Seq<char>) -> (
    Option<Seq<RunModel>>,
    HighlightLines<'_>,
);

/// The engine after it was fed `lines`, one by one.
pub open spec fn engine_after(
    start: HighlightLines<'_>,
    set: SyntaxSet,
    lines: Seq<Seq<char>>,
) -> HighlightLines<'_>
    decreases lines.len(),
{
    if lines.len() == 0 {
        start
    } else {
        line_step(engine_after(start, set, lines.drop_last()), set, lines.last()).1
    }
}

/// The runs of `lines`, each line highlighted in the state that the lines
/// before it left; nothing where the engine fails on one of them.
pub open spec fn runs_after(start: HighlightLines<'_>, set: SyntaxSet, lines: Seq<Seq<char>>) -> Option<
    Seq<RunModel>,
>
    decreases lines.len(),
{
    if lines.len() == 0 {
        Some(Seq::empty())
    } else {
        match runs_after(start, set, lines.drop_last()) {
            None => None,
            Some(before) => match line_step(
                engine_after(start, set, lines.drop_last()),
                set,
                lines.last(),
            ).0 {
                None => None,
                Some(runs) => Some(before + runs),
            },
        }
    }
}

/// The engine that was started on the grammar of `extension` in `set` and
/// then fed `lines`.
pub open spec fn engine_from(
    set: SyntaxSet,
    extension: Seq<char>,
    theme: Theme,
    lines: Seq<Seq<char>>,
) -> HighlightLines<'static> {
    engine_after(fresh_engine(syntax_for(set, extension).unwrap(), theme), set, lines)
}

/// `engine` works on a grammar of `set` and was fed through `set` alone.
pub open spec fn engine_on(engine: HighlightLines<'_>, set: SyntaxSet) -> bool {
    exists|extension: Seq<char>, theme: Theme, lines: Seq<Seq<char>>|
        syntax_for(set, extension) is Some && #[trigger] engine_from(set, extension, theme, lines)
            == engine
}

/// Why highlighting failed.
#[derive(Clone, Copy, Debug, PartialEq, Eq, Structural)]
pub enum HighlightError {
    /// No grammar is known for the hint.
    UnsupportedLanguage,
    /// The lexical engine gave up on a line.
    Engine,
}

/// The name of the theme that colours come from.
pub const THEME: &'static str = "base16-ocean.dark";

/// The grammar and theme tables, loaded once and only read afterwards.
pub struct CodeHighligher {
    ps: SyntaxSet,
    ts: ThemeSet,
}

/// Calls `SyntaxSet::load_defaults_newlines`, which unpacks the grammars
/// that the crate carries.
#[verifier::external_body]
fn default_grammars() -> (r: SyntaxSet) {
    SyntaxSet::load_defaults_newlines()
}

/// Calls `ThemeSet::load_defaults`, which unpacks the themes that the crate
/// carries; its documentation lists `base16-ocean.dark` among their keys.
#[verifier::external_body]
fn default_themes() -> (r: ThemeSet)
    ensures
        theme_named(r, THEME@) is Some,
{
    ThemeSet::load_defaults()
}

/// Calls `SyntaxSet::find_syntax_by_extension`: the last grammar of the set
/// that lists the extension, letter case aside.
#[verifier::external_body]
fn find_grammar<'a>(set: &'a SyntaxSet, extension: &str) -> (r: Option<&'a SyntaxReference>)
    ensures
        match r {
            Some(syntax) => syntax_for(*set, extension@) == Some(*syntax),
            None => syntax_for(*set, extension@) is None,
        },
{
    set.find_syntax_by_extension(extension)
}

/// Looks `name` up in the public map `themes` of a `ThemeSet`.
#[verifier::external_body]
fn find_theme<'a>(set: &'a ThemeSet, name: &str) -> (r: Option<&'a Theme>)
    ensures
        match r {
            Some(theme) => theme_named(*set, name@) == Some(*theme),
            None => theme_named(*set, name@) is None,
        },
{
    set.themes.get(name)
}

/// Calls `HighlightLines::new`.
#[verifier::external_body]
fn start_engine<'a>(syntax: &SyntaxReference, theme: &'a Theme) -> (r: HighlightLines<'a>)
    ensures
        r == fresh_engine(*syntax, *theme),
{
    HighlightLines::new(syntax, theme)
}

/// Calls `HighlightLines::highlight_line` and keeps of each styled piece
/// its text and its foreground colour. The pieces of a line spell the line,
/// as the documentation of the crate's highlight iterator says. The engine
/// must work on a grammar of the set that it is handed: with another set
/// the crate may panic.
#[verifier::external_body]
fn highlight_line(engine: &mut HighlightLines<'_>, line: &str, set: &SyntaxSet) -> (r: Result<
    Vec<(String, Color)>,
    syntect::Error,
>)
    requires
        engine_on(*old(engine), *set),
    ensures
        line_step(*old(engine), *set, line@) == (
            match r {
                Ok(v) => Some(runs_of(v@)),
                Err(_) => None,
            },
            *final(engine),
        ),
        match r {
            Ok(v) => joined(runs_of(v@)) == line@,
            Err(_) => true,
        },
{
    let pieces = engine.highlight_line(line, set)?;
    Ok(
        pieces.into_iter().map(
            |(style, s)| (
                s.to_string(),
                Color { r: style.foreground.r, g: style.foreground.g, b: style.foreground.b },
            ),
        ).collect(),
    )
}

/// Collects `LinesWithEndings::from(content)`: the lines of the text, each
/// with its line feed.
#[verifier::external_body]
fn lines_with_endings<'a>(content: &'a str) -> (r: Vec<&'a str>)
    ensures
        texts_of(r@) == split_lines(content@),
{
    LinesWithEndings::from(content).collect()
}

impl CodeHighligher {
    /// The theme of the colours is at hand.
    pub closed spec fn wf(&self) -> bool {
        theme_named(self.ts, THEME@) is Some
    }

    /// A grammar is known for `extension`.
    pub closed spec fn supports(&self, extension: Seq<char>) -> bool {
        syntax_for(self.ps, extension) is Some
    }

    /// The runs that highlighting `content` under `extension` gives.
    pub closed spec fn highlighted(&self, extension: Seq<char>, content: Seq<char>) -> Result<
        Seq<RunModel>,
        HighlightError,
    > {
        match syntax_for(self.ps, extension) {
            None => Err(HighlightError::UnsupportedLanguage),
            Some(syntax) => match runs_after(
                fresh_engine(syntax, theme_named(self.ts, THEME@).unwrap()),
                self.ps,
                split_lines(content),
            ) {
                None => Err(HighlightError::Engine),
                Some(runs) => Ok(runs),
            },
        }
    }

    /// Colours `content` by the grammar of `extension`, line by line, the
    /// engine carrying its state from each line to the next.
    pub fn highlight(&self, extension: &str, content: &str) -> (r: Result<
        Vec<(String, Color)>,
        HighlightError,
    >)
        requires
            self.wf(),
        ensures
            self.highlighted(extension@, content@) == match r {
                Ok(v) => Ok::<Seq<RunModel>, HighlightError>(runs_of(v@)),
                Err(e) => Err(e),
            },
            r == Err::<Vec<(String, Color)>, HighlightError>(HighlightError::UnsupportedLanguage)
                <==> !self.supports(extension@),
            match r {
                Ok(v) => joined(runs_of(v@)) == content@,
                Err(_) => true,
            },
    {
        let syntax = match find_grammar(&self.ps, extension) {
            Some(syntax) => syntax,
            None => {
                return Err(HighlightError::UnsupportedLanguage);
            },
        };
        let theme = find_theme(&self.ts, THEME).unwrap();
        let mut engine = start_engine(syntax, theme);
        let ghost start = engine;
        let lines = lines_with_endings(content);
        let mut content_with_colors: Vec<(String, Color)> = Vec::new();
        let n: usize = lines.len();
        let mut i: usize = 0;
        proof {
            assert(runs_of(content_with_colors@) =~= Seq::<RunModel>::empty());
        }
        while i < n
            invariant
                i <= n,
                n == lines@.len(),
                syntax_for(self.ps, extension@) is Some,
                theme_named(self.ts, THEME@) == Some(*theme),
                texts_of(lines@) == split_lines(content@),
                start == fresh_engine(syntax_for(self.ps, extension@).unwrap(), *theme),
                engine == engine_after(start, self.ps, texts_of(lines@).take(i as int)),
                runs_after(start, self.ps, texts_of(lines@).take(i as int)) == Some(
                    runs_of(content_with_colors@),
                ),
                joined(runs_of(content_with_colors@)) == flat(texts_of(lines@).take(i as int)),
            decreases n - i,
        {
            let ghost fed = texts_of(lines@).take(i as int);
            let ghost next = texts_of(lines@).take(i + 1);
            let ghost before = runs_of(content_with_colors@);
            proof {
                assert(engine_from(self.ps, extension@, *theme, fed) == engine);
                assert(next.drop_last() =~= fed);
                assert(next.last() == lines@[i as int]@);
            }
            match highlight_line(&mut engine, lines[i], &self.ps) {
                Ok(mut runs) => {
                    proof {
                        lemma_joined_concat(before, runs_of(runs@));
                        assert(runs_of(content_with_colors@ + runs@) =~= before + runs_of(runs@));
                    }
                    content_with_colors.append(&mut runs);
                },
                Err(_) => {
                    proof {
                        assert(runs_after(start, self.ps, next) is None);
                        lemma_runs_after_stays_none(start, self.ps, texts_of(lines@), i + 1);
                    }
                    return Err(HighlightError::Engine);
                },
            }
            i += 1;
        }
        proof {
            assert(texts_of(lines@).take(n as int) =~= texts_of(lines@));
            lemma_split_lines_flat(content@);
        }
        Ok(content_with_colors)
    }
}

/// Once the engine has failed on a line, the text as a whole has no runs.
pub proof fn lemma_runs_after_stays_none(
    start: HighlightLines<'_>,
    set: SyntaxSet,
    lines: Seq<Seq<char>>,
    k: int,
)
    requires
        0 <= k <= lines.len(),
        runs_after(start, set, lines.take(k)) is None,
    ensures
        runs_after(start, set, lines) is None,
    decreases lines.len() - k,
{
    if k < lines.len() {
        assert(lines.take(k + 1).drop_last() =~= lines.take(k));
        lemma_runs_after_stays_none(start, set, lines, k + 1);
    } else {
        assert(lines.take(k) =~= lines);
    }
}

impl Default for CodeHighligher {
    fn default() -> (r: CodeHighligher)
        ensures
            r.wf(),
    {
        CodeHighligher { ps: default_grammars(), ts: default_themes() }
    }
}

} // verus!
