//! Highlighting a whole text in one pass.

use crate::lines::as_ints;
use crate::lines::generate_linestarts;
use crate::lines::line_starts;
use crate::notification::Color;
use crate::notification::Style;
use crate::parse::CachedParseState;
use crate::parse::fresh_stage;
use crate::parse::Grammar;
use crate::parse::lemma_stage_fails;
use crate::parse::span_views;
use crate::parse::SpanView;
use crate::parse::stage_at;
use crate::parse::token_views;
use crate::parse::tokens_at;
use crate::parse::TokenView;
use crate::parse::count_lines;
use crate::parse::HighlightedLine;
use crate::parse::HighlightError;
use crate::parse::line_of;
use crate::parse::lines_of;
use crate::parse::Span;
use crate::parse::span_text;
use crate::parse::Token;
use crate::parse::token_text;
use crate::parse::TokenStyle;
use syntect::highlighting::Highlighter;
use syntect::highlighting::Theme;
use vstd::prelude::*;
use vstd::string::StringSliceAdditionalSpecFns;
use vstd::utf8::*;

verus! {

/// The colours and styles that a theme gives to scopes.
#[verifier::external_type_specification]
#[verifier::external_body]
pub struct ExTheme(Theme);

/// The lines of a text as they are shown.
pub struct HighLightCache {
    pub lines: Vec<HighlightedLine>,
    /// Whether the text changed since the lines were made.
    pub dirty: bool,
}

/// The highlighter that `Highlighter::new` makes of `theme`.
pub uninterp spec fn theme_highlighter(theme: Theme) -> Highlighter<'static>;

/// `Highlighter::new`.
#[verifier::external_body]
fn new_highlighter<'a>(theme: &'a Theme) -> (highlighter: Highlighter<'a>)
    ensures
        highlighter == theme_highlighter(*theme),
{
    Highlighter::new(theme)
}

/// The colours in which a token is shown as it is: the foreground of the
/// theme, where it gives one, on the background of the terminal.
pub open spec fn plain_style(style: TokenStyle) -> Style {
    Style {
        fg: if style.foreground.a == 0 {
            None
        } else {
            Some(Color::Rgb(style.foreground.r, style.foreground.g, style.foreground.b))
        },
        bg: Some(Color::Reset),
    }
}

/// How a token is shown as it is.
pub open spec fn plain_span(token: TokenView) -> SpanView {
    SpanView {
        content: token.text,
        style: plain_style(token.style),
        font_style: token.style.font_style,
    }
}

/// How the tokens of a line are shown as they are.
pub open spec fn plain_shown(tokens: Seq<TokenView>) -> Seq<SpanView> {
    tokens.map_values(|token: TokenView| plain_span(token))
}

/// The spans that show `tokens` as they are.
pub fn plain_spans(tokens: Vec<Token>) -> (spans: Vec<Span>)
    ensures
        span_views(spans@) == plain_shown(token_views(tokens@)),
        spans@.len() == tokens@.len(),
        forall|i: int|
            0 <= i < spans@.len() ==> (#[trigger] spans@[i]).content@ == tokens@[i].text@
                && spans@[i].style == plain_style(tokens@[i].style) && spans@[i].font_style
                == tokens@[i].style.font_style,
        span_text(spans@) == token_text(tokens@),
{
    let mut spans: Vec<Span> = Vec::new();
    let mut i: usize = 0;
    while i < tokens.len()
        invariant
            i <= tokens@.len(),
            spans@.len() == i,
            forall|j: int|
                0 <= j < i ==> (#[trigger] spans@[j]).content@ == tokens@[j].text@
                    && spans@[j].style == plain_style(tokens@[j].style) && spans@[j].font_style
                    == tokens@[j].style.font_style,
            span_text(spans@) == token_text(tokens@.take(i as int)),
        decreases tokens@.len() - i,
    {
        let ghost before = spans@;
        let style = tokens[i].style;
        spans.push(
            Span {
                content: tokens[i].text.clone(),
                style: Style {
                    fg: if style.foreground.a == 0 {
                        None
                    } else {
                        Some(Color::Rgb(style.foreground.r, style.foreground.g, style.foreground.b))
                    },
                    bg: Some(Color::Reset),
                },
                font_style: style.font_style,
            },
        );
        proof {
            let done = tokens@.take(i as int + 1);
            assert(done.drop_last() =~= tokens@.take(i as int));
            assert(done.last() == tokens@[i as int]);
            assert(spans@.drop_last() =~= before);
        }
        i = i + 1;
    }
    assert(tokens@.take(i as int) =~= tokens@);
    assert(span_views(spans@) =~= plain_shown(token_views(tokens@)));
    spans
}

/// Highlights every line of `buffer` in one pass from its start, in the
/// colours of `theme`. Fails where the parser reports an error on a line,
/// and only there.
pub fn highlight(grammar: &Grammar<'_>, theme: &Theme, buffer: &str) -> (r: Result<
    HighLightCache,
    HighlightError,
>)
    ensures
        r is Ok <==> stage_at(
            fresh_stage(grammar.syntax(), theme_highlighter(*theme)),
            lines_of(buffer.spec_bytes()),
            0,
            lines_of(buffer.spec_bytes()).len() as int,
            grammar.set(),
            theme_highlighter(*theme),
        ) is Some,
        r is Ok ==> {
            let lines = lines_of(buffer.spec_bytes());
            &&& !r->Ok_0.dirty
            &&& r->Ok_0.lines@.len() == lines.len()
            &&& forall|i: int|
                0 <= i < lines.len() ==> span_views((#[trigger] r->Ok_0.lines@[i]).spans@)
                    == plain_shown(
                    tokens_at(
                        fresh_stage(grammar.syntax(), theme_highlighter(*theme)),
                        lines,
                        0,
                        i,
                        grammar.set(),
                        theme_highlighter(*theme),
                    ),
                )
        },
{
    let ghost lines = lines_of(buffer.spec_bytes());
    let ghost set = grammar.set();
    let highlighter = new_highlighter(theme);
    let ghost first = fresh_stage(grammar.syntax(), highlighter);
    let starts = generate_linestarts(buffer);
    let count = count_lines(buffer, &starts);
    let mut state = CachedParseState::new(&highlighter, grammar);
    let mut shown: Vec<HighlightedLine> = Vec::new();
    let mut line_no: usize = 0;
    while line_no < count
        invariant
            lines == lines_of(buffer.spec_bytes()),
            set == grammar.set(),
            highlighter == theme_highlighter(*theme),
            first == fresh_stage(grammar.syntax(), highlighter),
            as_ints(starts@) == line_starts(buffer.spec_bytes()),
            count == lines.len(),
            count + 1 <= starts@.len(),
            line_no <= count,
            stage_at(first, lines, 0, line_no as int, set, highlighter) == Some(state@),
            shown@.len() == line_no,
            forall|i: int|
                0 <= i < shown@.len() ==> span_views((#[trigger] shown@[i]).spans@) == plain_shown(
                    tokens_at(first, lines, 0, i, set, highlighter),
                ),
        decreases count - line_no,
    {
        let line = line_of(buffer, &starts, line_no);
        assert(line.spec_bytes() == lines[line_no as int]);
        let tokens = match state.advance(line, grammar, &highlighter) {
            Ok(tokens) => tokens,
            Err(cause) => {
                proof {
                    assert(stage_at(first, lines, 0, line_no + 1, set, highlighter) is None);
                    lemma_stage_fails(first, lines, 0, line_no + 1, count as int, set, highlighter);
                }
                return Err(HighlightError { cause });
            },
        };
        proof {
            assert(stage_at(first, lines, 0, line_no + 1, set, highlighter) == Some(state@));
        }
        let spans = plain_spans(tokens);
        shown.push(HighlightedLine { spans });
        line_no = line_no + 1;
    }
    Ok(HighLightCache { lines: shown, dirty: false })
}

} // verus!
