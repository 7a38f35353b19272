//! Rendering of text: whitespace substitution and the highlight cache.

pub mod whitespace;

use crate::lines::as_ints;
use crate::lines::generate_linestarts;
use crate::lines::lemma_line_start;
use crate::lines::lemma_line_starts_shape;
use crate::lines::line_starts;
use crate::notification::Color;
use crate::notification::Style;
use crate::text::lemma_boundary_after_ascii;
use crate::text::lemma_char_boundary;
use crate::text::slice;
use crate::text::string_push;
use std::collections::HashMap;
use syntect::highlighting::Highlighter;
use syntect::highlighting::HighlightIterator;
use syntect::highlighting::HighlightState;
use syntect::parsing::ParseState;
use syntect::parsing::ParsingError;
use syntect::parsing::ScopeStack;
use syntect::parsing::ScopeStackOp;
use syntect::parsing::SyntaxReference;
use syntect::parsing::SyntaxSet;
use vstd::prelude::*;
use vstd::std_specs::hash::group_hash_axioms;
use vstd::std_specs::vec::axiom_spec_len;
use vstd::string::StringSliceAdditionalSpecFns;
use vstd::utf8::*;

verus! {

/// Every how many lines the state of the highlighter is kept.
pub const CACHE_FREQUENCY: usize = 10;

/// The parser's stack between two lines.
#[verifier::external_type_specification]
#[verifier::external_body]
pub struct ExParseState(ParseState);

/// The scope stack and styles of the highlighter between two lines.
#[verifier::external_type_specification]
#[verifier::external_body]
pub struct ExHighlightState(HighlightState);

/// A theme made ready for looking styles up.
#[verifier::external_type_specification]
#[verifier::external_body]
pub struct ExHighlighter<'a>(Highlighter<'a>);

/// A syntax definition within a set.
#[verifier::external_type_specification]
#[verifier::external_body]
pub struct ExSyntaxReference(SyntaxReference);

/// A set of syntax definitions.
#[verifier::external_type_specification]
#[verifier::external_body]
pub struct ExSyntaxSet(SyntaxSet);

/// Why a line could not be parsed.
#[verifier::external_type_specification]
#[verifier::external_body]
pub struct ExParsingError(ParsingError);

/// One change of the scope stack that the parser reports for a line.
#[verifier::external_type_specification]
#[verifier::external_body]
pub struct ExScopeStackOp(ScopeStackOp);

/// The syntaxes that come with syntect, made for lines that keep their
/// line break.
///
/// The parser counts on a set whose every syntax has a start context and
/// whose patterns compile, and on states that were made for a syntax of the
/// set they parse with. The set that syntect brings along is such a set,
/// and one load of it is like any other. So this is the only set that the
/// library parses with: the fields of `Grammars`, `Grammar` and
/// `CachedParseState` are private, every `Grammar` is found in a `Grammars`
/// and every state is made for a `Grammar`.
pub struct Grammars {
    set: SyntaxSet,
}

/// One syntax of `Grammars`, with the set that holds it.
pub struct Grammar<'a> {
    set: &'a SyntaxSet,
    syntax: &'a SyntaxReference,
}

/// A snapshot of parser and highlighter from which highlighting can resume.
pub struct CachedParseState {
    ps: ParseState,
    hs: HighlightState,
}

/// Parser and highlighter between two lines, as values.
pub ghost struct Stage {
    pub parser: ParseState,
    pub painter: HighlightState,
}

/// The syntax that `SyntaxSet::find_syntax_by_extension` finds in `set` for
/// the file extension `extension`, given in bytes.
pub uninterp spec fn extension_syntax(set: SyntaxSet, extension: Seq<u8>) -> Option<SyntaxReference>;

/// The syntax that `SyntaxSet::find_syntax_by_first_line` finds in `set`
/// for a file whose first line is `line`, given in bytes.
pub uninterp spec fn first_line_syntax(set: SyntaxSet, line: Seq<u8>) -> Option<SyntaxReference>;

/// The syntax that `SyntaxSet::find_syntax_by_name` finds in `set` under
/// `name`, given in bytes.
pub uninterp spec fn named_syntax(set: SyntaxSet, name: Seq<u8>) -> Option<SyntaxReference>;

/// The parser that `ParseState::new` makes for `syntax`.
pub uninterp spec fn fresh_parser(syntax: SyntaxReference) -> ParseState;

/// The highlighter state that `HighlightState::new` makes for
/// `highlighter` on an empty scope stack.
pub uninterp spec fn fresh_painter(highlighter: Highlighter<'_>) -> HighlightState;

/// What `ParseState::parse_line` makes of `line`, given in bytes, with the
/// parser `ps` and the syntaxes of `set`: nothing where it reports an
/// error, else the parser behind the line and the changes of the scope
/// stack along it.
pub uninterp spec fn parse_outcome(ps: ParseState, line: Seq<u8>, set: SyntaxSet) -> Option<
    (ParseState, Seq<(usize, ScopeStackOp)>),
>;

/// What a `HighlightIterator` that is run to its end makes of `line`, given
/// in bytes, and of the changes `ops` that the parser reported for it: the
/// highlighter state behind the line, and the tokens of the line.
pub uninterp spec fn paint_outcome(
    hs: HighlightState,
    ops: Seq<(usize, ScopeStackOp)>,
    line: Seq<u8>,
    highlighter: Highlighter<'_>,
) -> (HighlightState, Seq<TokenView>);

/// `SyntaxSet::load_defaults_newlines`, which unpacks the syntaxes that are
/// part of syntect itself.
#[verifier::external_body]
fn packaged_syntaxes() -> SyntaxSet {
    SyntaxSet::load_defaults_newlines()
}

/// `SyntaxSet::find_syntax_by_extension` on the packaged set.
#[verifier::external_body]
fn syntax_by_extension<'a>(grammars: &'a Grammars, extension: &str) -> (r: Option<
    &'a SyntaxReference,
>)
    ensures
        r is Some <==> extension_syntax(grammars.set, extension.spec_bytes()) is Some,
        r is Some ==> *r->Some_0 == extension_syntax(grammars.set, extension.spec_bytes())->Some_0,
{
    grammars.set.find_syntax_by_extension(extension)
}

/// `SyntaxSet::find_syntax_by_first_line` on the packaged set. It compiles
/// the first-line patterns of the set when it is first called and does not
/// return where one of them is no pattern; those of the packaged set all
/// are.
#[verifier::external_body]
fn syntax_by_first_line<'a>(grammars: &'a Grammars, line: &str) -> (r: Option<&'a SyntaxReference>)
    ensures
        r is Some <==> first_line_syntax(grammars.set, line.spec_bytes()) is Some,
        r is Some ==> *r->Some_0 == first_line_syntax(grammars.set, line.spec_bytes())->Some_0,
{
    grammars.set.find_syntax_by_first_line(line)
}

/// `SyntaxSet::find_syntax_by_name` on the packaged set.
#[verifier::external_body]
fn syntax_by_name<'a>(grammars: &'a Grammars, name: &str) -> (r: Option<&'a SyntaxReference>)
    ensures
        r is Some <==> named_syntax(grammars.set, name.spec_bytes()) is Some,
        r is Some ==> *r->Some_0 == named_syntax(grammars.set, name.spec_bytes())->Some_0,
{
    grammars.set.find_syntax_by_name(name)
}

/// `Clone::clone` of a `SyntaxReference`, which copies every part of it.
#[verifier::external_body]
fn clone_syntax(syntax: &SyntaxReference) -> (copy: SyntaxReference)
    ensures
        copy == *syntax,
{
    syntax.clone()
}

/// `ParseState::new` for the syntax of `grammar`. It looks up the start
/// context of the syntax and does not return where there is none. Syntect
/// adds that context to every definition that it loads from a file, and
/// the packaged set was made from such definitions.
#[verifier::external_body]
fn new_parse_state(grammar: &Grammar<'_>) -> (ps: ParseState)
    ensures
        ps == fresh_parser(*grammar.syntax),
{
    ParseState::new(grammar.syntax)
}

/// `HighlightState::new` on an empty scope stack (`ScopeStack::new`).
#[verifier::external_body]
fn new_highlight_state(highlighter: &Highlighter<'_>) -> (hs: HighlightState)
    ensures
        hs == fresh_painter(*highlighter),
{
    HighlightState::new(highlighter, ScopeStack::new())
}

/// `Clone::clone` of a `ParseState`, which copies every part of it.
#[verifier::external_body]
fn clone_parse_state(ps: &ParseState) -> (copy: ParseState)
    ensures
        copy == *ps,
{
    ps.clone()
}

/// `Clone::clone` of a `HighlightState`, which copies every part of it.
#[verifier::external_body]
fn clone_highlight_state(hs: &HighlightState) -> (copy: HighlightState)
    ensures
        copy == *hs,
{
    hs.clone()
}

impl Grammars {
    /// The set of syntaxes itself.
    pub closed spec fn set(&self) -> SyntaxSet {
        self.set
    }

    /// The syntaxes that come with syntect.
    pub fn packaged() -> Grammars {
        Grammars { set: packaged_syntaxes() }
    }

    /// The syntax for files whose name ends in `extension`, if the set
    /// knows one.
    pub fn by_extension<'a>(&'a self, extension: &str) -> (found: Option<Grammar<'a>>)
        ensures
            found is Some <==> extension_syntax(self.set(), extension.spec_bytes()) is Some,
            found is Some ==> found->Some_0.is_of(self) && found->Some_0.syntax()
                == extension_syntax(self.set(), extension.spec_bytes())->Some_0,
    {
        match syntax_by_extension(self, extension) {
            Some(syntax) => Some(Grammar { set: &self.set, syntax }),
            None => None,
        }
    }

    /// The syntax that knows `line` as the first line of a file, if the set
    /// has one.
    pub fn by_first_line<'a>(&'a self, line: &str) -> (found: Option<Grammar<'a>>)
        ensures
            found is Some <==> first_line_syntax(self.set(), line.spec_bytes()) is Some,
            found is Some ==> found->Some_0.is_of(self) && found->Some_0.syntax()
                == first_line_syntax(self.set(), line.spec_bytes())->Some_0,
    {
        match syntax_by_first_line(self, line) {
            Some(syntax) => Some(Grammar { set: &self.set, syntax }),
            None => None,
        }
    }

    /// The syntax called `name`, if the set has one.
    pub fn by_name<'a>(&'a self, name: &str) -> (found: Option<Grammar<'a>>)
        ensures
            found is Some <==> named_syntax(self.set(), name.spec_bytes()) is Some,
            found is Some ==> found->Some_0.is_of(self) && found->Some_0.syntax() == named_syntax(
                self.set(),
                name.spec_bytes(),
            )->Some_0,
    {
        match syntax_by_name(self, name) {
            Some(syntax) => Some(Grammar { set: &self.set, syntax }),
            None => None,
        }
    }
}

impl<'a> Grammar<'a> {
    /// The set in which the syntax was found.
    pub closed spec fn set(&self) -> SyntaxSet {
        *self.set
    }

    /// The syntax itself.
    pub closed spec fn syntax(&self) -> SyntaxReference {
        *self.syntax
    }

    /// Whether this syntax was found in `grammars`.
    pub open spec fn is_of(&self, grammars: &Grammars) -> bool {
        self.set() == grammars.set()
    }

    /// A copy of the definition of the syntax, for keeping.
    pub fn definition(&self) -> (copy: SyntaxReference)
        ensures
            copy == self.syntax(),
    {
        clone_syntax(self.syntax)
    }
}

impl View for CachedParseState {
    type V = Stage;

    closed spec fn view(&self) -> Stage {
        Stage { parser: self.ps, painter: self.hs }
    }
}

/// The stage before the first line of a text in `syntax`, in the colours
/// of `highlighter`.
pub open spec fn fresh_stage(syntax: SyntaxReference, highlighter: Highlighter<'_>) -> Stage {
    Stage { parser: fresh_parser(syntax), painter: fresh_painter(highlighter) }
}

impl CachedParseState {
    /// The state before the first line of a text in the syntax of
    /// `grammar`.
    pub fn new(highlighter: &Highlighter<'_>, grammar: &Grammar<'_>) -> (state: CachedParseState)
        ensures
            state@ == fresh_stage(grammar.syntax(), *highlighter),
    {
        CachedParseState { ps: new_parse_state(grammar), hs: new_highlight_state(highlighter) }
    }

    /// A copy in the same state.
    pub fn snapshot(&self) -> (copy: CachedParseState)
        ensures
            copy@ == self@,
    {
        CachedParseState {
            ps: clone_parse_state(&self.ps),
            hs: clone_highlight_state(&self.hs),
        }
    }
}

/// Whether a snapshot kept under `key` outlives an invalidation from `from`.
pub fn key_below(key: usize, from: usize) -> (keep: bool)
    ensures
        keep == (key < from),
{
    key < from
}

/// `HashMap::retain`, keeping the entries whose key is below `from`.
#[verifier::external_body]
fn retain_below(states: &mut HashMap<usize, CachedParseState>, from: usize)
    ensures
        final(states)@ == old(states)@.restrict(Set::new(|k: usize| k < from)),
{
    states.retain(|k, _| key_below(*k, from))
}

/// Snapshots of the highlighter by the number of the line they are ready
/// for.
pub struct ParseCache {
    pub states: HashMap<usize, CachedParseState>,
}

impl ParseCache {
    /// The line numbers that hold a snapshot.
    pub open spec fn keys(&self) -> Set<usize> {
        self.states@.dom()
    }

    /// The snapshot kept for line `line`.
    pub open spec fn state(&self, line: usize) -> CachedParseState {
        self.states@[line]
    }

    /// Whether `key` is the nearest cached line below `from`.
    pub open spec fn is_closest(&self, from: usize, key: usize) -> bool {
        &&& key < from
        &&& self.keys().contains(key)
        &&& forall|k: usize| key < k < from ==> !self.keys().contains(k)
    }

    /// The line at which highlighting for line `from` sets in: the nearest
    /// cached line below `from`, or the first line where there is none.
    pub open spec fn start_line(&self, from: usize) -> usize {
        if exists|key: usize| self.is_closest(from, key) {
            choose|key: usize| self.is_closest(from, key)
        } else {
            0
        }
    }

    /// The stage in which highlighting for line `from` sets in: the
    /// snapshot kept for that nearest line, or the stage before the first
    /// line of a text in `syntax` and the colours of `highlighter`.
    pub open spec fn start_stage(
        &self,
        from: usize,
        syntax: SyntaxReference,
        highlighter: Highlighter<'_>,
    ) -> Stage {
        if exists|key: usize| self.is_closest(from, key) {
            self.state(self.start_line(from))@
        } else {
            fresh_stage(syntax, highlighter)
        }
    }

    /// The line behind the last one that goes through the highlighter for
    /// a window of `limit` lines behind line `from` of `count` lines.
    pub open spec fn window_end(&self, count: int, from: usize, limit: usize) -> int {
        if count <= self.start_line(from) {
            self.start_line(from) as int
        } else if from + limit + 1 <= count {
            from + limit + 1
        } else {
            count
        }
    }

    /// The stage before line `line_no` on the way through such a window;
    /// nothing where the parser reports an error before that line.
    pub open spec fn window_stage(
        &self,
        lines: Seq<Seq<u8>>,
        from: usize,
        line_no: int,
        syntax: SyntaxReference,
        set: SyntaxSet,
        highlighter: Highlighter<'_>,
    ) -> Option<Stage> {
        stage_at(
            self.start_stage(from, syntax, highlighter),
            lines,
            self.start_line(from) as int,
            line_no,
            set,
            highlighter,
        )
    }

    /// Whether the parser takes every line on the way through such a
    /// window.
    pub open spec fn window_parses(
        &self,
        lines: Seq<Seq<u8>>,
        from: usize,
        limit: usize,
        syntax: SyntaxReference,
        set: SyntaxSet,
        highlighter: Highlighter<'_>,
    ) -> bool {
        self.window_stage(
            lines,
            from,
            self.window_end(lines.len() as int, from, limit),
            syntax,
            set,
            highlighter,
        ) is Some
    }

    /// The tokens of line `line_no` on the way through such a window.
    pub open spec fn window_tokens(
        &self,
        lines: Seq<Seq<u8>>,
        from: usize,
        line_no: int,
        syntax: SyntaxReference,
        set: SyntaxSet,
        highlighter: Highlighter<'_>,
    ) -> Seq<TokenView> {
        tokens_at(
            self.start_stage(from, syntax, highlighter),
            lines,
            self.start_line(from) as int,
            line_no,
            set,
            highlighter,
        )
    }

    /// Whether the way through such a window comes to line `line_no` and
    /// keeps a snapshot there.
    pub open spec fn is_reached(
        &self,
        lines: Seq<Seq<u8>>,
        from: usize,
        limit: usize,
        line_no: usize,
        syntax: SyntaxReference,
        set: SyntaxSet,
        highlighter: Highlighter<'_>,
    ) -> bool {
        &&& is_sampled(line_no)
        &&& self.start_line(from) <= line_no < self.window_end(lines.len() as int, from, limit)
        &&& self.window_stage(lines, from, line_no as int, syntax, set, highlighter) is Some
    }

    /// Only one line is the nearest cached line below `from`.
    pub proof fn lemma_start_line(&self, from: usize, key: usize)
        requires
            self.is_closest(from, key),
        ensures
            self.start_line(from) == key,
    {
        let chosen = choose|k: usize| self.is_closest(from, k);
        if chosen < key {
            assert(!self.keys().contains(key));
        } else if key < chosen {
            assert(!self.keys().contains(chosen));
        }
    }

    /// A cache without snapshots.
    pub fn new() -> (cache: ParseCache)
        ensures
            cache.keys() == Set::<usize>::empty(),
    {
        ParseCache { states: HashMap::new() }
    }

    /// Discards every snapshot for line `from` or a later one.
    pub fn invalidate_from(&mut self, from: usize)
        ensures
            final(self).states@ == old(self).states@.restrict(Set::new(|k: usize| k < from)),
            forall|k: usize| final(self).keys().contains(k) <==> old(self).keys().contains(k) && k < from,
            forall|k: usize| final(self).keys().contains(k) ==> final(self).state(k) == old(self).state(k),
    {
        retain_below(&mut self.states, from);
    }

    /// Keeps `state` as the snapshot for line `line`.
    pub fn insert(&mut self, line: usize, state: CachedParseState)
        ensures
            final(self).states@ == old(self).states@.insert(line, state),
    {
        broadcast use group_hash_axioms;

        self.states.insert(line, state);
    }

    /// Find the closest usable cache state for a specific line: the nearest
    /// snapshot below `from`, if there is one.
    pub fn closest_state(&self, from: usize) -> (found: Option<(usize, &CachedParseState)>)
        ensures
            match found {
                Some((key, state)) => self.is_closest(from, key) && *state == self.state(key),
                None => forall|k: usize| k < from ==> !self.keys().contains(k),
            },
    {
        broadcast use group_hash_axioms;

        let mut i: usize = from;
        while i > 0
            invariant
                i <= from,
                forall|k: usize| i <= k < from ==> !self.keys().contains(k),
            decreases i,
        {
            i = i - 1;
            match self.states.get(&i) {
                Some(state) => {
                    return Some((i, state));
                },
                None => {},
            }
        }
        None
    }
}

/// What is shown in place of `c`: a tab becomes `TABSIZE` columns, and with
/// `decorate` every whitespace character becomes a visible mark.
pub open spec fn shown(c: char, decorate: bool) -> Seq<char> {
    if c == '\t' {
        if decorate {
            seq!['↦', '↦', '↦', '↦']
        } else {
            seq![' ', ' ', ' ', ' ']
        }
    } else if decorate && c == '\n' {
        seq!['¶', '\n']
    } else if decorate && c == '\r' {
        seq!['⁋']
    } else if decorate && c == ' ' {
        seq!['·']
    } else {
        seq![c]
    }
}

/// `text` with each character replaced by what is shown for it.
pub open spec fn replaced(text: Seq<char>, decorate: bool) -> Seq<char>
    decreases text.len(),
{
    if text.len() == 0 {
        Seq::empty()
    } else {
        replaced(text.drop_last(), decorate) + shown(text.last(), decorate)
    }
}

/// Appends to `out` what is shown in place of `c`.
fn push_shown(out: &mut String, c: char, decorate_whitespace: bool)
    ensures
        final(out)@ == old(out)@ + shown(c, decorate_whitespace),
{
    let ghost before = out@;
    if c == '\t' {
        let mark = if decorate_whitespace { '↦' } else { ' ' };
        let mut n: usize = 0;
        while n < whitespace::TABSIZE
            invariant
                n <= whitespace::TABSIZE,
                out@ == before + Seq::new(n as nat, |i: int| mark),
            decreases whitespace::TABSIZE - n,
        {
            string_push(out, mark);
            n = n + 1;
            assert(out@ =~= before + Seq::new(n as nat, |i: int| mark));
        }
        assert(Seq::new(4, |i: int| mark) =~= shown(c, decorate_whitespace));
    } else if decorate_whitespace && c == '\n' {
        string_push(out, '¶');
        string_push(out, '\n');
        assert(out@ =~= before + shown(c, decorate_whitespace));
    } else if decorate_whitespace && c == '\r' {
        string_push(out, '⁋');
        assert(out@ =~= before + shown(c, decorate_whitespace));
    } else if decorate_whitespace && c == ' ' {
        string_push(out, '·');
        assert(out@ =~= before + shown(c, decorate_whitespace));
    } else {
        string_push(out, c);
        assert(out@ =~= before + shown(c, decorate_whitespace));
    }
}

/// Replaces the characters that are not shown as they are: tabs by
/// `TABSIZE` columns and, with `decorate_whitespace`, all whitespace by
/// visible marks.
pub fn perform_str_replacements(str: &str, decorate_whitespace: bool) -> (out: String)
    ensures
        out@ == replaced(str@, decorate_whitespace),
{
    let mut out = String::new();
    for c in it: str.chars()
        invariant
            it.seq() == str@,
            out@ == replaced(str@.take(it.index() as int), decorate_whitespace),
    {
        push_shown(&mut out, c, decorate_whitespace);
        proof {
            let next = str@.take(it.index() as int + 1);
            assert(next.drop_last() =~= str@.take(it.index() as int));
            assert(next.last() == c);
        }
    }
    assert(str@.take(str@.len() as int) =~= str@);
    out
}

/// A colour as a theme gives it: red, green, blue and opacity.
#[derive(Debug, Clone, Copy, PartialEq, Eq, Structural)]
pub struct Rgba {
    pub r: u8,
    pub g: u8,
    pub b: u8,
    pub a: u8,
}

/// The style that a theme gives to a token.
#[derive(Debug, Clone, Copy, PartialEq, Eq, Structural)]
pub struct TokenStyle {
    pub foreground: Rgba,
    pub background: Rgba,
    /// Bold is 1, underline 2, italic 4.
    pub font_style: u8,
}

/// A token of a line with the style that the theme gives it.
#[derive(Debug)]
pub struct Token {
    pub style: TokenStyle,
    pub text: String,
}

/// A piece of a line as it is shown.
#[derive(Debug)]
pub struct Span {
    pub content: String,
    pub style: Style,
    /// Bold is 1, underline 2, italic 4.
    pub font_style: u8,
}

/// A token as a value: its style and its text.
pub ghost struct TokenView {
    pub style: TokenStyle,
    pub text: Seq<char>,
}

/// A span as a value: its content and its looks.
pub ghost struct SpanView {
    pub content: Seq<char>,
    pub style: Style,
    pub font_style: u8,
}

impl View for Token {
    type V = TokenView;

    open spec fn view(&self) -> TokenView {
        TokenView { style: self.style, text: self.text@ }
    }
}

impl View for Span {
    type V = SpanView;

    open spec fn view(&self) -> SpanView {
        SpanView { content: self.content@, style: self.style, font_style: self.font_style }
    }
}

/// The tokens as values.
pub open spec fn token_views(tokens: Seq<Token>) -> Seq<TokenView> {
    tokens.map_values(|token: Token| token@)
}

/// The spans as values.
pub open spec fn span_views(spans: Seq<Span>) -> Seq<SpanView> {
    spans.map_values(|span: Span| span@)
}

/// A line as it is shown.
#[derive(Debug)]
pub struct HighlightedLine {
    pub spans: Vec<Span>,
}

/// Why a window of lines could not be highlighted.
#[derive(Debug)]
pub struct HighlightError {
    /// What the parser reported.
    pub cause: ParsingError,
}

/// The texts of `tokens`, one behind the other.
pub open spec fn token_text(tokens: Seq<Token>) -> Seq<char>
    decreases tokens.len(),
{
    if tokens.len() == 0 {
        Seq::empty()
    } else {
        token_text(tokens.drop_last()) + tokens.last().text@
    }
}

/// The contents of `spans`, one behind the other.
pub open spec fn span_text(spans: Seq<Span>) -> Seq<char>
    decreases spans.len(),
{
    if spans.len() == 0 {
        Seq::empty()
    } else {
        span_text(spans.drop_last()) + spans.last().content@
    }
}

/// A token from its parts.
pub fn make_token(foreground: Rgba, background: Rgba, font_style: u8, text: String) -> (token:
    Token)
    ensures
        token.style == (TokenStyle { foreground, background, font_style }),
        token.text == text,
{
    Token { style: TokenStyle { foreground, background, font_style }, text }
}

/// `ParseState::parse_line` on `line`, whose result goes to a
/// Whether `ops` are the changes that the parser reported for `line`, with
/// whatever parser and syntaxes.
pub open spec fn is_parse_of(line: Seq<u8>, ops: Seq<(usize, ScopeStackOp)>) -> bool {
    exists|ps: ParseState, set: SyntaxSet|
        (#[trigger] parse_outcome(ps, line, set)) is Some && parse_outcome(ps, line, set)->Some_0.1
            == ops
}

/// `ParseState::parse_line` with the set of `grammar`. The parser asks for
/// the set that holds the syntax for which the state was made; every state
/// and every `Grammar` stem from the packaged set. The call moves the
/// parser on and leaves the highlighter alone.
#[verifier::external_body]
fn parse_line(state: &mut CachedParseState, line: &str, grammar: &Grammar<'_>) -> (r: Result<
    Vec<(usize, ScopeStackOp)>,
    ParsingError,
>)
    ensures
        r is Ok <==> parse_outcome(old(state).ps, line.spec_bytes(), *grammar.set) is Some,
        r is Ok ==> final(state).ps == parse_outcome(
            old(state).ps,
            line.spec_bytes(),
            *grammar.set,
        )->Some_0.0 && r->Ok_0@ == parse_outcome(
            old(state).ps,
            line.spec_bytes(),
            *grammar.set,
        )->Some_0.1,
        final(state).hs == old(state).hs,
{
    state.ps.parse_line(line, grammar.set)
}

/// `HighlightIterator` (`HighlightIterator::new`) that is run to its end
/// over the changes that the parser reported for this line. The iterator
/// cuts the line into pieces from its start on, and may stop early: the
/// tokens, one behind the other, are a start of the line. The call moves
/// the highlighter on and leaves the parser alone.
#[verifier::external_body]
fn paint_line(
    state: &mut CachedParseState,
    ops: &Vec<(usize, ScopeStackOp)>,
    line: &str,
    highlighter: &Highlighter<'_>,
) -> (tokens: Vec<Token>)
    requires
        is_parse_of(line.spec_bytes(), ops@),
    ensures
        token_views(tokens@) == paint_outcome(
            old(state).hs,
            ops@,
            line.spec_bytes(),
            *highlighter,
        ).1,
        token_text(tokens@).is_prefix_of(line@),
        final(state).hs == paint_outcome(old(state).hs, ops@, line.spec_bytes(), *highlighter).0,
        final(state).ps == old(state).ps,
{
    HighlightIterator::new(&mut state.hs, ops, line, highlighter).map(
        |(style, text)|
            make_token(
                Rgba { r: style.foreground.r, g: style.foreground.g, b: style.foreground.b, a: style.foreground.a },
                Rgba { r: style.background.r, g: style.background.g, b: style.background.b, a: style.background.a },
                style.font_style.bits(),
                text.to_owned(),
            ),
    ).collect()
}

/// What `line` makes of `stage`: the stage behind the line and the tokens
/// of the line, or nothing where the parser reports an error.
pub open spec fn fed(stage: Stage, line: Seq<u8>, set: SyntaxSet, highlighter: Highlighter<'_>) -> Option<
    (Stage, Seq<TokenView>),
> {
    match parse_outcome(stage.parser, line, set) {
        Some(parsed) => {
            let painted = paint_outcome(stage.painter, parsed.1, line, highlighter);
            Some((Stage { parser: parsed.0, painter: painted.0 }, painted.1))
        },
        None => None,
    }
}

/// What the lines `lo` up to `hi` of `lines`, fed one after the other, make
/// of `stage`; nothing where the parser reports an error on one of them.
pub open spec fn stage_at(
    stage: Stage,
    lines: Seq<Seq<u8>>,
    lo: int,
    hi: int,
    set: SyntaxSet,
    highlighter: Highlighter<'_>,
) -> Option<Stage>
    decreases hi - lo,
{
    if hi <= lo {
        Some(stage)
    } else {
        match stage_at(stage, lines, lo, hi - 1, set, highlighter) {
            Some(before) => match fed(before, lines[hi - 1], set, highlighter) {
                Some(next) => Some(next.0),
                None => None,
            },
            None => None,
        }
    }
}

/// The tokens of line `line_no` of `lines` for a highlighter that was
/// `stage` before line `lo` and has taken every line since; none where the
/// parser reports an error on the way.
pub open spec fn tokens_at(
    stage: Stage,
    lines: Seq<Seq<u8>>,
    lo: int,
    line_no: int,
    set: SyntaxSet,
    highlighter: Highlighter<'_>,
) -> Seq<TokenView> {
    match stage_at(stage, lines, lo, line_no, set, highlighter) {
        Some(before) => match fed(before, lines[line_no], set, highlighter) {
            Some(next) => next.1,
            None => Seq::empty(),
        },
        None => Seq::empty(),
    }
}

/// Feeding the lines up to `mid` and then those from `mid` on is feeding
/// them all.
pub proof fn lemma_stage_split(
    stage: Stage,
    lines: Seq<Seq<u8>>,
    lo: int,
    mid: int,
    hi: int,
    set: SyntaxSet,
    highlighter: Highlighter<'_>,
)
    requires
        lo <= mid <= hi,
        stage_at(stage, lines, lo, mid, set, highlighter) is Some,
    ensures
        stage_at(stage, lines, lo, hi, set, highlighter) == stage_at(
            stage_at(stage, lines, lo, mid, set, highlighter)->Some_0,
            lines,
            mid,
            hi,
            set,
            highlighter,
        ),
    decreases hi - mid,
{
    if hi > mid {
        lemma_stage_split(stage, lines, lo, mid, hi - 1, set, highlighter);
    }
}

/// Where the parser reports an error on the way to `mid`, it does so on
/// the way to every later line.
pub proof fn lemma_stage_fails(
    stage: Stage,
    lines: Seq<Seq<u8>>,
    lo: int,
    mid: int,
    hi: int,
    set: SyntaxSet,
    highlighter: Highlighter<'_>,
)
    requires
        mid <= hi,
        stage_at(stage, lines, lo, mid, set, highlighter) is None,
    ensures
        stage_at(stage, lines, lo, hi, set, highlighter) is None,
    decreases hi - mid,
{
    if hi > mid {
        lemma_stage_fails(stage, lines, lo, mid, hi - 1, set, highlighter);
    }
}

impl CachedParseState {
    /// Feeds `line` to parser and highlighter, and gives the tokens of the
    /// line, which are a start of it. Fails where the parser reports an
    /// error.
    pub fn advance(
        &mut self,
        line: &str,
        grammar: &Grammar<'_>,
        highlighter: &Highlighter<'_>,
    ) -> (r: Result<Vec<Token>, ParsingError>)
        ensures
            r is Ok <==> fed(old(self)@, line.spec_bytes(), grammar.set(), *highlighter) is Some,
            r is Ok ==> {
                let next = fed(old(self)@, line.spec_bytes(), grammar.set(), *highlighter)->Some_0;
                &&& final(self)@ == next.0
                &&& token_views(r->Ok_0@) == next.1
                &&& token_text(r->Ok_0@).is_prefix_of(line@)
            },
    {
        match parse_line(self, line, grammar) {
            Ok(ops) => Ok(paint_line(self, &ops, line, highlighter)),
            Err(cause) => Err(cause),
        }
    }
}

/// The colours in which a token is shown. The background is always that
/// of the terminal. The foreground is that of the terminal where the theme
/// gives the token no background, is left alone where the theme gives it
/// no foreground, and is that of the theme else.
pub open spec fn shown_style(style: TokenStyle) -> Style {
    Style {
        fg: if style.background.a == 0 {
            Some(Color::Reset)
        } else if style.foreground.a == 0 {
            None
        } else {
            Some(Color::Rgb(style.foreground.r, style.foreground.g, style.foreground.b))
        },
        bg: Some(Color::Reset),
    }
}

/// The colours in which a token is shown.
pub fn token_style(style: TokenStyle) -> (shown: Style)
    ensures
        shown == shown_style(style),
{
    Style {
        fg: if style.background.a == 0 {
            Some(Color::Reset)
        } else if style.foreground.a == 0 {
            None
        } else {
            Some(Color::Rgb(style.foreground.r, style.foreground.g, style.foreground.b))
        },
        bg: Some(Color::Reset),
    }
}

/// Replacing distributes over putting texts one behind the other.
pub proof fn lemma_replaced_add(a: Seq<char>, b: Seq<char>, decorate: bool)
    ensures
        replaced(a + b, decorate) == replaced(a, decorate) + replaced(b, decorate),
    decreases b.len(),
{
    if b.len() == 0 {
        assert(a + b =~= a);
        assert(replaced(a, decorate) + replaced(b, decorate) =~= replaced(a, decorate));
    } else {
        lemma_replaced_add(a, b.drop_last(), decorate);
        assert((a + b).drop_last() =~= a + b.drop_last());
        assert((a + b).last() == b.last());
        assert(replaced(a + b, decorate) =~= replaced(a, decorate) + replaced(b, decorate));
    }
}

/// How a token is shown: its whitespace replaced, in the colours in which
/// it is shown.
pub open spec fn shown_span(token: TokenView, show_whitespace: bool) -> SpanView {
    SpanView {
        content: replaced(token.text, show_whitespace),
        style: shown_style(token.style),
        font_style: token.style.font_style,
    }
}

/// How the tokens of a line are shown.
pub open spec fn shown_spans(tokens: Seq<TokenView>, show_whitespace: bool) -> Seq<SpanView> {
    tokens.map_values(|token: TokenView| shown_span(token, show_whitespace))
}

/// The spans that show `tokens`: each token with its whitespace replaced
/// and in the colours in which it is shown.
pub fn show_tokens(tokens: &Vec<Token>, show_whitespace: bool) -> (spans: Vec<Span>)
    ensures
        spans@.len() == tokens@.len(),
        forall|i: int|
            0 <= i < spans@.len() ==> (#[trigger] spans@[i]).content@ == replaced(
                tokens@[i].text@,
                show_whitespace,
            ) && spans@[i].style == shown_style(tokens@[i].style) && spans@[i].font_style
                == tokens@[i].style.font_style,
        span_text(spans@) == replaced(token_text(tokens@), show_whitespace),
        span_views(spans@) == shown_spans(token_views(tokens@), show_whitespace),
{
    let mut spans: Vec<Span> = Vec::new();
    let mut i: usize = 0;
    while i < tokens.len()
        invariant
            i <= tokens@.len(),
            spans@.len() == i,
            forall|j: int|
                0 <= j < i ==> (#[trigger] spans@[j]).content@ == replaced(
                    tokens@[j].text@,
                    show_whitespace,
                ) && spans@[j].style == shown_style(tokens@[j].style) && spans@[j].font_style
                    == tokens@[j].style.font_style,
            span_text(spans@) == replaced(token_text(tokens@.take(i as int)), show_whitespace),
        decreases tokens@.len() - i,
    {
        let ghost before = spans@;
        spans.push(
            Span {
                content: perform_str_replacements(tokens[i].text.as_str(), show_whitespace),
                style: token_style(tokens[i].style),
                font_style: tokens[i].style.font_style,
            },
        );
        proof {
            let done = tokens@.take(i as int + 1);
            assert(done.drop_last() =~= tokens@.take(i as int));
            assert(done.last() == tokens@[i as int]);
            assert(spans@.drop_last() =~= before);
            lemma_replaced_add(
                token_text(tokens@.take(i as int)),
                tokens@[i as int].text@,
                show_whitespace,
            );
        }
        i = i + 1;
    }
    assert(tokens@.take(i as int) =~= tokens@);
    assert(span_views(spans@) =~= shown_spans(token_views(tokens@), show_whitespace));
    spans
}

/// The number of lines of a text that hold something: one for each line
/// feed, and one more for what follows the last.
pub open spec fn filled_lines(text: Seq<u8>) -> int {
    let table = line_starts(text);
    if table[table.len() - 2] == text.len() {
        table.len() - 2
    } else {
        table.len() - 1
    }
}

/// The lines of a text that hold something, each with its line feed.
pub open spec fn lines_of(text: Seq<u8>) -> Seq<Seq<u8>> {
    Seq::new(
        filled_lines(text) as nat,
        |i: int| text.subrange(line_starts(text)[i], line_starts(text)[i + 1]),
    )
}

/// The line `line_no` of `content`, whose line table is `starts`, with its
/// line feed.
pub fn line_of<'a>(content: &'a str, starts: &Vec<usize>, line_no: usize) -> (line: &'a str)
    requires
        as_ints(starts@) == line_starts(content.spec_bytes()),
        line_no + 1 < starts@.len(),
    ensures
        line.spec_bytes() == content.spec_bytes().subrange(
            line_starts(content.spec_bytes())[line_no as int],
            line_starts(content.spec_bytes())[line_no + 1],
        ),
{
    let ghost text = content.spec_bytes();
    let ghost table = line_starts(text);
    proof {
        encode_utf8_valid_utf8(content@);
        axiom_spec_len(starts);
        lemma_line_start(text, line_no as int);
        lemma_line_start(text, line_no as int + 1);
        lemma_line_starts_shape(text);
        assert(as_ints(starts@)[line_no as int] == starts@[line_no as int]);
        assert(as_ints(starts@)[line_no + 1] == starts@[line_no + 1]);
        let a = table[line_no as int];
        let b = table[line_no + 1];
        lemma_char_boundary(text, a);
        lemma_char_boundary(text, b);
        if 0 < a < text.len() {
            lemma_boundary_after_ascii(text, a - 1);
        }
        if 0 < b < text.len() {
            lemma_boundary_after_ascii(text, b - 1);
        }
    }
    slice(content, starts[line_no], starts[line_no + 1])
}

/// The number of lines of `content`, whose line table is `starts`, that
/// hold something.
pub fn count_lines(content: &str, starts: &Vec<usize>) -> (count: usize)
    requires
        as_ints(starts@) == line_starts(content.spec_bytes()),
    ensures
        count == lines_of(content.spec_bytes()).len(),
        count + 1 <= starts@.len(),
{
    proof {
        lemma_line_starts_shape(content.spec_bytes());
        assert(as_ints(starts@).len() == starts@.len());
        assert(as_ints(starts@)[starts@.len() - 2] == starts@[starts@.len() - 2]);
        assert(as_ints(starts@)[starts@.len() - 1] == starts@[starts@.len() - 1]);
    }
    let entries = starts.len();
    if starts[entries - 2] == starts[entries - 1] {
        entries - 2
    } else {
        entries - 1
    }
}

/// Whether every snapshot of `cache` is right for `lines`: it is the stage
/// of a highlighter that started before the first line, in `syntax` and
/// the colours of `highlighter`, and has taken exactly the lines before
/// the line that the snapshot is kept for.
pub open spec fn consistent(
    cache: Map<usize, CachedParseState>,
    lines: Seq<Seq<u8>>,
    syntax: SyntaxReference,
    set: SyntaxSet,
    highlighter: Highlighter<'_>,
) -> bool {
    forall|k: usize| #[trigger]
        cache.dom().contains(k) ==> k <= lines.len() && stage_at(
            fresh_stage(syntax, highlighter),
            lines,
            0,
            k as int,
            set,
            highlighter,
        ) == Some(cache[k]@)
}

/// The number of lines that a window of `limit` lines behind line `from`
/// shows of `count` lines.
pub open spec fn window_len(count: int, from: int, limit: int) -> int {
    if from >= count {
        0
    } else if from + limit >= count {
        count - from
    } else {
        limit + 1
    }
}

/// Where a line number is one at which the state of the highlighter is
/// kept.
pub open spec fn is_sampled(line: usize) -> bool {
    line % CACHE_FREQUENCY == 0
}

/// Highlights the lines `from` to `from + limit` of `content`. Starts from
/// the nearest snapshot below `from`, or from the start of the text, feeds
/// the lines up to `from` to the highlighter without showing them, and
/// keeps a snapshot at every line on its way whose number is a multiple of
/// `CACHE_FREQUENCY`.
///
/// Every line of the text gives one line shown, however long it is: no
/// line is broken. The call fails where the parser reports an error on a
/// line on the way, and only there; the snapshots taken up to that line
/// stay. Where every snapshot of the cache is right for `content`, so is
/// every snapshot afterwards.
pub fn parse_from(
    from: usize,
    content: &str,
    limit: usize,
    cache: &mut ParseCache,
    highlighter: &Highlighter<'_>,
    grammar: &Grammar<'_>,
    show_whitespace: bool,
) -> (r: Result<Vec<HighlightedLine>, HighlightError>)
    ensures
        r is Ok <==> old(cache).window_parses(
            lines_of(content.spec_bytes()),
            from,
            limit,
            grammar.syntax(),
            grammar.set(),
            *highlighter,
        ),
        r is Ok ==> {
            let lines = lines_of(content.spec_bytes());
            &&& r->Ok_0@.len() == window_len(lines.len() as int, from as int, limit as int)
            &&& forall|i: int|
                0 <= i < r->Ok_0@.len() ==> span_views((#[trigger] r->Ok_0@[i]).spans@)
                    == shown_spans(
                    old(cache).window_tokens(
                        lines,
                        from,
                        from + i,
                        grammar.syntax(),
                        grammar.set(),
                        *highlighter,
                    ),
                    show_whitespace,
                )
        },
        forall|k: usize| #[trigger]
            final(cache).keys().contains(k) <==> old(cache).keys().contains(k) || old(
                cache,
            ).is_reached(
                lines_of(content.spec_bytes()),
                from,
                limit,
                k,
                grammar.syntax(),
                grammar.set(),
                *highlighter,
            ),
        forall|k: usize| #[trigger]
            final(cache).keys().contains(k) ==> if old(cache).is_reached(
                lines_of(content.spec_bytes()),
                from,
                limit,
                k,
                grammar.syntax(),
                grammar.set(),
                *highlighter,
            ) {
                Some(final(cache).state(k)@) == old(cache).window_stage(
                    lines_of(content.spec_bytes()),
                    from,
                    k as int,
                    grammar.syntax(),
                    grammar.set(),
                    *highlighter,
                )
            } else {
                final(cache).state(k) == old(cache).state(k)
            },
        consistent(
            old(cache).states@,
            lines_of(content.spec_bytes()),
            grammar.syntax(),
            grammar.set(),
            *highlighter,
        ) ==> consistent(
            final(cache).states@,
            lines_of(content.spec_bytes()),
            grammar.syntax(),
            grammar.set(),
            *highlighter,
        ),
{
    broadcast use group_hash_axioms;

    let ghost text = content.spec_bytes();
    let ghost lines = lines_of(text);
    let ghost syntax = grammar.syntax();
    let ghost set = grammar.set();
    let ghost first = cache.start_stage(from, syntax, *highlighter);
    let ghost end = cache.window_end(lines.len() as int, from, limit);
    let starts = generate_linestarts(content);
    let count = count_lines(content, &starts);
    let (start, mut state) = match cache.closest_state(from) {
        Some((key, kept)) => (key, kept.snapshot()),
        None => (0, CachedParseState::new(highlighter, grammar)),
    };
    proof {
        if start > 0 {
            cache.lemma_start_line(from, start);
        } else if exists|key: usize| cache.is_closest(from, key) {
            let key = choose|key: usize| cache.is_closest(from, key);
            assert(cache.keys().contains(key));
            cache.lemma_start_line(from, key);
        }
        assert(start == cache.start_line(from));
        assert(state@ == first);
    }
    let last = from.saturating_add(limit);
    let mut shown: Vec<HighlightedLine> = Vec::new();
    let mut line_no: usize = start;
    while line_no < count && line_no <= last
        invariant
            text == content.spec_bytes(),
            lines == lines_of(text),
            syntax == grammar.syntax(),
            set == grammar.set(),
            first == old(cache).start_stage(from, syntax, *highlighter),
            end == old(cache).window_end(lines.len() as int, from, limit),
            as_ints(starts@) == line_starts(text),
            count == lines.len(),
            count + 1 <= starts@.len(),
            last == from.saturating_add(limit),
            start == old(cache).start_line(from),
            start <= from,
            start <= line_no <= end,
            stage_at(first, lines, start as int, line_no as int, set, *highlighter) == Some(state@),
            forall|j: int|
                start <= j <= line_no ==> (#[trigger] stage_at(
                    first,
                    lines,
                    start as int,
                    j,
                    set,
                    *highlighter,
                )) is Some,
            forall|k: usize| #[trigger]
                cache.keys().contains(k) <==> old(cache).keys().contains(k) || (is_sampled(k)
                    && start <= k < line_no),
            forall|k: usize| #[trigger]
                cache.keys().contains(k) ==> if is_sampled(k) && start <= k < line_no {
                    Some(cache.state(k)@) == stage_at(
                        first,
                        lines,
                        start as int,
                        k as int,
                        set,
                        *highlighter,
                    )
                } else {
                    cache.state(k) == old(cache).state(k)
                },
            shown@.len() == (if line_no > from {
                line_no - from
            } else {
                0
            }),
            forall|i: int|
                0 <= i < shown@.len() ==> span_views((#[trigger] shown@[i]).spans@) == shown_spans(
                    tokens_at(first, lines, start as int, from + i, set, *highlighter),
                    show_whitespace,
                ),
        decreases count - line_no,
    {
        let ghost prior = *cache;
        if line_no % CACHE_FREQUENCY == 0 {
            cache.insert(line_no, state.snapshot());
        }
        proof {
            assert(line_no < end);
            assert forall|k: usize| #[trigger]
                cache.keys().contains(k) <==> old(cache).keys().contains(k) || (is_sampled(k)
                    && start <= k <= line_no) by {
                if k != line_no {
                    assert(cache.keys().contains(k) == prior.keys().contains(k));
                }
            }
            assert forall|k: usize| #[trigger] cache.keys().contains(k) implies if is_sampled(k)
                && start <= k <= line_no {
                Some(cache.state(k)@) == stage_at(
                    first,
                    lines,
                    start as int,
                    k as int,
                    set,
                    *highlighter,
                )
            } else {
                cache.state(k) == old(cache).state(k)
            } by {
                if k != line_no || !is_sampled(line_no) {
                    assert(prior.keys().contains(k));
                    assert(cache.state(k) == prior.state(k));
                }
            }
        }
        let line = line_of(content, &starts, line_no);
        assert(line.spec_bytes() == lines[line_no as int]);
        let tokens = match state.advance(line, grammar, highlighter) {
            Ok(tokens) => tokens,
            Err(cause) => {
                proof {
                    assert(stage_at(first, lines, start as int, line_no + 1, set, *highlighter)
                        is None);
                    lemma_stage_fails(first, lines, start as int, line_no + 1, end, set, *highlighter);
                    assert forall|k: usize|
                        old(cache).is_reached(
                            lines,
                            from,
                            limit,
                            k,
                            syntax,
                            set,
                            *highlighter,
                        ) == (is_sampled(k) && start <= k <= line_no) by {
                        if line_no < k {
                            lemma_stage_fails(
                                first,
                                lines,
                                start as int,
                                line_no + 1,
                                k as int,
                                set,
                                *highlighter,
                            );
                        } else if start <= k {
                            assert(stage_at(first, lines, start as int, k as int, set, *highlighter)
                                is Some);
                        }
                    }
                    if consistent(old(cache).states@, lines, syntax, set, *highlighter) {
                        lemma_parse_keeps_cache_right(
                            *old(cache),
                            *cache,
                            lines,
                            from,
                            limit,
                            syntax,
                            set,
                            *highlighter,
                        );
                    }
                }
                return Err(HighlightError { cause });
            },
        };
        proof {
            assert(stage_at(first, lines, start as int, line_no + 1, set, *highlighter) == Some(
                state@,
            ));
        }
        if line_no >= from {
            let spans = show_tokens(&tokens, show_whitespace);
            shown.push(HighlightedLine { spans });
        }
        line_no = line_no + 1;
    }
    proof {
        assert(line_no == end);
        assert forall|k: usize|
            old(cache).is_reached(lines, from, limit, k, syntax, set, *highlighter) == (is_sampled(
                k,
            ) && start <= k < line_no) by {
            if start <= k < line_no {
                assert(stage_at(first, lines, start as int, k as int, set, *highlighter) is Some);
            }
        }
        if consistent(old(cache).states@, lines, syntax, set, *highlighter) {
            lemma_parse_keeps_cache_right(
                *old(cache),
                *cache,
                lines,
                from,
                limit,
                syntax,
                set,
                *highlighter,
            );
        }
    }
    Ok(shown)
}

/// The stage in which a window sets in with a cache whose snapshots are
/// right is that of one pass over the lines before it.
pub proof fn lemma_start_is_one_pass(
    cache: ParseCache,
    lines: Seq<Seq<u8>>,
    from: usize,
    syntax: SyntaxReference,
    set: SyntaxSet,
    highlighter: Highlighter<'_>,
)
    requires
        consistent(cache.states@, lines, syntax, set, highlighter),
    ensures
        cache.start_line(from) <= from,
        cache.start_line(from) <= lines.len(),
        stage_at(
            fresh_stage(syntax, highlighter),
            lines,
            0,
            cache.start_line(from) as int,
            set,
            highlighter,
        ) == Some(cache.start_stage(from, syntax, highlighter)),
{
    if exists|key: usize| cache.is_closest(from, key) {
        let key = choose|key: usize| cache.is_closest(from, key);
        assert(cache.states@.dom().contains(key));
    }
}

/// Where the snapshots of a cache are right for a text, so are those that
/// a way through a window adds to it.
pub proof fn lemma_parse_keeps_cache_right(
    before: ParseCache,
    after: ParseCache,
    lines: Seq<Seq<u8>>,
    from: usize,
    limit: usize,
    syntax: SyntaxReference,
    set: SyntaxSet,
    highlighter: Highlighter<'_>,
)
    requires
        consistent(before.states@, lines, syntax, set, highlighter),
        forall|k: usize| #[trigger]
            after.keys().contains(k) ==> if before.is_reached(
                lines,
                from,
                limit,
                k,
                syntax,
                set,
                highlighter,
            ) {
                Some(after.state(k)@) == before.window_stage(
                    lines,
                    from,
                    k as int,
                    syntax,
                    set,
                    highlighter,
                )
            } else {
                before.keys().contains(k) && after.state(k) == before.state(k)
            },
    ensures
        consistent(after.states@, lines, syntax, set, highlighter),
{
    lemma_start_is_one_pass(before, lines, from, syntax, set, highlighter);
    let start = before.start_line(from) as int;
    assert forall|k: usize| #[trigger] after.states@.dom().contains(k) implies k <= lines.len()
        && stage_at(fresh_stage(syntax, highlighter), lines, 0, k as int, set, highlighter) == Some(
        after.states@[k]@,
    ) by {
        assert(after.keys().contains(k));
        if before.is_reached(lines, from, limit, k, syntax, set, highlighter) {
            lemma_stage_split(
                fresh_stage(syntax, highlighter),
                lines,
                0,
                start,
                k as int,
                set,
                highlighter,
            );
        } else {
            assert(before.states@.dom().contains(k));
        }
    }
}

/// A cache without snapshots is right for every text.
pub proof fn law_empty_cache_is_right(
    lines: Seq<Seq<u8>>,
    syntax: SyntaxReference,
    set: SyntaxSet,
    highlighter: Highlighter<'_>,
)
    ensures
        consistent(Map::<usize, CachedParseState>::empty(), lines, syntax, set, highlighter),
{
}

/// Dropping snapshots keeps every snapshot that stays right: where each
/// snapshot of a cache is right for a text, the same holds once the cache
/// is invalidated from any line on.
pub proof fn law_invalidation_keeps_snapshots(
    cache: Map<usize, CachedParseState>,
    lines: Seq<Seq<u8>>,
    from: usize,
    syntax: SyntaxReference,
    set: SyntaxSet,
    highlighter: Highlighter<'_>,
)
    requires
        consistent(cache, lines, syntax, set, highlighter),
    ensures
        consistent(cache.restrict(Set::new(|k: usize| k < from)), lines, syntax, set, highlighter),
{
}

/// A window that is highlighted with a cache whose snapshots are right
/// shows what one pass from the first line shows, which is what a cache
/// without snapshots gives: the parser takes the lines of the one where it
/// takes those of the other, and every line from `from` on has the same
/// tokens, and so the same spans.
pub proof fn law_cached_parse_is_one_pass(
    cache: ParseCache,
    empty: ParseCache,
    lines: Seq<Seq<u8>>,
    from: usize,
    limit: usize,
    syntax: SyntaxReference,
    set: SyntaxSet,
    highlighter: Highlighter<'_>,
)
    requires
        consistent(cache.states@, lines, syntax, set, highlighter),
        empty.keys() == Set::<usize>::empty(),
    ensures
        cache.window_parses(lines, from, limit, syntax, set, highlighter) == empty.window_parses(
            lines,
            from,
            limit,
            syntax,
            set,
            highlighter,
        ),
        forall|line_no: int|
            from <= line_no ==> #[trigger] cache.window_tokens(
                lines,
                from,
                line_no,
                syntax,
                set,
                highlighter,
            ) == empty.window_tokens(lines, from, line_no, syntax, set, highlighter),
{
    let fresh = fresh_stage(syntax, highlighter);
    let start = cache.start_line(from) as int;
    lemma_start_is_one_pass(cache, lines, from, syntax, set, highlighter);
    assert(!exists|key: usize| empty.is_closest(from, key));
    assert(empty.start_line(from) == 0);
    assert(empty.start_stage(from, syntax, highlighter) == fresh);
    if exists|key: usize| cache.is_closest(from, key) {
        cache.lemma_start_line(from, choose|key: usize| cache.is_closest(from, key));
    }
    let end = cache.window_end(lines.len() as int, from, limit);
    assert(end == empty.window_end(lines.len() as int, from, limit));
    lemma_stage_split(fresh, lines, 0, start, end, set, highlighter);
    assert forall|line_no: int| from <= line_no implies #[trigger] cache.window_tokens(
        lines,
        from,
        line_no,
        syntax,
        set,
        highlighter,
    ) == empty.window_tokens(lines, from, line_no, syntax, set, highlighter) by {
        lemma_stage_split(fresh, lines, 0, start, line_no, set, highlighter);
    }
}

} // verus!
