//! The lexer: from the characters of a query to its tokens.
//!
//! The lexer is a machine with four modes. It reads the query from a buffer
//! that it can index freely, so that looking ahead costs no more than reading
//! on. Two questions are settled by looking ahead: whether the query opens
//! with a bang at all, and whether a `}` inside an argument closes the
//! argument or belongs to its text.

use crate::error::{Error, ErrorView};
use crate::text::{alphanumeric, chars_of, is_alphanumeric, is_whitespace, spells, string_of_range, whitespace};
use crate::token::{
    lemma_expansion_view, lemma_tokens_view_push, tokens_view, LexerMode, Token, TokenView,
};
use vstd::prelude::*;

verus! {

/// The classes of characters that the lexer skips over in one go.
#[derive(Debug, Clone, Copy, PartialEq, Eq, Structural)]
pub enum CharClass {
    /// What a bang's name may hold when it is looked ahead for: a letter, a
    /// digit or `!`.
    Identifier,
    /// A letter or a digit.
    Alphanumeric,
    /// The space character.
    Space,
    /// White space or `}`.
    Closing,
}

/// Whether `c` belongs to `class`.
pub open spec fn in_class(class: CharClass, c: char) -> bool {
    match class {
        CharClass::Identifier => alphanumeric(c) || c == '!',
        CharClass::Alphanumeric => alphanumeric(c),
        CharClass::Space => c == ' ',
        CharClass::Closing => whitespace(c) || c == '}',
    }
}

/// Whether `c` opens an argument: a brace, or the backtick that stands for
/// `{true}`.
pub open spec fn opens_argument(c: char) -> bool {
    c == '{' || c == '`'
}

/// Whether `c` is one of the two operators.
pub open spec fn is_operator(c: char) -> bool {
    c == '|' || c == '&'
}

/// The first index at or after `from` whose character is not in `class`, or
/// the length of `s` if there is none.
pub open spec fn run_end(s: Seq<char>, from: int, class: CharClass) -> int
    decreases s.len() - from,
{
    if 0 <= from < s.len() && in_class(class, s[from]) {
        run_end(s, from + 1, class)
    } else {
        from
    }
}

/// Whether a bang is confirmed at `after`, the index behind its `!`: a name of
/// at least one character follows, and right behind the name an argument opens.
pub open spec fn confirms_bang(s: Seq<char>, after: int) -> bool {
    let end = run_end(s, after, CharClass::Identifier);
    after < end < s.len() && opens_argument(s[end])
}

/// Whether the query opens with a confirmed bang.
pub open spec fn begins_with_bang(s: Seq<char>) -> bool {
    s.len() > 0 && s[0] == '!' && confirms_bang(s, 1)
}

/// Whether the `}` at index `at`, met inside an argument, closes the argument.
/// It does if nothing but white space and further `}` follows up to the end of
/// the query, or if these are followed by an operator, any number of spaces and
/// a confirmed bang. In every other case the `}` is part of the text.
pub open spec fn brace_closes(s: Seq<char>, at: int) -> bool {
    let j = run_end(s, at + 1, CharClass::Closing);
    j >= s.len() || (is_operator(s[j]) && {
        let k = run_end(s, j + 1, CharClass::Space);
        k < s.len() && s[k] == '!' && confirms_bang(s, k + 1)
    })
}

/// What reading an argument's text from some index gives.
pub enum ArgumentScan {
    /// The text, with escapes resolved, and the index at which reading stopped:
    /// that of the closing `}`, or the length of the query.
    Text(Seq<char>, int),
    /// A backslash was the last character of the query.
    DanglingEscape,
}

/// Reads the text of an argument from index `from`, with `text` read so far.
/// A backslash takes the character behind it into the text as it is. A `}`
/// that closes the argument ends the text and is not consumed.
pub open spec fn scan_argument(s: Seq<char>, from: int, text: Seq<char>) -> ArgumentScan
    decreases s.len() - from,
{
    if !(0 <= from < s.len()) {
        ArgumentScan::Text(text, from)
    } else if s[from] == '}' {
        if brace_closes(s, from) {
            ArgumentScan::Text(text, from)
        } else {
            scan_argument(s, from + 1, text.push('}'))
        }
    } else if s[from] == '\\' {
        if from + 1 < s.len() {
            scan_argument(s, from + 2, text.push(s[from + 1]))
        } else {
            ArgumentScan::DanglingEscape
        }
    } else {
        scan_argument(s, from + 1, text.push(s[from]))
    }
}

/// One step of the lexer.
pub struct Step {
    /// The token that the step gives, if any.
    pub token: Option<Token>,
    /// The mode after the step.
    pub mode: LexerMode,
    /// The index of the next character to read.
    pub next: usize,
}

/// A step as a mathematical value.
pub struct StepView {
    pub token: Option<TokenView>,
    pub mode: LexerMode,
    pub next: int,
}

impl View for Step {
    type V = StepView;

    open spec fn view(&self) -> StepView {
        StepView {
            token: match self.token {
                Some(t) => Some(t@),
                None => None,
            },
            mode: self.mode,
            next: self.next as int,
        }
    }
}

/// The view of what a step function returns.
pub open spec fn step_result_view(r: Result<Step, Error>) -> Result<StepView, ErrorView> {
    match r {
        Ok(step) => Ok(step@),
        Err(e) => Err(e@),
    }
}

/// The step in mode `Bang` on character `c` at index `pos`: white space is
/// skipped, `!` opens a bang, nothing else may stand here.
pub open spec fn bang_step(c: char, pos: int, stay: LexerMode) -> Result<StepView, ErrorView> {
    if whitespace(c) {
        Ok(StepView { token: None, mode: stay, next: pos + 1 })
    } else if c == '!' {
        Ok(
            StepView {
                token: Some(TokenView::BangPrefix('!')),
                mode: LexerMode::BangIdentifier,
                next: pos + 1,
            },
        )
    } else {
        Err(ErrorView::LexerUnexpectedCharacter(c, LexerMode::Bang))
    }
}

/// The step in mode `BangIdentifier` at index `pos`: the longest run of
/// letters and digits is the name; a single `!` is the name of a group.
pub open spec fn identifier_step(s: Seq<char>, pos: int) -> Result<StepView, ErrorView>
    recommends
        0 <= pos < s.len(),
{
    let c = s[pos];
    if alphanumeric(c) {
        let end = run_end(s, pos, CharClass::Alphanumeric);
        Ok(
            StepView {
                token: Some(TokenView::BangIdentifier(s.subrange(pos, end))),
                mode: LexerMode::ArgumentEdge,
                next: end,
            },
        )
    } else if c == '!' {
        Ok(
            StepView {
                token: Some(TokenView::BangIdentifier("!"@)),
                mode: LexerMode::ArgumentEdge,
                next: pos + 1,
            },
        )
    } else {
        Err(ErrorView::LexerUnexpectedCharacter(c, LexerMode::BangIdentifier))
    }
}

/// The three tokens that a backtick stands for.
pub open spec fn true_expansion() -> Seq<TokenView> {
    seq![TokenView::ArgumentBegin, TokenView::Argument("true"@), TokenView::ArgumentEnd]
}

/// The step in mode `ArgumentEdge` on character `c` at index `pos`. A backtick
/// is a whole argument, so the lexer stays at the edge behind it.
pub open spec fn edge_step(c: char, pos: int) -> Result<StepView, ErrorView> {
    if whitespace(c) {
        Ok(StepView { token: None, mode: LexerMode::ArgumentEdge, next: pos + 1 })
    } else if is_operator(c) {
        Ok(
            StepView {
                token: Some(TokenView::LogicalOperator(c)),
                mode: LexerMode::Bang,
                next: pos + 1,
            },
        )
    } else if c == '{' {
        Ok(
            StepView {
                token: Some(TokenView::ArgumentBegin),
                mode: LexerMode::Argument,
                next: pos + 1,
            },
        )
    } else if c == '}' {
        Ok(
            StepView {
                token: Some(TokenView::ArgumentEnd),
                mode: LexerMode::ArgumentEdge,
                next: pos + 1,
            },
        )
    } else if c == '`' {
        Ok(
            StepView {
                token: Some(TokenView::PreprocessTokenExpand(true_expansion())),
                mode: LexerMode::ArgumentEdge,
                next: pos + 1,
            },
        )
    } else {
        Err(ErrorView::LexerUnexpectedCharacter(c, LexerMode::ArgumentEdge))
    }
}

/// Whether the argument that is being read is that of a group: the token
/// before the opening brace is the name `!`.
pub open spec fn in_group(tokens: Seq<TokenView>) -> bool {
    tokens.len() >= 2 && tokens[tokens.len() - 2] == TokenView::BangIdentifier("!"@)
}

/// The step in mode `Argument` at index `pos`. The argument of a group holds
/// bangs, so its first `!` is looked for as in mode `Bang`. Any other argument
/// is text up to its closing brace.
pub open spec fn argument_step(s: Seq<char>, pos: int, tokens: Seq<TokenView>) -> Result<
    StepView,
    ErrorView,
>
    recommends
        0 <= pos < s.len(),
{
    if in_group(tokens) {
        bang_step(s[pos], pos, LexerMode::Argument)
    } else {
        match scan_argument(s, pos, Seq::empty()) {
            ArgumentScan::Text(text, end) => Ok(
                StepView {
                    token: Some(TokenView::Argument(text)),
                    mode: LexerMode::ArgumentEdge,
                    next: end,
                },
            ),
            ArgumentScan::DanglingEscape => Err(
                ErrorView::LexerUnexpectedEscapeCharacter(LexerMode::Argument),
            ),
        }
    }
}

/// The step that the lexer takes at index `pos` in mode `mode`, with `tokens`
/// given so far.
pub open spec fn step(s: Seq<char>, pos: int, mode: LexerMode, tokens: Seq<TokenView>) -> Result<
    StepView,
    ErrorView,
>
    recommends
        0 <= pos < s.len(),
{
    match mode {
        LexerMode::Bang => bang_step(s[pos], pos, LexerMode::Bang),
        LexerMode::BangIdentifier => identifier_step(s, pos),
        LexerMode::ArgumentEdge => edge_step(s[pos], pos),
        LexerMode::Argument => argument_step(s, pos, tokens),
    }
}

/// `tokens` with what a step gave: nothing, one token, or the tokens that a
/// piece of shorthand stands for.
pub open spec fn emit(tokens: Seq<TokenView>, token: Option<TokenView>) -> Seq<TokenView> {
    match token {
        None => tokens,
        Some(TokenView::PreprocessTokenExpand(expansion)) => tokens + expansion,
        Some(t) => tokens.push(t),
    }
}

/// The rank of a mode in the measure by which the lexer ends: only in mode
/// `Argument` a step may consume nothing, and it then leaves that mode.
pub open spec fn mode_rank(mode: LexerMode) -> int {
    if mode == LexerMode::Argument {
        1
    } else {
        0
    }
}

/// The tokens of the query from index `pos` on, in mode `mode`, behind the
/// tokens given so far; or the first error met.
pub open spec fn lex_from(s: Seq<char>, pos: int, mode: LexerMode, tokens: Seq<TokenView>) -> Result<
    Seq<TokenView>,
    ErrorView,
>
    decreases s.len() - pos, mode_rank(mode),
{
    if !(0 <= pos < s.len()) {
        Ok(tokens)
    } else {
        match step(s, pos, mode, tokens) {
            Err(e) => Err(e),
            Ok(st) => {
                proof {
                    lemma_step_advances(s, pos, mode, tokens);
                }
                lex_from(s, st.next, st.mode, emit(tokens, st.token))
            },
        }
    }
}

/// The number of tokens in `ts` of which `kind` holds.
pub open spec fn count(ts: Seq<TokenView>, kind: spec_fn(TokenView) -> bool) -> nat
    decreases ts.len(),
{
    if ts.len() == 0 {
        0
    } else {
        count(ts.drop_last(), kind) + if kind(ts.last()) {
            1nat
        } else {
            0nat
        }
    }
}

/// Whether there are as many closing braces as opening ones, as many names as
/// prefixes, and as many arguments as bangs.
pub open spec fn balanced(ts: Seq<TokenView>) -> bool {
    let begins = count(ts, |t: TokenView| t is ArgumentBegin);
    let ends = count(ts, |t: TokenView| t is ArgumentEnd);
    let prefixes = count(ts, |t: TokenView| t is BangPrefix);
    let names = count(ts, |t: TokenView| t is BangIdentifier);
    begins == ends && prefixes == names && prefixes == begins
}

/// The tokens that bare text stands for: a full-text search for all of it.
pub open spec fn title_tokens(s: Seq<char>) -> Seq<TokenView> {
    seq![
        TokenView::BangPrefix('!'),
        TokenView::BangIdentifier("q"@),
        TokenView::ArgumentBegin,
        TokenView::Argument(s),
        TokenView::ArgumentEnd,
        TokenView::InputEnd,
    ]
}

/// Whether the last of `ts` is a closing brace.
pub open spec fn ends_with_brace(ts: Seq<TokenView>) -> bool {
    ts.len() > 0 && ts.last() is ArgumentEnd
}

/// The tokens of a query.
///
/// The empty query matches everything. A query that does not open with a
/// confirmed bang is bare text. Any other query is read by the four-mode
/// machine, and its tokens are accepted if they are balanced and end with a
/// closing brace. A query that breaks off before that is an unexpected end of
/// the input.
pub open spec fn lex(s: Seq<char>) -> Result<Seq<TokenView>, ErrorView> {
    if s.len() == 0 {
        Ok(seq![TokenView::MatchAll, TokenView::InputEnd])
    } else if !begins_with_bang(s) {
        Ok(title_tokens(s))
    } else {
        match lex_from(s, 0, LexerMode::Bang, Seq::empty()) {
            Err(e) => Err(e),
            Ok(ts) => if balanced(ts) && ends_with_brace(ts) {
                Ok(ts.push(TokenView::InputEnd))
            } else {
                Err(ErrorView::LexerUnexpectedEndOfInput)
            },
        }
    }
}

/// The view of what the lexer returns.
pub open spec fn lexed_view(r: Result<Vec<Token>, Error>) -> Result<Seq<TokenView>, ErrorView> {
    match r {
        Ok(tokens) => Ok(tokens_view(tokens@)),
        Err(e) => Err(e@),
    }
}

/// A run ends at or after its start, and within the query.
pub proof fn lemma_run_end_bounds(s: Seq<char>, from: int, class: CharClass)
    ensures
        from <= run_end(s, from, class),
        from <= s.len() ==> run_end(s, from, class) <= s.len(),
        0 <= from ==> forall|i: int|
            from <= i < run_end(s, from, class) ==> in_class(class, #[trigger] s[i]),
        0 <= run_end(s, from, class) < s.len() ==> !in_class(class, s[run_end(s, from, class)]),
    decreases s.len() - from,
{
    if 0 <= from < s.len() && in_class(class, s[from]) {
        lemma_run_end_bounds(s, from + 1, class);
    }
}

/// Reading an argument's text stops at or after its start, and within the
/// query.
pub proof fn lemma_scan_bounds(s: Seq<char>, from: int, text: Seq<char>)
    requires
        0 <= from <= s.len(),
    ensures
        scan_argument(s, from, text) matches ArgumentScan::Text(_, end) ==> from <= end <= s.len(),
    decreases s.len() - from,
{
    if from < s.len() {
        if s[from] == '}' {
            if !brace_closes(s, from) {
                lemma_scan_bounds(s, from + 1, text.push('}'));
            }
        } else if s[from] == '\\' {
            if from + 1 < s.len() {
                lemma_scan_bounds(s, from + 2, text.push(s[from + 1]));
            }
        } else {
            lemma_scan_bounds(s, from + 1, text.push(s[from]));
        }
    }
}

/// Every step stays within the query and moves on, but for the one that ends
/// an empty argument, which leaves mode `Argument` in exchange.
pub proof fn lemma_step_advances(s: Seq<char>, pos: int, mode: LexerMode, tokens: Seq<TokenView>)
    requires
        0 <= pos < s.len(),
    ensures
        step(s, pos, mode, tokens) matches Ok(st) ==> pos <= st.next <= s.len() && (st.next == pos
            ==> mode == LexerMode::Argument && st.mode != LexerMode::Argument),
{
    lemma_run_end_bounds(s, pos, CharClass::Alphanumeric);
    lemma_run_end_bounds(s, pos + 1, CharClass::Alphanumeric);
    lemma_scan_bounds(s, pos, Seq::empty());
}

/// The first index at or after `from` whose character is not in `class`.
pub fn next_non_match_character(chars: &Vec<char>, from: usize, class: CharClass) -> (end: usize)
    requires
        from <= chars.len(),
    ensures
        end == run_end(chars@, from as int, class),
        from <= end <= chars.len(),
{
    let mut i: usize = from;
    while i < chars.len() && is_in_class(class, chars[i])
        invariant
            from <= i <= chars.len(),
            run_end(chars@, i as int, class) == run_end(chars@, from as int, class),
        decreases chars.len() - i,
    {
        i += 1;
    }
    i
}

/// Whether `c` belongs to `class`.
pub fn is_in_class(class: CharClass, c: char) -> (b: bool)
    ensures
        b == in_class(class, c),
{
    match class {
        CharClass::Identifier => is_alphanumeric(c) || c == '!',
        CharClass::Alphanumeric => is_alphanumeric(c),
        CharClass::Space => c == ' ',
        CharClass::Closing => is_whitespace(c) || c == '}',
    }
}

/// Whether a bang is confirmed at `after`, the index behind its `!`.
pub fn confirm_bang_sequence(chars: &Vec<char>, after: usize) -> (confirmed: bool)
    requires
        after <= chars.len(),
    ensures
        confirmed == confirms_bang(chars@, after as int),
{
    let end = next_non_match_character(chars, after, CharClass::Identifier);
    after < end && end < chars.len() && (chars[end] == '{' || chars[end] == '`')
}

/// Whether the `}` at index `at` closes the argument that it stands in.
pub fn closes_argument(chars: &Vec<char>, at: usize) -> (closes: bool)
    requires
        at < chars.len(),
    ensures
        closes == brace_closes(chars@, at as int),
{
    let j = next_non_match_character(chars, at + 1, CharClass::Closing);
    if j >= chars.len() {
        return true;
    }
    if chars[j] != '|' && chars[j] != '&' {
        return false;
    }
    let k = next_non_match_character(chars, j + 1, CharClass::Space);
    k < chars.len() && chars[k] == '!' && confirm_bang_sequence(chars, k + 1)
}

/// The step in mode `Bang`; `stay` is the mode to stay in over white space.
pub fn match_bang(c: char, pos: usize, stay: LexerMode) -> (r: Result<Step, Error>)
    requires
        pos < usize::MAX,
    ensures
        step_result_view(r) == bang_step(c, pos as int, stay),
{
    if is_whitespace(c) {
        Ok(Step { token: None, mode: stay, next: pos + 1 })
    } else if c == '!' {
        Ok(Step { token: Some(Token::BangPrefix('!')), mode: LexerMode::BangIdentifier, next: pos + 1 })
    } else {
        Err(Error::LexerUnexpectedCharacter(c, LexerMode::Bang))
    }
}

/// The step in mode `BangIdentifier`.
pub fn match_bang_identifier(chars: &Vec<char>, pos: usize) -> (r: Result<Step, Error>)
    requires
        pos < chars.len(),
    ensures
        step_result_view(r) == identifier_step(chars@, pos as int),
{
    let c = chars[pos];
    if is_alphanumeric(c) {
        let end = next_non_match_character(chars, pos, CharClass::Alphanumeric);
        let name = string_of_range(chars, pos, end);
        Ok(Step { token: Some(Token::BangIdentifier(name)), mode: LexerMode::ArgumentEdge, next: end })
    } else if c == '!' {
        Ok(
            Step {
                token: Some(Token::BangIdentifier("!".to_owned())),
                mode: LexerMode::ArgumentEdge,
                next: pos + 1,
            },
        )
    } else {
        Err(Error::LexerUnexpectedCharacter(c, LexerMode::BangIdentifier))
    }
}

/// The step in mode `ArgumentEdge`.
pub fn match_argument_edge(c: char, pos: usize) -> (r: Result<Step, Error>)
    requires
        pos < usize::MAX,
    ensures
        step_result_view(r) == edge_step(c, pos as int),
{
    if is_whitespace(c) {
        Ok(Step { token: None, mode: LexerMode::ArgumentEdge, next: pos + 1 })
    } else if c == '|' || c == '&' {
        Ok(Step { token: Some(Token::LogicalOperator(c)), mode: LexerMode::Bang, next: pos + 1 })
    } else if c == '{' {
        Ok(Step { token: Some(Token::ArgumentBegin), mode: LexerMode::Argument, next: pos + 1 })
    } else if c == '}' {
        Ok(Step { token: Some(Token::ArgumentEnd), mode: LexerMode::ArgumentEdge, next: pos + 1 })
    } else if c == '`' {
        let mut expansion: Vec<Token> = Vec::new();
        expansion.push(Token::ArgumentBegin);
        expansion.push(Token::Argument("true".to_owned()));
        expansion.push(Token::ArgumentEnd);
        proof {
            lemma_expansion_view(expansion);
            assert(tokens_view(expansion@) =~= true_expansion());
        }
        let token = Token::PreprocessTokenExpand(expansion);
        Ok(Step { token: Some(token), mode: LexerMode::ArgumentEdge, next: pos + 1 })
    } else {
        Err(Error::LexerUnexpectedCharacter(c, LexerMode::ArgumentEdge))
    }
}

/// Whether the argument that is being read is that of a group.
pub fn reads_group(tokens: &Vec<Token>) -> (b: bool)
    ensures
        b == in_group(tokens_view(tokens@)),
{
    if tokens.len() < 2 {
        return false;
    }
    match &tokens[tokens.len() - 2] {
        Token::BangIdentifier(name) => {
            let name_chars = chars_of(name.as_str());
            spells(&name_chars, "!")
        },
        _ => false,
    }
}

/// The step in mode `Argument`.
pub fn match_argument(chars: &Vec<char>, pos: usize, tokens: &Vec<Token>) -> (r: Result<Step, Error>)
    requires
        pos < chars.len(),
    ensures
        step_result_view(r) == argument_step(chars@, pos as int, tokens_view(tokens@)),
{
    if reads_group(tokens) {
        return match_bang(chars[pos], pos, LexerMode::Argument);
    }
    let mut argument = String::new();
    let mut i: usize = pos;
    while i < chars.len()
        invariant
            pos <= i <= chars.len(),
            !in_group(tokens_view(tokens@)),
            scan_argument(chars@, i as int, argument@) == scan_argument(
                chars@,
                pos as int,
                Seq::empty(),
            ),
        decreases chars.len() - i,
    {
        let c = chars[i];
        if c == '}' {
            if closes_argument(chars, i) {
                return Ok(
                    Step { token: Some(Token::Argument(argument)), mode: LexerMode::ArgumentEdge, next: i },
                );
            }
            argument.push(c);
            i += 1;
        } else if c == '\\' {
            if i + 1 < chars.len() {
                argument.push(chars[i + 1]);
                i += 2;
            } else {
                return Err(Error::LexerUnexpectedEscapeCharacter(LexerMode::Argument));
            }
        } else {
            argument.push(c);
            i += 1;
        }
    }
    Ok(Step { token: Some(Token::Argument(argument)), mode: LexerMode::ArgumentEdge, next: i })
}

/// The tokens that the query stands for if it is bare text, as one token to
/// splice; `None` if the query opens with a confirmed bang.
pub fn match_title(query: &str, chars: &Vec<char>) -> (r: Option<Token>)
    requires
        chars@ == query@,
    ensures
        begins_with_bang(query@) ==> r is None,
        !begins_with_bang(query@) ==> (r matches Some(t) && t@ == TokenView::PreprocessTokenExpand(
            title_tokens(query@),
        )),
{
    if chars.len() > 0 && chars[0] == '!' && confirm_bang_sequence(chars, 1) {
        return None;
    }
    let mut expansion: Vec<Token> = Vec::new();
    expansion.push(Token::BangPrefix('!'));
    expansion.push(Token::BangIdentifier("q".to_owned()));
    expansion.push(Token::ArgumentBegin);
    expansion.push(Token::Argument(query.to_owned()));
    expansion.push(Token::ArgumentEnd);
    expansion.push(Token::InputEnd);
    proof {
        lemma_expansion_view(expansion);
        assert(tokens_view(expansion@) =~= title_tokens(query@));
    }
    let token = Token::PreprocessTokenExpand(expansion);
    Some(token)
}

/// Whether `tokens` holds as many closing braces as opening ones, as many
/// names as prefixes, and as many arguments as bangs.
pub fn ensure_arguments_balanced(tokens: &Vec<Token>) -> (b: bool)
    ensures
        b == balanced(tokens_view(tokens@)),
{
    let ghost ts = tokens_view(tokens@);
    let mut argument_begin: usize = 0;
    let mut argument_end: usize = 0;
    let mut bang_prefix: usize = 0;
    let mut bang_ident: usize = 0;
    let mut i: usize = 0;
    while i < tokens.len()
        invariant
            i <= tokens.len(),
            ts == tokens_view(tokens@),
            argument_begin <= i,
            argument_end <= i,
            bang_prefix <= i,
            bang_ident <= i,
            argument_begin == count(ts.take(i as int), |t: TokenView| t is ArgumentBegin),
            argument_end == count(ts.take(i as int), |t: TokenView| t is ArgumentEnd),
            bang_prefix == count(ts.take(i as int), |t: TokenView| t is BangPrefix),
            bang_ident == count(ts.take(i as int), |t: TokenView| t is BangIdentifier),
        decreases tokens.len() - i,
    {
        proof {
            assert(ts.take(i + 1).drop_last() == ts.take(i as int));
            assert(ts.take(i + 1).last() == tokens@[i as int]@);
        }
        match &tokens[i] {
            Token::ArgumentBegin => {
                argument_begin += 1;
            },
            Token::ArgumentEnd => {
                argument_end += 1;
            },
            Token::BangPrefix(_) => {
                bang_prefix += 1;
            },
            Token::BangIdentifier(_) => {
                bang_ident += 1;
            },
            _ => {},
        }
        i += 1;
    }
    assert(ts.take(i as int) == ts);
    argument_begin == argument_end && bang_prefix == bang_ident && bang_prefix == argument_begin
}

/// Whether the last of `tokens` is a closing brace.
pub fn is_closed_by_brace(tokens: &Vec<Token>) -> (b: bool)
    ensures
        b == ends_with_brace(tokens_view(tokens@)),
{
    if tokens.len() == 0 {
        return false;
    }
    match &tokens[tokens.len() - 1] {
        Token::ArgumentEnd => true,
        _ => false,
    }
}

/// Adds to `tokens` what a step gave.
pub fn push_token(tokens: &mut Vec<Token>, token: Option<Token>)
    ensures
        tokens_view(final(tokens)@) == emit(
            tokens_view(old(tokens)@),
            match token {
                Some(t) => Some(t@),
                None => None,
            },
        ),
{
    let ghost before = tokens_view(tokens@);
    match token {
        None => {},
        Some(Token::PreprocessTokenExpand(expansion)) => {
            let ghost added = tokens_view(expansion@);
            proof {
                lemma_expansion_view(expansion);
            }
            let mut i: usize = 0;
            while i < expansion.len()
                invariant
                    i <= expansion.len(),
                    added == tokens_view(expansion@),
                    tokens_view(tokens@) == before + added.take(i as int),
                decreases expansion.len() - i,
            {
                let ghost held = tokens@;
                let t = expansion[i].clone();
                tokens.push(t);
                proof {
                    lemma_tokens_view_push(held, t);
                    assert(added.take(i + 1) =~= added.take(i as int).push(t@));
                    assert(before + added.take(i + 1) =~= (before + added.take(i as int)).push(t@));
                }
                i += 1;
            }
            assert(added.take(i as int) == added);
        },
        Some(t) => {
            proof {
                lemma_tokens_view_push(tokens@, t);
            }
            tokens.push(t);
        },
    }
}

/// Lexes a query into its tokens.
///
/// The empty query gives `[MatchAll, InputEnd]`. Text that does not open with
/// a bang gives the tokens of a full-text search for it. Every other query
/// gives the tokens of its bangs, closed by `InputEnd`, or the first error met.
/// Tokens that are not balanced, or that do not end with a closing brace, are
/// an unexpected end of the input.
pub fn lex_query(query: &str) -> (r: Result<Vec<Token>, Error>)
    ensures
        lexed_view(r) == lex(query@),
{
    let chars = chars_of(query);
    let mut tokens: Vec<Token> = Vec::new();
    if chars.len() == 0 {
        tokens.push(Token::MatchAll);
        tokens.push(Token::InputEnd);
        assert(tokens_view(tokens@) =~= seq![TokenView::MatchAll, TokenView::InputEnd]);
        return Ok(tokens);
    }
    let title = match_title(query, &chars);
    if title.is_some() {
        push_token(&mut tokens, title);
        assert(tokens_view(tokens@) =~= title_tokens(query@));
        return Ok(tokens);
    }
    let mut mode = LexerMode::Bang;
    let mut pos: usize = 0;
    assert(tokens_view(tokens@) =~= Seq::empty());
    while pos < chars.len()
        invariant
            pos <= chars.len(),
            chars@ == query@,
            begins_with_bang(query@),
            lex_from(chars@, pos as int, mode, tokens_view(tokens@)) == lex_from(
                query@,
                0,
                LexerMode::Bang,
                Seq::empty(),
            ),
        decreases chars.len() - pos, mode_rank(mode),
    {
        let c = chars[pos];
        let result = match mode {
            LexerMode::Bang => match_bang(c, pos, LexerMode::Bang),
            LexerMode::BangIdentifier => match_bang_identifier(&chars, pos),
            LexerMode::ArgumentEdge => match_argument_edge(c, pos),
            LexerMode::Argument => match_argument(&chars, pos, &tokens),
        };
        proof {
            lemma_step_advances(chars@, pos as int, mode, tokens_view(tokens@));
        }
        match result {
            Err(e) => {
                return Err(e);
            },
            Ok(step) => {
                mode = step.mode;
                pos = step.next;
                push_token(&mut tokens, step.token);
            },
        }
    }
    if ensure_arguments_balanced(&tokens) && is_closed_by_brace(&tokens) {
        let ghost before = tokens_view(tokens@);
        tokens.push(Token::InputEnd);
        assert(tokens_view(tokens@) =~= before.push(TokenView::InputEnd));
        Ok(tokens)
    } else {
        Err(Error::LexerUnexpectedEndOfInput)
    }
}

} // verus!
