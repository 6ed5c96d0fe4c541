//! The tokens of the query language and the modes of its lexer.

use vstd::prelude::*;

verus! {

/// One token of a query.
#[derive(Debug, PartialEq, Eq)]
pub enum Token {
    /// The empty query. Only `InputEnd` may follow it.
    MatchAll,
    /// The `!` that opens a bang.
    BangPrefix(char),
    /// The name of a bang, after its prefix.
    BangIdentifier(String),
    /// The brace that opens an argument.
    ArgumentBegin,
    /// The brace that closes an argument.
    ArgumentEnd,
    /// The text of an argument, between its braces.
    Argument(String),
    /// A binary operator between two bangs, `|` or `&`.
    LogicalOperator(char),
    /// The end of the query.
    InputEnd,
    /// Several tokens that stand for one piece of shorthand; the lexer splices
    /// them into its output.
    PreprocessTokenExpand(Vec<Token>),
}

/// A token as a mathematical value: text is a sequence of characters.
pub enum TokenView {
    MatchAll,
    BangPrefix(char),
    BangIdentifier(Seq<char>),
    ArgumentBegin,
    ArgumentEnd,
    Argument(Seq<char>),
    LogicalOperator(char),
    InputEnd,
    PreprocessTokenExpand(Seq<TokenView>),
}

/// The state of the lexer between two tokens.
#[derive(Debug, Clone, Copy, PartialEq, Eq, Structural)]
pub enum LexerMode {
    /// Before a bang: its `!` is expected.
    Bang,
    /// After the `!`: the name of the bang is expected.
    BangIdentifier,
    /// Between a name or an argument and what follows: braces and operators.
    ArgumentEdge,
    /// Inside the braces of an argument.
    Argument,
}

/// The mathematical value of a token.
pub open spec fn token_view(t: Token) -> TokenView
    decreases t,
{
    match t {
        Token::MatchAll => TokenView::MatchAll,
        Token::BangPrefix(c) => TokenView::BangPrefix(c),
        Token::BangIdentifier(s) => TokenView::BangIdentifier(s@),
        Token::ArgumentBegin => TokenView::ArgumentBegin,
        Token::ArgumentEnd => TokenView::ArgumentEnd,
        Token::Argument(s) => TokenView::Argument(s@),
        Token::LogicalOperator(c) => TokenView::LogicalOperator(c),
        Token::InputEnd => TokenView::InputEnd,
        Token::PreprocessTokenExpand(v) => TokenView::PreprocessTokenExpand(
            Seq::new(
                v@.len(),
                |i: int|
                    if 0 <= i < v@.len() {
                        token_view(v@[i])
                    } else {
                        TokenView::InputEnd
                    },
            ),
        ),
    }
}

impl View for Token {
    type V = TokenView;

    open spec fn view(&self) -> TokenView {
        token_view(*self)
    }
}

impl Clone for Token {
    /// A token with the same value.
    fn clone(&self) -> (r: Token)
        ensures
            r@ == self@,
        decreases *self,
    {
        match self {
            Token::MatchAll => Token::MatchAll,
            Token::BangPrefix(c) => Token::BangPrefix(*c),
            Token::BangIdentifier(s) => Token::BangIdentifier(s.clone()),
            Token::ArgumentBegin => Token::ArgumentBegin,
            Token::ArgumentEnd => Token::ArgumentEnd,
            Token::Argument(s) => Token::Argument(s.clone()),
            Token::LogicalOperator(c) => Token::LogicalOperator(*c),
            Token::InputEnd => Token::InputEnd,
            Token::PreprocessTokenExpand(v) => {
                let mut out: Vec<Token> = Vec::new();
                let mut i: usize = 0;
                while i < v.len()
                    invariant
                        i <= v.len(),
                        out.len() == i,
                        decreases_to!(*self => *v),
                        forall|j: int| 0 <= j < i ==> out@[j]@ == v@[j]@,
                    decreases v.len() - i,
                {
                    assert(decreases_to!(*v => v[i as int]));
                    out.push(v[i].clone());
                    i += 1;
                }
                let r = Token::PreprocessTokenExpand(out);
                assert(r@ == self@) by {
                    assert(r@->PreprocessTokenExpand_0 =~= self@->PreprocessTokenExpand_0);
                }
                r
            },
        }
    }
}

/// The mathematical values of a sequence of tokens.
pub open spec fn tokens_view(ts: Seq<Token>) -> Seq<TokenView> {
    Seq::new(ts.len(), |i: int| ts[i]@)
}

/// The value of a token that stands for several is made of their values.
pub proof fn lemma_expansion_view(expansion: Vec<Token>)
    ensures
        Token::PreprocessTokenExpand(expansion)@ == TokenView::PreprocessTokenExpand(
            tokens_view(expansion@),
        ),
{
    assert(Token::PreprocessTokenExpand(expansion)@->PreprocessTokenExpand_0 =~= tokens_view(
        expansion@,
    ));
}

/// The values of a sequence with one more token.
pub proof fn lemma_tokens_view_push(ts: Seq<Token>, t: Token)
    ensures
        tokens_view(ts.push(t)) == tokens_view(ts).push(t@),
{
    assert(tokens_view(ts.push(t)) =~= tokens_view(ts).push(t@));
}

} // verus!
