//! What holds of the library as a whole: laws that relate the lexer, the
//! parser and the compiler, each proved from their definitions.

use crate::bang::{parse_query, BangView};
use crate::error::ErrorView;
use crate::lexer::{
    balanced, begins_with_bang, brace_closes, confirms_bang, count, emit, ends_with_brace,
    in_class, in_group,
    lemma_run_end_bounds, lemma_step_advances, lex, lex_from, mode_rank, opens_argument, run_end,
    scan_argument, step, title_tokens, true_expansion, ArgumentScan, CharClass,
};
use crate::parser::{
    bang_type, group_end, leaf, lemma_group_end_bounds, parse, parse_at, BangType,
};
use crate::sql::{bindings, fragment, placeholders, tautology};
use crate::text::{alphanumeric, whitespace};
use crate::token::{LexerMode, TokenView};
use vstd::prelude::*;

verus! {

/// The tokens of a single bang with the name `name` and the argument `text`.
pub open spec fn single_bang(name: Seq<char>, text: Seq<char>) -> Seq<TokenView> {
    seq![
        TokenView::BangPrefix('!'),
        TokenView::BangIdentifier(name),
        TokenView::ArgumentBegin,
        TokenView::Argument(text),
        TokenView::ArgumentEnd,
        TokenView::InputEnd,
    ]
}

/// The query that spells a single bang: `!`, the name, and the argument in
/// braces.
pub open spec fn bang_query(name: Seq<char>, text: Seq<char>) -> Seq<char> {
    seq!['!'] + name + seq!['{'] + text + seq!['}']
}

/// A name made of letters and digits, and of at least one.
pub open spec fn is_plain_name(name: Seq<char>) -> bool {
    name.len() > 0 && forall|i: int| 0 <= i < name.len() ==> alphanumeric(#[trigger] name[i])
}

/// Text without a closing brace and without a backslash: text that reads as
/// it is written.
pub open spec fn is_plain_text(text: Seq<char>) -> bool {
    forall|i: int| 0 <= i < text.len() ==> #[trigger] text[i] != '}' && text[i] != '\\'
}

/// A tree with every text and number taken out: what is left is the kinds of
/// its bangs, their order, the file types and the flags that decide between
/// two forms of a condition.
pub open spec fn erased(bang: BangView) -> BangView
    decreases bang,
{
    match bang {
        BangView::All => BangView::All,
        BangView::TitleSearch(_) => BangView::TitleSearch(Seq::empty()),
        BangView::TitleSearchExact(_) => BangView::TitleSearchExact(Seq::empty()),
        BangView::FullTextSearch(_) => BangView::FullTextSearch(Seq::empty()),
        BangView::FullTextSearchExact(_) => BangView::FullTextSearchExact(Seq::empty()),
        BangView::AlbumTitle(_) => BangView::AlbumTitle(Seq::empty()),
        BangView::AlbumTitleExact(_) => BangView::AlbumTitleExact(Seq::empty()),
        BangView::AlbumArtists(_) => BangView::AlbumArtists(Seq::empty()),
        BangView::AlbumArtistsExact(_) => BangView::AlbumArtistsExact(Seq::empty()),
        BangView::Artist(_) => BangView::Artist(Seq::empty()),
        BangView::ArtistExact(_) => BangView::ArtistExact(Seq::empty()),
        BangView::Source(_) => BangView::Source(Seq::empty()),
        BangView::Format(t) => BangView::Format(t),
        BangView::BitrateLessThan(_) => BangView::BitrateLessThan(0),
        BangView::BitrateGreaterThan(_) => BangView::BitrateGreaterThan(0),
        BangView::CoverArtWidthLessThan(_) => BangView::CoverArtWidthLessThan(0),
        BangView::CoverArtWidthGreaterThan(_) => BangView::CoverArtWidthGreaterThan(0),
        BangView::CoverArtHeightLessThan(_) => BangView::CoverArtHeightLessThan(0),
        BangView::CoverArtHeightGreaterThan(_) => BangView::CoverArtHeightGreaterThan(0),
        BangView::DurationLessThan(_) => BangView::DurationLessThan(0),
        BangView::DurationGreaterThan(_) => BangView::DurationGreaterThan(0),
        BangView::HasCoverArt(_) => BangView::HasCoverArt(false),
        BangView::HasMusicbrainzId(has) => BangView::HasMusicbrainzId(has),
        BangView::HasDuplicates(has) => BangView::HasDuplicates(has),
        BangView::LogicalAnd(l, r) => BangView::LogicalAnd(
            Box::new(erased(*l)),
            Box::new(erased(*r)),
        ),
        BangView::LogicalOr(l, r) => BangView::LogicalOr(
            Box::new(erased(*l)),
            Box::new(erased(*r)),
        ),
        BangView::Grouping(inner) => BangView::Grouping(Box::new(erased(*inner))),
        BangView::UpdatedBefore(_) => BangView::UpdatedBefore(Seq::empty()),
        BangView::UpdatedAfter(_) => BangView::UpdatedAfter(Seq::empty()),
        BangView::FilePath(_) => BangView::FilePath(Seq::empty()),
    }
}

/// The filter that lets every track through compiles to a column compared
/// with itself, whatever names are offered, and binds nothing.
pub proof fn law_all_is_a_tautology(names: Seq<Seq<char>>)
    ensures
        placeholders(BangView::All) == 0,
        fragment(BangView::All, names) == tautology(),
        tautology() == "("@ + "FilePath"@ + " = "@ + "FilePath"@ + ")"@,
        bindings(BangView::All, names).len() == 0,
{
    reveal_strlit("(FilePath = FilePath)");
    reveal_strlit("(");
    reveal_strlit("FilePath");
    reveal_strlit(" = ");
    reveal_strlit(")");
    assert(tautology() =~= "("@ + "FilePath"@ + " = "@ + "FilePath"@ + ")"@);
}

/// The empty query parses to the filter that lets every track through.
pub proof fn law_empty_query_is_all()
    ensures
        parse_query(Seq::empty()) == Ok::<BangView, ErrorView>(BangView::All),
{
}

/// A single bang of a known kind parses to what its argument spells for that
/// kind: the bang with the value, or the argument as an invalid input.
pub proof fn law_single_bang_parses_to_its_kind(name: Seq<char>, text: Seq<char>)
    requires
        bang_type(name) != BangType::Unknown,
        bang_type(name) != BangType::Grouping,
    ensures
        parse(single_bang(name, text)) == leaf(bang_type(name), text),
{
}

/// A bang with a name that no kind has is an unknown bang.
pub proof fn law_unknown_name_is_refused(name: Seq<char>, text: Seq<char>)
    requires
        bang_type(name) == BangType::Unknown,
    ensures
        parse(single_bang(name, text)) == Err::<BangView, ErrorView>(
            ErrorView::ParserUnknownBang(name),
        ),
{
}

/// A query that is not empty and does not open with a confirmed bang is a
/// full-text search for the query as it stands.
pub proof fn law_bare_text_is_full_text_search(query: Seq<char>)
    requires
        query.len() > 0,
        !begins_with_bang(query),
    ensures
        lex(query) == Ok::<Seq<TokenView>, ErrorView>(title_tokens(query)),
        parse_query(query) == Ok::<BangView, ErrorView>(BangView::FullTextSearch(query)),
{
    reveal_strlit("q");
    reveal_strlit("t");
    reveal_strlit("T");
    assert("q"@[0] == 'q');
    assert("t"@[0] == 't');
    assert("T"@[0] == 'T');
    assert(bang_type("q"@) == BangType::FullTextSearch);
}

/// A query that does not start with `!`, and is not empty, is a full-text
/// search for the query as it stands.
pub proof fn law_text_without_prefix_is_full_text_search(query: Seq<char>)
    requires
        query.len() > 0,
        query[0] != '!',
    ensures
        parse_query(query) == Ok::<BangView, ErrorView>(BangView::FullTextSearch(query)),
{
    law_bare_text_is_full_text_search(query);
}

/// The tokens of a bang with the name `name` and the argument `text`, and the
/// operator `op` behind it.
pub open spec fn bang_and_operator(name: Seq<char>, text: Seq<char>, op: char) -> Seq<TokenView> {
    seq![
        TokenView::BangPrefix('!'),
        TokenView::BangIdentifier(name),
        TokenView::ArgumentBegin,
        TokenView::Argument(text),
        TokenView::ArgumentEnd,
        TokenView::LogicalOperator(op),
    ]
}

/// The brace that closes a group is found at the same place when tokens are
/// put in front of the stream.
proof fn lemma_group_end_shift(
    prefix: Seq<TokenView>,
    rest: Seq<TokenView>,
    pos: int,
    depth: int,
)
    requires
        0 <= pos,
    ensures
        group_end(prefix + rest, prefix.len() + pos, depth) == match group_end(rest, pos, depth) {
            Some(end) => Some(prefix.len() + end),
            None => None,
        },
    decreases rest.len() - pos,
{
    let ts = prefix + rest;
    if pos < rest.len() {
        assert(ts[prefix.len() + pos] == rest[pos]);
        let d = match rest[pos] {
            TokenView::ArgumentBegin => depth + 1,
            TokenView::ArgumentEnd => depth - 1,
            _ => depth,
        };
        if d != 0 {
            lemma_group_end_shift(prefix, rest, pos + 1, d);
        }
    }
}

/// What a stream parses to from some index on does not depend on the tokens
/// before that index.
proof fn lemma_parse_shift(prefix: Seq<TokenView>, rest: Seq<TokenView>, pos: int)
    requires
        0 <= pos,
    ensures
        parse_at(prefix + rest, prefix.len() + pos) == parse_at(rest, pos),
    decreases rest.len() - pos,
{
    let ts = prefix + rest;
    let n = prefix.len() as int;
    if pos < rest.len() {
        assert(ts[n + pos] == rest[pos]);
        if rest[pos] is BangPrefix && pos + 1 < rest.len() {
            assert(ts[n + pos + 1] == rest[pos + 1]);
            if rest[pos + 1] is BangIdentifier {
                let kind = bang_type(rest[pos + 1]->BangIdentifier_0);
                if kind == BangType::Grouping {
                    if pos + 2 < rest.len() {
                        assert(ts[n + pos + 2] == rest[pos + 2]);
                        lemma_group_end_shift(prefix, rest, pos + 3, 1);
                        lemma_group_end_bounds(rest, pos + 3, 1);
                        match group_end(rest, pos + 3, 1) {
                            Some(end) => {
                                assert(ts.subrange(n + pos + 3, n + end) =~= rest.subrange(
                                    pos + 3,
                                    end,
                                ));
                                if end + 1 < rest.len() {
                                    assert(ts[n + end + 1] == rest[end + 1]);
                                    lemma_parse_shift(prefix, rest, end + 2);
                                }
                            },
                            None => {},
                        }
                    }
                } else if kind != BangType::Unknown {
                    if pos + 3 < rest.len() {
                        assert(ts[n + pos + 3] == rest[pos + 3]);
                        if pos + 5 < rest.len() {
                            assert(ts[n + pos + 5] == rest[pos + 5]);
                            lemma_parse_shift(prefix, rest, pos + 6);
                        }
                    }
                }
            }
        }
    }
}

/// Operators join to the right: a bang with an operator behind it parses to
/// the bang joined to the tree of all that follows the operator. An argument
/// that the bang does not take, or an error in what follows, is the result in
/// place of the tree; the first of them wins.
pub proof fn law_operators_associate_to_the_right(
    name: Seq<char>,
    text: Seq<char>,
    op: char,
    rest: Seq<TokenView>,
)
    requires
        bang_type(name) != BangType::Unknown,
        bang_type(name) != BangType::Grouping,
        op == '|' || op == '&',
    ensures
        parse(bang_and_operator(name, text, op) + rest) == match leaf(bang_type(name), text) {
            Err(e) => Err(e),
            Ok(lhs) => match parse(rest) {
                Err(e) => Err(e),
                Ok(rhs) => Ok(
                    if op == '|' {
                        BangView::LogicalOr(Box::new(lhs), Box::new(rhs))
                    } else {
                        BangView::LogicalAnd(Box::new(lhs), Box::new(rhs))
                    },
                ),
            },
        },
{
    let prefix = bang_and_operator(name, text, op);
    let ts = prefix + rest;
    lemma_parse_shift(prefix, rest, 0);
    assert(ts[0] == prefix[0]);
    assert(ts[1] == prefix[1]);
    assert(ts[3] == prefix[3]);
    assert(ts[5] == prefix[5]);
    if rest.len() == 0 {
        assert(parse_at(ts, 6) == parse_at(rest, 0));
    }
}

/// Where every character from `from` up to `to` is in `class`, and the one at
/// `to` is not, a run from `from` ends at `to`.
pub proof fn lemma_run_end_is(s: Seq<char>, from: int, to: int, class: CharClass)
    requires
        0 <= from <= to <= s.len(),
        forall|i: int| from <= i < to ==> in_class(class, #[trigger] s[i]),
        to < s.len() ==> !in_class(class, s[to]),
    ensures
        run_end(s, from, class) == to,
    decreases to - from,
{
    if from < to {
        lemma_run_end_is(s, from + 1, to, class);
    }
}

/// Text without braces that close and without backslashes is read as it is
/// written, up to the brace at `to` that closes it.
pub proof fn lemma_scan_plain_text(s: Seq<char>, from: int, to: int, read: Seq<char>)
    requires
        0 <= from <= to <= s.len(),
        forall|i: int| from <= i < to ==> #[trigger] s[i] != '}' && s[i] != '\\',
        to < s.len() ==> s[to] == '}' && brace_closes(s, to),
    ensures
        scan_argument(s, from, read) == ArgumentScan::Text(read + s.subrange(from, to), to),
    decreases to - from,
{
    if from < to {
        lemma_scan_plain_text(s, from + 1, to, read.push(s[from]));
        assert(read.push(s[from]) + s.subrange(from + 1, to) =~= read + s.subrange(from, to));
    } else {
        assert(read + s.subrange(from, to) =~= read);
    }
}

/// The tokens that the four-mode machine gives for a bang with a plain name
/// and the plain text `text` behind its opening brace, whether or not a
/// closing brace follows the text.
proof fn lemma_machine_reads_single_bang(name: Seq<char>, text: Seq<char>, closed: bool)
    requires
        is_plain_name(name),
        is_plain_text(text),
    ensures
        ({
            let open = seq!['!'] + name + seq!['{'] + text;
            let s = if closed {
                open + seq!['}']
            } else {
                open
            };
            let read = seq![
                TokenView::BangPrefix('!'),
                TokenView::BangIdentifier(name),
                TokenView::ArgumentBegin,
            ];
            &&& begins_with_bang(s)
            &&& text.len() > 0 || closed ==> lex_from(s, 0, LexerMode::Bang, Seq::empty()) == Ok::<
                Seq<TokenView>,
                ErrorView,
            >(
                if closed {
                    read.push(TokenView::Argument(text)).push(TokenView::ArgumentEnd)
                } else {
                    read.push(TokenView::Argument(text))
                },
            )
            &&& text.len() == 0 && !closed ==> lex_from(s, 0, LexerMode::Bang, Seq::empty())
                == Ok::<Seq<TokenView>, ErrorView>(read)
        }),
{
    let open = seq!['!'] + name + seq!['{'] + text;
    let s = if closed {
        open + seq!['}']
    } else {
        open
    };
    let n = name.len() as int;
    let m = text.len() as int;
    let len = s.len() as int;
    reveal_strlit("!");
    assert("!"@[0] == '!');
    assert(s[0] == '!');
    assert forall|i: int| 1 <= i < 1 + n implies s[i] == name[i - 1] by {}
    assert(s[1 + n] == '{');
    assert forall|i: int| 2 + n <= i < 2 + n + m implies s[i] == text[i - 2 - n] by {}
    assert(!alphanumeric('{'));
    assert(!alphanumeric('!'));
    assert(!whitespace('!'));
    assert(!whitespace('{'));
    assert(!whitespace('}'));
    assert(name[0] == s[1]);

    // The name, looked ahead for and then read.
    assert forall|i: int| 1 <= i < 1 + n implies in_class(CharClass::Identifier, #[trigger] s[i])
        && in_class(CharClass::Alphanumeric, s[i]) by {
        assert(alphanumeric(name[i - 1]));
    }
    lemma_run_end_is(s, 1, 1 + n, CharClass::Identifier);
    lemma_run_end_is(s, 1, 1 + n, CharClass::Alphanumeric);
    assert(opens_argument(s[1 + n]));
    assert(confirms_bang(s, 1));
    assert(begins_with_bang(s));
    assert(s.subrange(1, 1 + n) =~= name);
    assert(name != "!"@) by {
        if name == "!"@ {
            assert(name[0] == '!');
            assert(alphanumeric(name[0]));
        }
    }

    // The text.
    let end = 2 + n + m;
    if closed {
        lemma_run_end_is(s, len, len, CharClass::Closing);
        assert(brace_closes(s, end));
    }
    assert forall|i: int| 2 + n <= i < end implies #[trigger] s[i] != '}' && s[i] != '\\' by {
        assert(text[i - 2 - n] != '}');
    }
    lemma_scan_plain_text(s, 2 + n, end, Seq::empty());
    assert(Seq::<char>::empty() + s.subrange(2 + n, end) =~= text);

    // The machine, step by step, from its last step back to its first.
    let t0 = Seq::<TokenView>::empty();
    let t1 = t0.push(TokenView::BangPrefix('!'));
    let t2 = t1.push(TokenView::BangIdentifier(name));
    let t3 = t2.push(TokenView::ArgumentBegin);
    let t4 = t3.push(TokenView::Argument(text));
    let t5 = t4.push(TokenView::ArgumentEnd);
    assert(!in_group(t3)) by {
        assert(t3[t3.len() - 2] == TokenView::BangIdentifier(name));
    }
    assert(t3 =~= seq![
        TokenView::BangPrefix('!'),
        TokenView::BangIdentifier(name),
        TokenView::ArgumentBegin,
    ]);
    if closed {
        assert(lex_from(s, len, LexerMode::ArgumentEdge, t5) == Ok::<Seq<TokenView>, ErrorView>(t5));
        assert(lex_from(s, end, LexerMode::ArgumentEdge, t4) == lex_from(
            s,
            len,
            LexerMode::ArgumentEdge,
            t5,
        ));
        assert(lex_from(s, 2 + n, LexerMode::Argument, t3) == lex_from(
            s,
            end,
            LexerMode::ArgumentEdge,
            t4,
        ));
    } else {
        assert(lex_from(s, end, LexerMode::ArgumentEdge, t4) == Ok::<Seq<TokenView>, ErrorView>(t4));
        if m > 0 {
            assert(lex_from(s, 2 + n, LexerMode::Argument, t3) == lex_from(
                s,
                end,
                LexerMode::ArgumentEdge,
                t4,
            ));
        } else {
            assert(lex_from(s, 2 + n, LexerMode::Argument, t3) == Ok::<Seq<TokenView>, ErrorView>(
                t3,
            ));
        }
    }
    assert(lex_from(s, 1 + n, LexerMode::ArgumentEdge, t2) == lex_from(
        s,
        2 + n,
        LexerMode::Argument,
        t3,
    ));
    assert(lex_from(s, 1, LexerMode::BangIdentifier, t1) == lex_from(
        s,
        1 + n,
        LexerMode::ArgumentEdge,
        t2,
    ));
    assert(lex_from(s, 0, LexerMode::Bang, t0) == lex_from(s, 1, LexerMode::BangIdentifier, t1));
}

/// A bang written with a plain name and plain text lexes to the six tokens of
/// a single bang, with the text as its argument.
pub proof fn law_single_bang_lexes(name: Seq<char>, text: Seq<char>)
    requires
        is_plain_name(name),
        is_plain_text(text),
    ensures
        lex(bang_query(name, text)) == Ok::<Seq<TokenView>, ErrorView>(single_bang(name, text)),
{
    lemma_machine_reads_single_bang(name, text, true);
    let ts = seq![
        TokenView::BangPrefix('!'),
        TokenView::BangIdentifier(name),
        TokenView::ArgumentBegin,
    ].push(TokenView::Argument(text)).push(TokenView::ArgumentEnd);
    lemma_count_five(ts);
    assert(balanced(ts));
    assert(ts.push(TokenView::InputEnd) =~= single_bang(name, text));
}

/// A backtick behind a plain name stands for the argument `{true}`: the bang
/// lexes to the same six tokens either way.
pub proof fn law_backtick_stands_for_true(name: Seq<char>)
    requires
        is_plain_name(name),
    ensures
        lex(seq!['!'] + name + seq!['`']) == Ok::<Seq<TokenView>, ErrorView>(
            single_bang(name, "true"@),
        ),
        lex(seq!['!'] + name + seq!['`']) == lex(bang_query(name, "true"@)),
{
    let s = seq!['!'] + name + seq!['`'];
    let n = name.len() as int;
    reveal_strlit("!");
    reveal_strlit("true");
    assert("!"@[0] == '!');
    assert(s[0] == '!');
    assert forall|i: int| 1 <= i < 1 + n implies s[i] == name[i - 1] by {}
    assert(s[1 + n] == '`');
    assert(!alphanumeric('`'));
    assert(!alphanumeric('!'));
    assert(!whitespace('!'));
    assert(!whitespace('`'));
    assert(name[0] == s[1]);
    assert forall|i: int| 1 <= i < 1 + n implies in_class(CharClass::Identifier, #[trigger] s[i])
        && in_class(CharClass::Alphanumeric, s[i]) by {
        assert(alphanumeric(name[i - 1]));
    }
    lemma_run_end_is(s, 1, 1 + n, CharClass::Identifier);
    lemma_run_end_is(s, 1, 1 + n, CharClass::Alphanumeric);
    assert(opens_argument(s[1 + n]));
    assert(begins_with_bang(s));
    assert(s.subrange(1, 1 + n) =~= name);

    let t0 = Seq::<TokenView>::empty();
    let t1 = t0.push(TokenView::BangPrefix('!'));
    let t2 = t1.push(TokenView::BangIdentifier(name));
    let t5 = t2 + true_expansion();
    assert(lex_from(s, 2 + n, LexerMode::ArgumentEdge, t5) == Ok::<Seq<TokenView>, ErrorView>(t5));
    assert(lex_from(s, 1 + n, LexerMode::ArgumentEdge, t2) == lex_from(
        s,
        2 + n,
        LexerMode::ArgumentEdge,
        t5,
    ));
    assert(lex_from(s, 1, LexerMode::BangIdentifier, t1) == lex_from(
        s,
        1 + n,
        LexerMode::ArgumentEdge,
        t2,
    ));
    assert(lex_from(s, 0, LexerMode::Bang, t0) == lex_from(s, 1, LexerMode::BangIdentifier, t1));
    assert(t5 =~= seq![
        TokenView::BangPrefix('!'),
        TokenView::BangIdentifier(name),
        TokenView::ArgumentBegin,
    ].push(TokenView::Argument("true"@)).push(TokenView::ArgumentEnd));
    lemma_count_five(t5);
    assert(balanced(t5));
    assert(ends_with_brace(t5));
    assert(t5.push(TokenView::InputEnd) =~= single_bang(name, "true"@));
    assert(is_plain_text("true"@)) by {
        assert("true"@.len() == 4);
        assert("true"@[0] == 't' && "true"@[1] == 'r' && "true"@[2] == 'u' && "true"@[3] == 'e');
    }
    law_single_bang_lexes(name, "true"@);
}

/// A bang of a known kind, written with plain text, parses to what the text
/// spells for that kind.
pub proof fn law_single_bang_query(name: Seq<char>, text: Seq<char>)
    requires
        is_plain_name(name),
        is_plain_text(text),
        bang_type(name) != BangType::Unknown,
    ensures
        parse_query(bang_query(name, text)) == leaf(bang_type(name), text),
{
    law_single_bang_lexes(name, text);
    reveal_strlit("!");
    assert(name != "!"@) by {
        if name == "!"@ {
            assert(name[0] == '!');
            assert(alphanumeric(name[0]));
        }
    }
    lemma_plain_name_is_no_group(name);
    law_single_bang_parses_to_its_kind(name, text);
}

/// A plain name is not the name of a group.
proof fn lemma_plain_name_is_no_group(name: Seq<char>)
    requires
        is_plain_name(name),
    ensures
        bang_type(name) != BangType::Grouping,
{
    reveal_strlit("!");
    if name == "!"@ {
        assert(name[0] == '!');
        assert(alphanumeric(name[0]));
    }
}

/// A bang whose closing brace is missing does not lex: the input ends before
/// the bang is complete.
pub proof fn law_missing_brace_is_refused(name: Seq<char>, text: Seq<char>)
    requires
        is_plain_name(name),
        is_plain_text(text),
    ensures
        lex(seq!['!'] + name + seq!['{'] + text) == Err::<Seq<TokenView>, ErrorView>(
            ErrorView::LexerUnexpectedEndOfInput,
        ),
{
    lemma_machine_reads_single_bang(name, text, false);
    let read = seq![
        TokenView::BangPrefix('!'),
        TokenView::BangIdentifier(name),
        TokenView::ArgumentBegin,
    ];
    if text.len() > 0 {
        lemma_count_four(read.push(TokenView::Argument(text)));
    } else {
        lemma_count_three(read);
    }
}

/// The counts in three tokens.
proof fn lemma_count_three(ts: Seq<TokenView>)
    requires
        ts.len() == 3,
    ensures
        forall|kind: spec_fn(TokenView) -> bool| #[trigger]
            count(ts, kind) == (if kind(ts[0]) {
                1nat
            } else {
                0nat
            }) + (if kind(ts[1]) {
                1nat
            } else {
                0nat
            }) + (if kind(ts[2]) {
                1nat
            } else {
                0nat
            }),
{
    assert forall|kind: spec_fn(TokenView) -> bool| #[trigger]
        count(ts, kind) == (if kind(ts[0]) {
            1nat
        } else {
            0nat
        }) + (if kind(ts[1]) {
            1nat
        } else {
            0nat
        }) + (if kind(ts[2]) {
            1nat
        } else {
            0nat
        }) by {
        let a = ts.drop_last();
        let b = a.drop_last();
        let c = b.drop_last();
        assert(c.len() == 0);
        assert(count(c, kind) == 0);
        assert(count(b, kind) == count(c, kind) + if kind(b.last()) {
            1nat
        } else {
            0nat
        });
        assert(count(a, kind) == count(b, kind) + if kind(a.last()) {
            1nat
        } else {
            0nat
        });
    }
}

/// The counts in four tokens.
proof fn lemma_count_four(ts: Seq<TokenView>)
    requires
        ts.len() == 4,
    ensures
        forall|kind: spec_fn(TokenView) -> bool| #[trigger]
            count(ts, kind) == count(ts.drop_last(), kind) + (if kind(ts[3]) {
                1nat
            } else {
                0nat
            }),
        forall|kind: spec_fn(TokenView) -> bool| #[trigger]
            count(ts.drop_last(), kind) == (if kind(ts[0]) {
                1nat
            } else {
                0nat
            }) + (if kind(ts[1]) {
                1nat
            } else {
                0nat
            }) + (if kind(ts[2]) {
                1nat
            } else {
                0nat
            }),
{
    lemma_count_three(ts.drop_last());
}

/// The counts in five tokens.
proof fn lemma_count_five(ts: Seq<TokenView>)
    requires
        ts.len() == 5,
    ensures
        forall|kind: spec_fn(TokenView) -> bool| #[trigger]
            count(ts, kind) == (if kind(ts[0]) {
                1nat
            } else {
                0nat
            }) + (if kind(ts[1]) {
                1nat
            } else {
                0nat
            }) + (if kind(ts[2]) {
                1nat
            } else {
                0nat
            }) + (if kind(ts[3]) {
                1nat
            } else {
                0nat
            }) + (if kind(ts[4]) {
                1nat
            } else {
                0nat
            }),
{
    let four = ts.drop_last();
    lemma_count_four(four);
    assert forall|kind: spec_fn(TokenView) -> bool| #[trigger]
        count(ts, kind) == (if kind(ts[0]) {
            1nat
        } else {
            0nat
        }) + (if kind(ts[1]) {
            1nat
        } else {
            0nat
        }) + (if kind(ts[2]) {
            1nat
        } else {
            0nat
        }) + (if kind(ts[3]) {
            1nat
        } else {
            0nat
        }) + (if kind(ts[4]) {
            1nat
        } else {
            0nat
        }) by {
        assert(count(four, kind) == count(four.drop_last(), kind) + (if kind(four[3]) {
            1nat
        } else {
            0nat
        }));
    }
}

/// Whatever lexes is closed by `InputEnd`, and before it holds as many
/// closing braces as opening ones, as many names as prefixes and as many
/// arguments as bangs.
pub proof fn law_lexed_tokens_are_balanced(query: Seq<char>)
    ensures
        lex(query) matches Ok(ts) ==> ts.len() > 0 && ts.last() == TokenView::InputEnd && balanced(
            ts.drop_last(),
        ),
{
    if query.len() == 0 {
        let ts = seq![TokenView::MatchAll, TokenView::InputEnd];
        let one = ts.drop_last();
        assert(one.drop_last().len() == 0);
        assert forall|kind: spec_fn(TokenView) -> bool| #[trigger]
            count(one, kind) == (if kind(TokenView::MatchAll) {
                1nat
            } else {
                0nat
            }) by {
            assert(count(one.drop_last(), kind) == 0);
        }
    } else if !begins_with_bang(query) {
        let ts = title_tokens(query);
        lemma_count_five(ts.drop_last());
    } else {
        match lex_from(query, 0, LexerMode::Bang, Seq::empty()) {
            Ok(ts) => {
                assert(ts.push(TokenView::InputEnd).drop_last() =~= ts);
            },
            Err(_) => {},
        }
    }
}

/// Whether `t` is a token that the four-mode machine gives: a part of a bang
/// or an operator.
pub open spec fn is_bang_token(t: TokenView) -> bool {
    t is BangPrefix || t is BangIdentifier || t is ArgumentBegin || t is ArgumentEnd
        || t is Argument || t is LogicalOperator
}

/// The four-mode machine gives parts of bangs and operators only: what stands
/// for shorthand is written out, and the end of the input is not its to mark.
proof fn lemma_machine_gives_bang_tokens(
    s: Seq<char>,
    pos: int,
    mode: LexerMode,
    tokens: Seq<TokenView>,
)
    requires
        forall|i: int| 0 <= i < tokens.len() ==> is_bang_token(#[trigger] tokens[i]),
    ensures
        lex_from(s, pos, mode, tokens) matches Ok(ts) ==> forall|i: int|
            0 <= i < ts.len() ==> is_bang_token(#[trigger] ts[i]),
    decreases s.len() - pos, mode_rank(mode),
{
    if 0 <= pos < s.len() {
        match step(s, pos, mode, tokens) {
            Err(_) => {},
            Ok(st) => {
                lemma_step_advances(s, pos, mode, tokens);
                let next = emit(tokens, st.token);
                assert forall|i: int| 0 <= i < next.len() implies is_bang_token(
                    #[trigger] next[i],
                ) by {
                    if i >= tokens.len() {
                        let k = i - tokens.len();
                        assert(0 <= k < 3 ==> is_bang_token(true_expansion()[k]));
                    }
                }
                lemma_machine_gives_bang_tokens(s, st.next, st.mode, next);
            },
        }
    }
}

/// The four-mode machine adds to the tokens that it has and takes none away.
proof fn lemma_machine_keeps_tokens(s: Seq<char>, pos: int, mode: LexerMode, tokens: Seq<TokenView>)
    ensures
        lex_from(s, pos, mode, tokens) matches Ok(ts) ==> ts.len() >= tokens.len() && forall|i: int|
            0 <= i < tokens.len() ==> #[trigger] ts[i] == tokens[i],
    decreases s.len() - pos, mode_rank(mode),
{
    if 0 <= pos < s.len() {
        match step(s, pos, mode, tokens) {
            Err(_) => {},
            Ok(st) => {
                lemma_step_advances(s, pos, mode, tokens);
                lemma_machine_keeps_tokens(s, st.next, st.mode, emit(tokens, st.token));
            },
        }
    }
}

/// Behind the name of a confirmed bang the machine gives an opening brace
/// next, or fails: up to the character that opens the argument there is
/// nothing that it could take for anything else.
proof fn lemma_name_is_followed_by_brace(s: Seq<char>, pos: int, opener: int, tokens: Seq<TokenView>)
    requires
        0 <= pos <= opener < s.len(),
        forall|i: int| pos <= i < opener ==> in_class(CharClass::Identifier, #[trigger] s[i]),
        opens_argument(s[opener]),
    ensures
        lex_from(s, pos, LexerMode::ArgumentEdge, tokens) matches Ok(ts) ==> ts.len()
            > tokens.len() && ts[tokens.len() as int] is ArgumentBegin,
    decreases opener - pos,
{
    let c = s[pos];
    match step(s, pos, LexerMode::ArgumentEdge, tokens) {
        Err(_) => {},
        Ok(st) => {
            let next = emit(tokens, st.token);
            if pos == opener {
                assert(!whitespace(c));
                assert(next.len() > tokens.len() && next[tokens.len() as int] is ArgumentBegin) by {
                    assert(true_expansion()[0] is ArgumentBegin);
                }
                lemma_machine_keeps_tokens(s, st.next, st.mode, next);
            } else {
                assert(in_class(CharClass::Identifier, c));
                assert(alphanumeric(c) || c == '!');
                assert(!alphanumeric('|') && !alphanumeric('&') && !alphanumeric('{')
                    && !alphanumeric('}') && !alphanumeric('`'));
                assert(!whitespace('!'));
                assert(whitespace(c));
                lemma_name_is_followed_by_brace(s, pos + 1, opener, tokens);
            }
        },
    }
}

/// A query that opens with a confirmed bang gives that bang's prefix, its
/// name and its opening brace first, if the machine reads it to its end.
pub proof fn law_confirmed_bang_opens_the_stream(query: Seq<char>)
    requires
        begins_with_bang(query),
    ensures
        lex_from(query, 0, LexerMode::Bang, Seq::empty()) matches Ok(ts) ==> ts.len() >= 3
            && ts[0] is BangPrefix && ts[1] is BangIdentifier && ts[2] is ArgumentBegin,
{
    let s = query;
    let opener = run_end(s, 1, CharClass::Identifier);
    lemma_run_end_bounds(s, 1, CharClass::Identifier);
    lemma_run_end_bounds(s, 1, CharClass::Alphanumeric);
    assert(!whitespace('!'));
    let t0 = Seq::<TokenView>::empty();
    let t1 = t0.push(TokenView::BangPrefix('!'));
    assert(lex_from(s, 0, LexerMode::Bang, t0) == lex_from(s, 1, LexerMode::BangIdentifier, t1));
    assert(in_class(CharClass::Identifier, s[1]));
    match step(s, 1, LexerMode::BangIdentifier, t1) {
        Err(_) => {},
        Ok(st) => {
            let t2 = emit(t1, st.token);
            assert(t2.len() == 2 && t2[0] is BangPrefix && t2[1] is BangIdentifier);
            assert(1 < st.next);
            assert(st.next <= opener) by {
                if alphanumeric(s[1]) {
                    if st.next > opener {
                        assert(in_class(CharClass::Alphanumeric, s[opener]));
                        assert(!alphanumeric('{') && !alphanumeric('`'));
                    }
                }
            }
            assert(lex_from(s, 1, LexerMode::BangIdentifier, t1) == lex_from(
                s,
                st.next,
                LexerMode::ArgumentEdge,
                t2,
            ));
            lemma_name_is_followed_by_brace(s, st.next, opener, t2);
            lemma_machine_keeps_tokens(s, st.next, LexerMode::ArgumentEdge, t2);
        },
    }
}

/// Whatever lexes is a well-formed stream of tokens. It is `MatchAll` and
/// `InputEnd`, or it opens with a bang's prefix, its name and its opening
/// brace and ends with a closing brace and `InputEnd`. `InputEnd` stands at the
/// end and nowhere else, and no shorthand is left in the stream.
pub proof fn law_lexed_tokens_are_well_formed(query: Seq<char>)
    ensures
        lex(query) matches Ok(ts) ==> {
            &&& ts == seq![TokenView::MatchAll, TokenView::InputEnd] || {
                &&& ts.len() >= 5
                &&& ts[0] is BangPrefix
                &&& ts[1] is BangIdentifier
                &&& ts[2] is ArgumentBegin
                &&& ts[ts.len() - 2] is ArgumentEnd
            }
            &&& forall|i: int|
                0 <= i < ts.len() ==> ((#[trigger] ts[i]) is InputEnd <==> i == ts.len() - 1)
            &&& forall|i: int| 0 <= i < ts.len() ==> !((#[trigger] ts[i]) is PreprocessTokenExpand)
        },
{
    if query.len() == 0 {
    } else if !begins_with_bang(query) {
    } else {
        lemma_machine_gives_bang_tokens(query, 0, LexerMode::Bang, Seq::empty());
        law_confirmed_bang_opens_the_stream(query);
        match lex_from(query, 0, LexerMode::Bang, Seq::empty()) {
            Ok(ts) => {
                if balanced(ts) && ends_with_brace(ts) {
                    let all = ts.push(TokenView::InputEnd);
                    assert forall|i: int| 0 <= i < all.len() implies ((#[trigger] all[i])
                        is InputEnd <==> i == all.len() - 1) && !(all[i]
                        is PreprocessTokenExpand) by {
                        if i < ts.len() {
                            assert(is_bang_token(ts[i]));
                        }
                    }
                }
            },
            Err(_) => {},
        }
    }
}

/// The text of a condition does not depend on the texts and numbers in the
/// tree: it is the same for a tree and for the tree with them taken out. They
/// are found in the bound values only.
pub proof fn law_fragment_holds_no_literal(bang: BangView, names: Seq<Seq<char>>)
    ensures
        placeholders(erased(bang)) == placeholders(bang),
        fragment(erased(bang), names) == fragment(bang, names),
    decreases bang,
{
    match bang {
        BangView::LogicalAnd(l, r) => {
            law_fragment_holds_no_literal(*l, names.take(placeholders(*l) as int));
            law_fragment_holds_no_literal(*r, names.skip(placeholders(*l) as int));
        },
        BangView::LogicalOr(l, r) => {
            law_fragment_holds_no_literal(*l, names.take(placeholders(*l) as int));
            law_fragment_holds_no_literal(*r, names.skip(placeholders(*l) as int));
        },
        BangView::Grouping(inner) => {
            law_fragment_holds_no_literal(*inner, names);
        },
        _ => {},
    }
}

/// Each placeholder is bound once, and in the order of the names: the list of
/// bound values is as long as the list of names, and its entries carry the
/// names one by one.
pub proof fn law_each_placeholder_is_bound_once(bang: BangView, names: Seq<Seq<char>>)
    requires
        names.len() == placeholders(bang),
    ensures
        bindings(bang, names).len() == names.len(),
        forall|i: int| 0 <= i < names.len() ==> (#[trigger] bindings(bang, names)[i]).0 == names[i],
    decreases bang,
{
    match bang {
        BangView::LogicalAnd(l, r) => {
            let k = placeholders(*l) as int;
            law_each_placeholder_is_bound_once(*l, names.take(k));
            law_each_placeholder_is_bound_once(*r, names.skip(k));
        },
        BangView::LogicalOr(l, r) => {
            let k = placeholders(*l) as int;
            law_each_placeholder_is_bound_once(*l, names.take(k));
            law_each_placeholder_is_bound_once(*r, names.skip(k));
        },
        BangView::Grouping(inner) => {
            law_each_placeholder_is_bound_once(*inner, names);
        },
        _ => {},
    }
}

} // verus!
