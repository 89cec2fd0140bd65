//! What holds of every token stream the lexer produces.
use vstd::prelude::*;
use vstd::utf8::*;

use crate::lex::stream::{
    inserted_semicolon, is_restricted, lemma_lexeme_bounds, lemma_trivia_bounds, lexeme, scan,
    token_at, tokenized, with_semicolons,
};
use crate::lex::string::{
    code_point, code_point_too_large, code_unit, escape, hex_digits_needed, string_body,
    unclosed_code_point, unclosed_string,
};
use crate::lex::punct::punctuation;
use crate::lex::word::word_kind;
use crate::lex::{Kind, TokenView, Trivia, glued_number, trivia, unclosed_comment};
use crate::utf8::{boff, lemma_boff_mono};

verus! {

/// The token views `ts` never step back in the source.
pub open spec fn offsets_ordered(ts: Seq<TokenView>) -> bool {
    forall|i: int, j: int| 0 <= i <= j < ts.len() ==> ts[i].offset <= ts[j].offset
}

/// `ts` ends with the end of the source and holds it nowhere else.
pub open spec fn ends_once(ts: Seq<TokenView>) -> bool {
    &&& ts.len() >= 1
    &&& ts.last().kind is Eof
    &&& forall|i: int| 0 <= i < ts.len() - 1 ==> !(#[trigger] ts[i].kind is Eof)
}

/// Every token of `ts` that was inserted rather than written is a `;`.
pub open spec fn only_semicolons_inserted(ts: Seq<TokenView>) -> bool {
    forall|i: int| 0 <= i < ts.len() && #[trigger] ts[i].inserted ==> ts[i].kind is Semi
}

proof fn lemma_string_body_not_eof(
    cs: Seq<char>,
    opened: nat,
    quote: char,
    i: nat,
    value: Seq<char>,
    refusal: Option<Seq<char>>,
)
    ensures
        string_body(cs, opened, quote, i, value, refusal) matches Ok((k, _)) ==> !(k is Eof),
    decreases cs.len() - i,
{
    if i < cs.len() && cs[i as int] != quote && cs[i as int] != '\n' && cs[i as int] != '\r' {
        if cs[i as int] == '\\' {
            crate::lex::string::lemma_escape_bounds(cs, i);
            if let Ok((j, add, phrase)) = escape(cs, i) {
                lemma_string_body_not_eof(
                    cs,
                    opened,
                    quote,
                    j,
                    value + add,
                    if refusal is Some { refusal } else { phrase },
                );
            }
        } else {
            lemma_string_body_not_eof(cs, opened, quote, i + 1, value.push(cs[i as int]), refusal);
        }
    }
}

/// No lexeme is the end of the source.
proof fn lemma_lexeme_not_eof(cs: Seq<char>, p: nat)
    requires
        p < cs.len(),
    ensures
        lexeme(cs, p) matches Ok((k, _)) ==> !(k is Eof),
{
    let c = cs[p as int];
    if c == '"' || c == '\'' {
        lemma_string_body_not_eof(cs, boff(cs, p as int), c, p + 1, seq![], None);
    }
}

/// The tokens [`scan`] yields from `p`: they end with exactly one end of the
/// source, which stands at the source's byte length; their offsets never step
/// back and start no earlier than `p`; none of them was inserted.
proof fn lemma_scan_shape(cs: Seq<char>, p: nat)
    requires
        p <= cs.len(),
    ensures
        scan(cs, p) matches Ok(ts) ==> {
            &&& ends_once(ts)
            &&& offsets_ordered(ts)
            &&& ts.last().offset == encode_utf8(cs).len()
            &&& forall|i: int| 0 <= i < ts.len() ==> boff(cs, p as int) <= #[trigger] ts[i].offset
            &&& forall|i: int| 0 <= i < ts.len() ==> !(#[trigger] ts[i].inserted)
        },
    decreases cs.len() - p,
{
    lemma_trivia_bounds(cs, p, false, Trivia::Code);
    lemma_boff_mono(cs, p as int, cs.len() as int);
    if let Ok((q, nl)) = trivia(cs, p, false, Trivia::Code) {
        lemma_boff_mono(cs, p as int, q as int);
        if q < cs.len() {
            lemma_lexeme_bounds(cs, q);
            lemma_lexeme_not_eof(cs, q);
            if let Ok((k, r)) = lexeme(cs, q) {
                lemma_scan_shape(cs, r);
                lemma_boff_mono(cs, q as int, r as int);
                if let Ok(rest) = scan(cs, r) {
                    let t = token_at(cs, k, q, nl);
                    let ts = seq![t] + rest;
                    assert(ts.last() == rest.last());
                    assert forall|i: int| 0 <= i < ts.len() - 1 implies !(#[trigger] ts[i].kind is Eof) by {
                        if i > 0 {
                            assert(ts[i] == rest[i - 1]);
                        }
                    }
                    assert forall|i: int, j: int| 0 <= i <= j < ts.len() implies ts[i].offset
                        <= ts[j].offset by {
                        if i > 0 {
                            assert(ts[i] == rest[i - 1]);
                        }
                        if j > 0 {
                            assert(ts[j] == rest[j - 1]);
                        }
                    }
                    assert forall|i: int| 0 <= i < ts.len() implies boff(cs, p as int)
                        <= #[trigger] ts[i].offset && !ts[i].inserted by {
                        if i > 0 {
                            assert(ts[i] == rest[i - 1]);
                        }
                    }
                }
            }
        }
    }
}

/// Rule 3 keeps the shape of a token stream: it adds only `;` tokens, each at
/// the offset of the token it precedes, and never an end of the source.
proof fn lemma_with_semicolons_shape(ts: Seq<TokenView>)
    requires
        ts.len() >= 1,
    ensures
        with_semicolons(ts).len() >= ts.len(),
        with_semicolons(ts).last() == ts.last(),
        (forall|i: int| 0 <= i < ts.len() ==> !(#[trigger] ts[i].kind is Eof)) ==> (forall|i: int|
            0 <= i < with_semicolons(ts).len() ==> !(#[trigger] with_semicolons(ts)[i].kind is Eof)),
        ends_once(ts) ==> ends_once(with_semicolons(ts)),
        offsets_ordered(ts) ==> offsets_ordered(with_semicolons(ts)),
        only_semicolons_inserted(ts) ==> only_semicolons_inserted(with_semicolons(ts)),
    decreases ts.len(),
{
    if ts.len() > 1 {
        let front = ts.drop_last();
        lemma_with_semicolons_shape(front);
        let w = with_semicolons(front);
        let next = ts.last();
        let ws = with_semicolons(ts);
        assert(front.last() == ts[ts.len() - 2]);
        if ends_once(ts) {
            assert forall|i: int| 0 <= i < front.len() implies !(#[trigger] front[i].kind is Eof) by {
                assert(front[i] == ts[i]);
            }
        }
        if (forall|i: int| 0 <= i < ts.len() ==> !(#[trigger] ts[i].kind is Eof)) {
            assert forall|i: int| 0 <= i < front.len() implies !(#[trigger] front[i].kind is Eof) by {
                assert(front[i] == ts[i]);
            }
        }
        if offsets_ordered(ts) {
            assert(offsets_ordered(front)) by {
                assert forall|i: int, j: int| 0 <= i <= j < front.len() implies front[i].offset
                    <= front[j].offset by {
                    assert(front[i] == ts[i] && front[j] == ts[j]);
                }
            }
            assert(w.last().offset <= next.offset);
            assert forall|i: int| 0 <= i < w.len() implies #[trigger] w[i].offset <= next.offset by {
                assert(w[i].offset <= w[w.len() - 1].offset);
            }
        }
        if only_semicolons_inserted(ts) {
            assert(only_semicolons_inserted(front)) by {
                assert forall|i: int| 0 <= i < front.len() && #[trigger] front[i].inserted implies front[i].kind is Semi by {
                    assert(front[i] == ts[i]);
                }
            }
        }
        if next.newline_before && is_restricted(ts[ts.len() - 2].kind, next.kind) {
            assert(ws == w.push(inserted_semicolon(next.offset)).push(next));
            assert forall|i: int| 0 <= i < ws.len() - 2 implies ws[i] == w[i] by {}
        } else {
            assert(ws == w.push(next));
            assert forall|i: int| 0 <= i < ws.len() - 1 implies ws[i] == w[i] by {}
        }
    }
}

/// What a successful tokenization always is, whatever the source: it ends
/// with exactly one end-of-source token, which stands at the source's byte
/// length; token offsets never step back; and every token the lexer inserted
/// is a `;`.
pub proof fn law_tokens_well_formed(cs: Seq<char>)
    ensures
        tokenized(cs) matches Ok(ts) ==> {
            &&& ends_once(ts)
            &&& ts.last().offset == encode_utf8(cs).len()
            &&& offsets_ordered(ts)
            &&& only_semicolons_inserted(ts)
        },
{
    lemma_scan_shape(cs, 0);
    if let Ok(ts) = scan(cs, 0) {
        lemma_with_semicolons_shape(ts);
    }
}

/// A semicolon is inserted exactly where rule 3 puts one: before a token that
/// follows a line terminator and would otherwise continue a restricted
/// production. Without a line terminator, or after a written `;`, the stream
/// is left as it is.
pub proof fn law_semicolon_only_at_line_breaks(ts: Seq<TokenView>)
    requires
        forall|i: int| 1 <= i < ts.len() ==> !(#[trigger] ts[i].newline_before),
    ensures
        with_semicolons(ts) == ts,
    decreases ts.len(),
{
    if ts.len() > 1 {
        let front = ts.drop_last();
        assert forall|i: int| 1 <= i < front.len() implies !(#[trigger] front[i].newline_before) by {
            assert(front[i] == ts[i]);
        }
        law_semicolon_only_at_line_breaks(front);
        assert(front.push(ts.last()) =~= ts);
    }
}

/// `what` is one of the ways the lexer can fail to finish reading: an unclosed
/// comment or string, a malformed escape, or a number glued to a name.
pub open spec fn is_reading_failure(what: Seq<char>) -> bool {
    ||| exists|o: nat| what == #[trigger] unclosed_comment(o)
    ||| exists|q: char, o: nat| what == #[trigger] unclosed_string(q, o, "; the source ends first"@)
    ||| exists|q: char, o: nat| what == #[trigger] unclosed_string(q, o, "; the line ends first"@)
    ||| exists|n: nat, o: nat| what == #[trigger] hex_digits_needed(n, o)
    ||| exists|o: nat| what == #[trigger] unclosed_code_point(o)
    ||| exists|o: nat| what == #[trigger] code_point_too_large(o)
    ||| what == glued_number()
}

proof fn lemma_escape_fault(cs: Seq<char>, p: nat)
    ensures
        escape(cs, p) matches Err(f) ==> is_reading_failure(f.what),
{
    let origin = boff(cs, p as int);
    let r = p + 2;
    if let Err(f) = escape(cs, p) {
        if let Err(g) = code_unit(cs, r, 2, origin) {
            assert(g.what == hex_digits_needed(2, origin));
        }
        if let Err(g) = code_unit(cs, r, 4, origin) {
            assert(g.what == hex_digits_needed(4, origin));
        }
        if let Err(g) = code_point(cs, r, origin) {
            if g.what == unclosed_code_point(origin) {
            } else {
                assert(g.what == code_point_too_large(origin));
            }
        }
    }
}

proof fn lemma_string_body_fault(
    cs: Seq<char>,
    opened: nat,
    quote: char,
    i: nat,
    value: Seq<char>,
    refusal: Option<Seq<char>>,
)
    ensures
        string_body(cs, opened, quote, i, value, refusal) matches Err(f) ==> is_reading_failure(
            f.what,
        ),
    decreases cs.len() - i,
{
    if i >= cs.len() {
        assert(unclosed_string(quote, opened, "; the source ends first"@) == unclosed_string(
            quote,
            opened,
            "; the source ends first"@,
        ));
    } else if cs[i as int] == quote {
    } else if cs[i as int] == '\n' || cs[i as int] == '\r' {
        assert(unclosed_string(quote, opened, "; the line ends first"@) == unclosed_string(
            quote,
            opened,
            "; the line ends first"@,
        ));
    } else if cs[i as int] == '\\' {
        lemma_escape_fault(cs, i);
        crate::lex::string::lemma_escape_bounds(cs, i);
        if let Ok((j, add, phrase)) = escape(cs, i) {
            lemma_string_body_fault(
                cs,
                opened,
                quote,
                j,
                value + add,
                if refusal is Some { refusal } else { phrase },
            );
        }
    } else {
        lemma_string_body_fault(cs, opened, quote, i + 1, value.push(cs[i as int]), refusal);
    }
}

/// The only way a lexeme fails is a way of not finishing the read.
proof fn lemma_lexeme_fault(cs: Seq<char>, p: nat)
    requires
        p < cs.len(),
    ensures
        lexeme(cs, p) matches Err(f) ==> is_reading_failure(f.what),
{
    let c = cs[p as int];
    if c == '"' || c == '\'' {
        lemma_string_body_fault(cs, boff(cs, p as int), c, p + 1, seq![], None);
    }
}

proof fn lemma_scan_fault(cs: Seq<char>, p: nat)
    ensures
        scan(cs, p) matches Err(f) ==> is_reading_failure(f.what),
    decreases cs.len() - p,
{
    if p <= cs.len() {
        lemma_trivia_bounds(cs, p, false, Trivia::Code);
    }
    match trivia(cs, p, false, Trivia::Code) {
        Err(o) => {
            assert(unclosed_comment(boff(cs, o as int)) == unclosed_comment(boff(cs, o as int)));
        },
        Ok((q, nl)) => {
            if q < cs.len() {
                lemma_lexeme_bounds(cs, q);
                lemma_lexeme_fault(cs, q);
                if let Ok((k, r)) = lexeme(cs, q) {
                    lemma_scan_fault(cs, r);
                }
            }
        },
    }
}

/// The lexer fails only on input it cannot finish reading at all: an unclosed
/// block comment or string, a malformed escape, or a number glued to a name.
/// Everything else it can name, it names, as a token.
pub proof fn law_tokenize_fails_only_on_unreadable_input(cs: Seq<char>)
    ensures
        tokenized(cs) matches Err(f) ==> is_reading_failure(f.what),
{
    lemma_scan_fault(cs, 0);
}

/// Rule 3 only ever adds tokens: what it made of a prefix of the stream is a
/// prefix of what it makes of the whole stream.
proof fn lemma_with_semicolons_prefix(ts: Seq<TokenView>, k: int)
    requires
        1 <= k <= ts.len(),
    ensures
        with_semicolons(ts).len() >= with_semicolons(ts.take(k)).len(),
        with_semicolons(ts).take(with_semicolons(ts.take(k)).len() as int) == with_semicolons(ts.take(k)),
    decreases ts.len() - k,
{
    if k == ts.len() {
        assert(ts.take(k) =~= ts);
        assert(with_semicolons(ts).take(with_semicolons(ts).len() as int) =~= with_semicolons(ts));
    } else {
        let front = ts.drop_last();
        assert(front.take(k) =~= ts.take(k));
        lemma_with_semicolons_prefix(front, k);
        let w = with_semicolons(front);
        let p = with_semicolons(ts.take(k));
        let ws = with_semicolons(ts);
        if ts.last().newline_before && is_restricted(ts[ts.len() - 2].kind, ts.last().kind) {
            assert(ws == w.push(inserted_semicolon(ts.last().offset)).push(ts.last()));
        } else {
            assert(ws == w.push(ts.last()));
        }
        assert(ws.take(p.len() as int) =~= w.take(p.len() as int));
    }
}

/// A token that can end a LeftHandSideExpression: a literal, a name, or a
/// closing `)` or `]`.
pub open spec fn closes_operand(k: Kind) -> bool {
    k is Int || k is Num || k is Arg || k is Str || k is Ident || k is True || k is False
        || k is Null || k is Undefined || k is RParen || k is RBracket
}

/// `out` holds the inserted `;` immediately before the token `t`.
pub open spec fn semicolon_before(out: Seq<TokenView>, t: TokenView) -> bool {
    exists|j: int|
        0 <= j && j + 1 < out.len() && #[trigger] out[j] == inserted_semicolon(t.offset) && out[j + 1]
            == t
}

proof fn lemma_inserted_before(ts: Seq<TokenView>, i: int)
    requires
        1 <= i < ts.len(),
        ts[i].newline_before,
        crate::lex::stream::is_restricted(ts[i - 1].kind, ts[i].kind),
    ensures
        semicolon_before(with_semicolons(ts), ts[i]),
{
    let t = ts.take(i + 1);
    assert(t.drop_last() =~= ts.take(i));
    assert(t.last() == ts[i]);
    assert(t[t.len() - 2] == ts[i - 1]);
    lemma_with_semicolons_prefix(ts, i + 1);
    let p = with_semicolons(t);
    let ws = with_semicolons(ts);
    assert(p == with_semicolons(ts.take(i)).push(inserted_semicolon(ts[i].offset)).push(ts[i]));
    let j = p.len() - 2;
    assert(ws[j] == p[j]);
    assert(ws[j + 1] == p[j + 1]);
    assert(ws[j] == inserted_semicolon(ts[i].offset));
}

/// ECMA-262 12.10 rule 3 for the postfix update operators: when a token that
/// can end a LeftHandSideExpression is followed, across a line terminator, by
/// `++` or by `--`, the stream gets a `;` inserted between them, so the
/// operator is the prefix one of what follows. Both operators alike.
pub proof fn law_update_after_line_break_starts_a_statement(ts: Seq<TokenView>, i: int)
    requires
        1 <= i < ts.len(),
        ts[i].newline_before,
        ts[i].kind is PlusPlus || ts[i].kind is MinusMinus,
        closes_operand(ts[i - 1].kind),
    ensures
        semicolon_before(with_semicolons(ts), ts[i]),
{
    lemma_inserted_before(ts, i);
}

/// ECMA-262 12.10 rule 3 for `return` and `throw`: a line terminator right
/// after either ends the statement, unless a `;` is written there already.
pub proof fn law_line_break_after_return_or_throw_ends_it(ts: Seq<TokenView>, i: int)
    requires
        1 <= i < ts.len(),
        ts[i].newline_before,
        ts[i - 1].kind is Return || ts[i - 1].kind is Throw,
        !(ts[i].kind is Semi),
    ensures
        semicolon_before(with_semicolons(ts), ts[i]),
{
    lemma_inserted_before(ts, i);
}

/// How each punctuator is written.
pub open spec fn spelling(k: Kind) -> Option<Seq<char>> {
    match k {
        Kind::EqEqEq => Some(seq!['=', '=', '=']),
        Kind::BangEqEq => Some(seq!['!', '=', '=']),
        Kind::PlusPlus => Some(seq!['+', '+']),
        Kind::MinusMinus => Some(seq!['-', '-']),
        Kind::EqEq => Some(seq!['=', '=']),
        Kind::BangEq => Some(seq!['!', '=']),
        Kind::LtEq => Some(seq!['<', '=']),
        Kind::GtEq => Some(seq!['>', '=']),
        Kind::AmpAmp => Some(seq!['&', '&']),
        Kind::PipePipe => Some(seq!['|', '|']),
        Kind::PlusEq => Some(seq!['+', '=']),
        Kind::MinusEq => Some(seq!['-', '=']),
        Kind::StarEq => Some(seq!['*', '=']),
        Kind::SlashEq => Some(seq!['/', '=']),
        Kind::PercentEq => Some(seq!['%', '=']),
        Kind::Plus => Some(seq!['+']),
        Kind::Minus => Some(seq!['-']),
        Kind::Star => Some(seq!['*']),
        Kind::Slash => Some(seq!['/']),
        Kind::Percent => Some(seq!['%']),
        Kind::Bang => Some(seq!['!']),
        Kind::Eq => Some(seq!['=']),
        Kind::Lt => Some(seq!['<']),
        Kind::Gt => Some(seq!['>']),
        Kind::LParen => Some(seq!['(']),
        Kind::RParen => Some(seq![')']),
        Kind::LBrace => Some(seq!['{']),
        Kind::RBrace => Some(seq!['}']),
        Kind::Semi => Some(seq![';']),
        Kind::Comma => Some(seq![',']),
        Kind::LBracket => Some(seq!['[']),
        Kind::RBracket => Some(seq![']']),
        Kind::Dot => Some(seq!['.']),
        Kind::Colon => Some(seq![':']),
        Kind::Question => Some(seq!['?']),
        _ => None,
    }
}

/// A punctuator token is what its text spells: whatever the source, the
/// characters a punctuator was read from are exactly how its kind is written.
#[verifier::rlimit(60)]
pub proof fn law_punctuator_is_its_text(cs: Seq<char>, p: nat)
    requires
        p < cs.len(),
    ensures
        ({
            let (k, q) = punctuation(cs, p);
            spelling(k) matches Some(w) ==> p < q <= cs.len() && cs.subrange(p as int, q as int) == w
        }),
{
    let (k, q) = punctuation(cs, p);
    if let Some(w) = spelling(k) {
        assert(q - p == w.len());
        assert forall|i: int| 0 <= i < w.len() implies cs[p + i] == w[i] by {
            if i == 1 {
                assert(crate::lex::at(cs, p + 1int) == Some(cs[p + 1int]));
            }
            if i == 2 {
                assert(crate::lex::at(cs, p + 2int) == Some(cs[p + 2int]));
            }
        }
        assert(cs.subrange(p as int, q as int) =~= w);
    }
}

/// How each keyword is written.
pub open spec fn keyword_spelling(k: Kind) -> Option<Seq<char>> {
    match k {
        Kind::Function => Some("function"@),
        Kind::Return => Some("return"@),
        Kind::If => Some("if"@),
        Kind::Else => Some("else"@),
        Kind::While => Some("while"@),
        Kind::For => Some("for"@),
        Kind::Let => Some("let"@),
        Kind::Const => Some("const"@),
        Kind::Var => Some("var"@),
        Kind::Typeof => Some("typeof"@),
        Kind::True => Some("true"@),
        Kind::False => Some("false"@),
        Kind::Null => Some("null"@),
        Kind::Undefined => Some("undefined"@),
        Kind::Try => Some("try"@),
        Kind::Catch => Some("catch"@),
        Kind::Finally => Some("finally"@),
        Kind::Throw => Some("throw"@),
        _ => None,
    }
}

/// A keyword token is the word it was read from, and a name is never a
/// keyword: whatever the word, if it lexes as a keyword, it is spelled as that
/// keyword is.
pub proof fn law_keyword_is_its_word(w: Seq<char>)
    ensures
        keyword_spelling(word_kind(w)) matches Some(t) ==> w == t,
{
}

} // verus!
