//! The token stream: one lexeme at a time, then automatic semicolon insertion.
use vstd::prelude::*;
use vstd::string::*;
use vstd::utf8::*;

use crate::diag::CompileError;
use crate::lex::punct::punctuation;
use crate::lex::string::{lemma_escape_bounds, string, string_body};
use crate::lex::word::{argument, lemma_template_end_bounds, template, word};
use crate::lex::{
    Class, Fault, Kind, Lexed, Lexer, Token, TokenKind, TokenView, Trivia, at, eaten, exponent_end, fraction_end, in_class, is_alpha, is_digit, is_digit_opt,
    is_malformed, lemma_eaten_bounds, lexed_as, number, tokens_view, trivia, trivia_rank,
    unclosed_comment,
};
use crate::utf8::{boff, chars_of};

verus! {

/// The lexeme that starts at `p`, which is neither whitespace nor a comment.
/// `.5` is a number, not a `.` followed by `5`.
pub open spec fn lexeme(cs: Seq<char>, p: nat) -> Lexed {
    let c = cs[p as int];
    let c1 = at(cs, p + 1int);
    if is_digit(c) || (c == '.' && is_digit_opt(c1)) {
        number(cs, p)
    } else if c == '$' && is_digit_opt(c1) {
        Ok(argument(cs, p))
    } else if is_alpha(c) || c == '_' || c == '$' {
        Ok(word(cs, p))
    } else if c == '"' || c == '\'' {
        string(cs, p)
    } else if c == '`' {
        Ok(template(cs, p))
    } else {
        Ok(punctuation(cs, p))
    }
}

/// The token at character position `p`, in spec terms.
pub open spec fn token_at(cs: Seq<char>, kind: Kind, p: nat, newline_before: bool) -> TokenView {
    TokenView { kind, offset: boff(cs, p as int), newline_before, inserted: false }
}

/// The tokens from `p` to the end of the source, before semicolon insertion:
/// each lexeme with the trivia before it, then exactly one [`Kind::Eof`]; or
/// the first thing the lexer cannot finish reading.
pub open spec fn scan(cs: Seq<char>, p: nat) -> Result<Seq<TokenView>, Fault>
    decreases cs.len() - p,
    via scan_decreases
{
    match trivia(cs, p, false, Trivia::Code) {
        Err(o) => Err(Fault { what: unclosed_comment(boff(cs, o as int)), offset: boff(cs, o as int) }),
        Ok((q, nl)) => if q >= cs.len() {
            Ok(seq![token_at(cs, Kind::Eof, q, nl)])
        } else {
            match lexeme(cs, q) {
                Err(f) => Err(f),
                Ok((k, r)) => match scan(cs, r) {
                    Err(f) => Err(f),
                    Ok(rest) => Ok(seq![token_at(cs, k, q, nl)] + rest),
                },
            }
        },
    }
}

#[via_fn]
proof fn scan_decreases(cs: Seq<char>, p: nat) {
    if p <= cs.len() {
        lemma_trivia_bounds(cs, p, false, Trivia::Code);
        if let Ok((q, nl)) = trivia(cs, p, false, Trivia::Code) {
            if q < cs.len() {
                lemma_lexeme_bounds(cs, q);
            }
        }
    }
}

/// Trivia never moves the cursor back nor past the end.
pub proof fn lemma_trivia_bounds(cs: Seq<char>, p: nat, nl: bool, mode: Trivia)
    requires
        p <= cs.len(),
    ensures
        trivia(cs, p, nl, mode) matches Ok((q, _)) ==> p <= q <= cs.len(),
    decreases cs.len() - p, trivia_rank(mode),
{
    match mode {
        Trivia::Code => if p < cs.len() {
            let c = cs[p as int];
            if c == '\n' || c == '\r' {
                lemma_trivia_bounds(cs, p + 1, true, Trivia::Code);
            } else if c == ' ' || c == '\t' || c == '\u{b}' || c == '\u{c}' {
                lemma_trivia_bounds(cs, p + 1, nl, Trivia::Code);
            } else if c == '/' && at(cs, p as int + 1) == Some('/') {
                lemma_trivia_bounds(cs, p + 2, nl, Trivia::Line);
            } else if c == '/' && at(cs, p as int + 1) == Some('*') {
                lemma_trivia_bounds(cs, p + 2, nl, Trivia::Block(p));
            } else if c as u32 >= 0x80 {
                lemma_trivia_bounds(cs, p + 1, true, Trivia::Code);
                lemma_trivia_bounds(cs, p + 1, nl, Trivia::Code);
            }
        },
        Trivia::Line => if p < cs.len() && !crate::lex::is_line_terminator(cs[p as int]) {
            lemma_trivia_bounds(cs, p + 1, nl, Trivia::Line);
        } else {
            lemma_trivia_bounds(cs, p, nl, Trivia::Code);
        },
        Trivia::Block(opened) => if p < cs.len() {
            if cs[p as int] == '*' && at(cs, p as int + 1) == Some('/') {
                lemma_trivia_bounds(cs, p + 2, nl, Trivia::Code);
            } else {
                lemma_trivia_bounds(
                    cs,
                    p + 1,
                    nl || crate::lex::is_line_terminator(cs[p as int]),
                    Trivia::Block(opened),
                );
            }
        },
    }
}

proof fn lemma_string_body_bounds(
    cs: Seq<char>,
    opened: nat,
    quote: char,
    i: nat,
    value: Seq<char>,
    refusal: Option<Seq<char>>,
)
    requires
        i <= cs.len(),
    ensures
        string_body(cs, opened, quote, i, value, refusal) matches Ok((_, j)) ==> i < j <= cs.len(),
    decreases cs.len() - i,
{
    if i < cs.len() && cs[i as int] != quote && cs[i as int] != '\n' && cs[i as int] != '\r' {
        if cs[i as int] == '\\' {
            lemma_escape_bounds(cs, i);
            if let Ok((j, add, phrase)) = crate::lex::string::escape(cs, i) {
                lemma_string_body_bounds(
                    cs,
                    opened,
                    quote,
                    j,
                    value + add,
                    if refusal is Some { refusal } else { phrase },
                );
            }
        } else {
            lemma_string_body_bounds(cs, opened, quote, i + 1, value.push(cs[i as int]), refusal);
        }
    }
}

/// A number starting with a digit, or with a `.` and a digit, ends after its
/// start and within the source.
proof fn lemma_number_bounds(cs: Seq<char>, p: nat)
    requires
        p < cs.len(),
        is_digit(cs[p as int]) || (cs[p as int] == '.' && is_digit_opt(at(cs, p + 1int))),
    ensures
        number(cs, p) matches Ok((_, q)) ==> p < q <= cs.len(),
{
    if p + 2 <= cs.len() {
        lemma_eaten_bounds(cs, p + 2, Class::Radix);
    }
    lemma_eaten_bounds(cs, p + 1, Class::LeadingZero);
    lemma_eaten_bounds(cs, p, Class::Digit);
    let p1 = eaten(cs, p, Class::Digit);
    if is_digit(cs[p as int]) {
        assert(in_class(Class::Digit, cs[p as int]));
        assert(eaten(cs, p, Class::Digit) == eaten(cs, p + 1, Class::Digit));
        lemma_eaten_bounds(cs, p + 1, Class::Digit);
    }
    if p1 < cs.len() {
        lemma_eaten_bounds(cs, p1 + 1, Class::Digit);
    }
    let (p2, point) = fraction_end(cs, p1);
    if p2 + 1 <= cs.len() {
        lemma_eaten_bounds(cs, p2 + 1, Class::Digit);
    }
    if p2 + 2 <= cs.len() {
        lemma_eaten_bounds(cs, p2 + 2, Class::Digit);
    }
    let (p3, exponent) = exponent_end(cs, p2);
    lemma_eaten_bounds(cs, p3, Class::Suffix);
}

/// Every lexeme ends after its start and within the source.
pub proof fn lemma_lexeme_bounds(cs: Seq<char>, p: nat)
    requires
        p < cs.len(),
    ensures
        lexeme(cs, p) matches Ok((_, q)) ==> p < q <= cs.len(),
{
    let c = cs[p as int];
    let c1 = at(cs, p + 1int);
    if is_digit(c) || (c == '.' && is_digit_opt(c1)) {
        lemma_number_bounds(cs, p);
    } else if c == '$' && is_digit_opt(c1) {
        lemma_eaten_bounds(cs, p + 1, Class::Digit);
    } else if is_alpha(c) || c == '_' || c == '$' {
        assert(in_class(Class::Ident, c));
        lemma_eaten_bounds(cs, p + 1, Class::Ident);
    } else if c == '"' || c == '\'' {
        lemma_string_body_bounds(cs, boff(cs, p as int), c, p + 1, seq![], None);
    } else if c == '`' {
        lemma_template_end_bounds(cs, p + 1);
    }
}

/// `scan` from `p` prefixed with the tokens `before`.
pub open spec fn prepend(before: Seq<TokenView>, r: Result<Seq<TokenView>, Fault>) -> Result<
    Seq<TokenView>,
    Fault,
> {
    match r {
        Ok(rest) => Ok(before + rest),
        Err(f) => Err(f),
    }
}

// -- automatic semicolon insertion (ECMA-262 12.10) ---------------------------
//
// Rule 3 keys on restricted productions, the places the grammar writes
// [no LineTerminator here]. Which token pairs those are is a fact about the
// token stream, so the lexer settles them by inserting the semicolon. Rules 1
// and 2 key on "the parser cannot use this token", which the lexer cannot
// know, so it only answers the half that is a fact: `semicolon_is_implied`.

/// Can a token of this kind be the last one of a LeftHandSideExpression? That
/// is the only position where a following `++` or `--` is the postfix
/// operator. `}` is absent: at statement position it closes a block.
pub open spec fn ends_lhs(k: Kind) -> bool {
    k is Int || k is Num || k is Arg || k is Str || k is Ident || k is True || k is False || k is Null
        || k is Undefined || k is RParen || k is RBracket
}

/// Would a line terminator between these two tokens break a restricted
/// production? A written `;` already ends the statement, so an inserted one
/// could only be an empty statement.
pub open spec fn is_restricted(prev: Kind, next: Kind) -> bool {
    if next is Semi {
        false
    } else if prev is Return || prev is Throw {
        true
    } else {
        (next is PlusPlus || next is MinusMinus) && ends_lhs(prev)
    }
}

/// The semicolon rule 3 inserts before a token at `offset`.
pub open spec fn inserted_semicolon(offset: nat) -> TokenView {
    TokenView { kind: Kind::Semi, offset, newline_before: false, inserted: true }
}

/// `ts` with a semicolon inserted before every token that follows a line
/// terminator where a restricted production forbids one.
pub open spec fn with_semicolons(ts: Seq<TokenView>) -> Seq<TokenView>
    decreases ts.len(),
{
    if ts.len() <= 1 {
        ts
    } else {
        let front = with_semicolons(ts.drop_last());
        let next = ts.last();
        if next.newline_before && is_restricted(ts[ts.len() - 2].kind, next.kind) {
            front.push(inserted_semicolon(next.offset)).push(next)
        } else {
            front.push(next)
        }
    }
}

/// The whole source as tokens: [`scan`] from the start, then rule 3.
pub open spec fn tokenized(cs: Seq<char>) -> Result<Seq<TokenView>, Fault> {
    match scan(cs, 0) {
        Ok(ts) => Ok(with_semicolons(ts)),
        Err(f) => Err(f),
    }
}

proof fn lemma_with_semicolons_last(ts: Seq<TokenView>)
    requires
        ts.len() >= 1,
    ensures
        with_semicolons(ts).len() >= 1,
        with_semicolons(ts).last() == ts.last(),
    decreases ts.len(),
{
    if ts.len() > 1 {
        lemma_with_semicolons_last(ts.drop_last());
    }
}

fn ends_lhs_kind(k: &TokenKind) -> (r: bool)
    ensures
        r == ends_lhs(k@),
{
    match k {
        TokenKind::Int(_) | TokenKind::Num(_) | TokenKind::Arg(_) | TokenKind::Str(_) | TokenKind::Ident(_)
        | TokenKind::True | TokenKind::False | TokenKind::Null | TokenKind::Undefined
        | TokenKind::RParen | TokenKind::RBracket => true,
        _ => false,
    }
}

fn restricted(prev: &TokenKind, next: &TokenKind) -> (r: bool)
    ensures
        r == is_restricted(prev@, next@),
{
    if let TokenKind::Semi = next {
        return false;
    }
    match prev {
        // `return` [no LineTerminator here] Expression. Tested before the
        // update rule: `return\n++x` is the return's restricted production.
        TokenKind::Return => true,
        // `throw` [no LineTerminator here] Expression.
        TokenKind::Throw => true,
        _ => match next {
            TokenKind::PlusPlus | TokenKind::MinusMinus => ends_lhs_kind(prev),
            _ => false,
        },
    }
}

/// Applies rule 3 to the whole stream.
fn insert_restricted_semicolons(tokens: &mut Vec<Token>)
    ensures
        tokens_view(final(tokens)@) == with_semicolons(tokens_view(old(tokens)@)),
{
    let ghost orig = tokens_view(tokens@);
    if tokens.len() == 0 {
        assert(with_semicolons(orig) == orig);
        return;
    }
    proof {
        assert(orig.take(1) =~= seq![orig[0]]);
        assert(with_semicolons(orig.take(1)) + orig.skip(1) =~= orig);
    }
    let mut i: usize = 1;
    let ghost mut k: int = 1;
    while i < tokens.len()
        invariant
            1 <= k <= orig.len(),
            orig == tokens_view(old(tokens)@),
            tokens_view(tokens@) == with_semicolons(orig.take(k)) + orig.skip(k),
            i == with_semicolons(orig.take(k)).len(),
        decreases orig.len() - k,
    {
        let ghost w = with_semicolons(orig.take(k));
        proof {
            lemma_with_semicolons_last(orig.take(k));
            assert(orig.take(k + 1).drop_last() =~= orig.take(k));
            assert(tokens_view(tokens@)[i - 1] == w.last());
            assert(tokens_view(tokens@)[i as int] == orig[k]);
            assert(orig.skip(k) =~= seq![orig[k]] + orig.skip(k + 1));
        }
        if tokens[i].newline_before && restricted(&tokens[i - 1].kind, &tokens[i].kind) {
            let offset = tokens[i].offset;
            let semi = Token { kind: TokenKind::Semi, offset, newline_before: false, inserted: true };
            let ghost before = tokens@;
            tokens.insert(i, semi);
            let _len = tokens.len();
            proof {
                assert(tokens_view(tokens@) =~= tokens_view(before).insert(i as int, inserted_semicolon(offset as nat)));
                assert(with_semicolons(orig.take(k + 1)) == w.push(inserted_semicolon(orig[k].offset)).push(orig[k]));
                assert(tokens_view(tokens@) =~= with_semicolons(orig.take(k + 1)) + orig.skip(k + 1));
                assert(tokens_view(tokens@).len() == tokens@.len());
            }
            i += 2;
        } else {
            proof {
                assert(with_semicolons(orig.take(k + 1)) == w.push(orig[k]));
                assert(tokens_view(tokens@) =~= with_semicolons(orig.take(k + 1)) + orig.skip(k + 1));
            }
            i += 1;
        }
        proof {
            k = k + 1;
        }
    }
    proof {
        assert(orig.take(k) =~= orig);
        assert(orig.skip(k) =~= Seq::<TokenView>::empty());
        assert(tokens_view(tokens@) =~= with_semicolons(orig));
    }
}

/// Rules 1 and 2: the parser wanted a `;` before `tokens[pos]` and did not
/// find one. It may proceed as though a `;` were there when a line terminator
/// precedes the token (rule 1(a)), the token is a `}` (rule 1(b)), or the
/// source has ended (rule 2). The parser must have established the rest of
/// rule 1 first: that no production of the grammar accepts this token here.
pub fn semicolon_is_implied(tokens: &[Token], pos: usize) -> (r: bool)
    requires
        pos < tokens@.len(),
    ensures
        r == (tokens@[pos as int].newline_before || tokens@[pos as int].kind@ is RBrace
            || tokens@[pos as int].kind@ is Eof),
{
    let token = &tokens[pos];
    token.newline_before || matches!(token.kind, TokenKind::RBrace) || matches!(token.kind, TokenKind::Eof)
}

impl Lexer {
    /// One lexeme, starting at a character that is neither whitespace nor a
    /// comment.
    fn lexeme(&mut self) -> (r: Result<TokenKind, CompileError>)
        requires
            old(self).wf(),
            old(self).pos < old(self).chars@.len(),
        ensures
            final(self).wf(),
            final(self).chars@ == old(self).chars@,
            lexed_as(r, final(self).pos as nat, lexeme(old(self).chars@, old(self).pos as nat)),
    {
        let c = self.chars[self.pos];
        let digit_next = match self.peek_at(1) {
            Some(d) => '0' <= d && d <= '9',
            None => false,
        };
        if ('0' <= c && c <= '9') || (c == '.' && digit_next) {
            self.number()
        } else if c == '$' && digit_next {
            Ok(self.argument())
        } else if ('a' <= c && c <= 'z') || ('A' <= c && c <= 'Z') || c == '_' || c == '$' {
            Ok(self.word())
        } else if c == '"' || c == '\'' {
            self.string()
        } else if c == '`' {
            Ok(self.template())
        } else {
            Ok(self.punctuation())
        }
    }
}

/// Tokenizes the whole source. The result always ends with exactly one
/// [`Kind::Eof`]. Fails only on input the lexer cannot finish reading at all
/// (an unclosed block comment, an unclosed string, a malformed escape, a
/// number glued to a name); everything else it can name, it names.
pub fn tokenize(source: &str) -> (r: Result<Vec<Token>, CompileError>)
    ensures
        match tokenized(source@) {
            Ok(ts) => r matches Ok(v) && tokens_view(v@) == ts,
            Err(f) => r matches Err(e) && is_malformed(e, f.what, f.offset),
        },
{
    let bytes = source.as_bytes();
    let _total = bytes.len();
    let chars = chars_of(source);
    let ghost cs = chars@;
    proof {
        assert(cs.take(0) =~= Seq::<char>::empty());
        assert(encode_utf8(Seq::<char>::empty()) =~= Seq::<u8>::empty());
    }
    let mut lexer = Lexer { chars, pos: 0, byte: 0 };
    let mut tokens: Vec<Token> = Vec::new();
    assert(tokens_view(tokens@) =~= Seq::<TokenView>::empty());
    assert(prepend(seq![], scan(cs, 0)) == scan(cs, 0)) by {
        if let Ok(ts) = scan(cs, 0) {
            assert(Seq::<TokenView>::empty() + ts =~= ts);
        }
    }
    loop
        invariant_except_break
            prepend(tokens_view(tokens@), scan(cs, lexer.pos as nat)) == scan(cs, 0),
        invariant
            lexer.wf(),
            lexer.chars@ == cs,
            cs == source@,
        ensures
            scan(cs, 0) == Ok::<Seq<TokenView>, Fault>(tokens_view(tokens@)),
        decreases cs.len() - lexer.pos,
    {
        let ghost p = lexer.pos as nat;
        proof {
            lemma_trivia_bounds(cs, p, false, Trivia::Code);
        }
        let newline_before = match lexer.skip_trivia() {
            Ok(nl) => nl,
            Err(e) => return Err(e),
        };
        let offset = lexer.byte;
        if lexer.pos >= lexer.chars.len() {
            let ghost before = tokens@;
            tokens.push(Token { kind: TokenKind::Eof, offset, newline_before, inserted: false });
            proof {
                assert(tokens_view(tokens@) =~= tokens_view(before).push(
                    token_at(cs, Kind::Eof, lexer.pos as nat, newline_before),
                ));
                assert(tokens_view(tokens@) =~= tokens_view(before) + seq![
                    token_at(cs, Kind::Eof, lexer.pos as nat, newline_before),
                ]);
            }
            break;
        }
        let ghost q = lexer.pos as nat;
        proof {
            lemma_lexeme_bounds(cs, q);
        }
        let kind = match lexer.lexeme() {
            Ok(k) => k,
            Err(e) => return Err(e),
        };
        let ghost before = tokens@;
        let ghost t = token_at(cs, kind@, q, newline_before);
        tokens.push(Token { kind, offset, newline_before, inserted: false });
        proof {
            assert(tokens_view(tokens@) =~= tokens_view(before).push(t));
            if let Ok(rest) = scan(cs, lexer.pos as nat) {
                assert(tokens_view(before) + (seq![t] + rest) =~= tokens_view(tokens@) + rest);
            }
        }
    }
    insert_restricted_semicolons(&mut tokens);
    Ok(tokens)
}

} // verus!
