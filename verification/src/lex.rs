//! Source text -> tokens.
//!
//! The lexer recognises far more than the parser can lower, and that is
//! deliberate: it reads the whole `0x10`, the whole `` `t${x}` ``, and hands the
//! parser a token that already knows how to name itself. Out-of-subset lexemes
//! become [`TokenKind::Unsupported`] carrying the noun phrase for the
//! diagnostic and the [`Boundary`] it ran into.
//!
//! The lexer reads the source as characters and reports every position in
//! bytes from the start of the source. Each step is stated as a spec function
//! of the characters, and [`tokenize`] as their composition.
//!
//! Automatic semicolon insertion (ECMA-262 12.10) is split where the spec
//! splits it: rule 3, the restricted productions, is settled here by
//! inserting the semicolon; rules 1 and 2 are left to the parser, which asks
//! [`semicolon_is_implied`].
use vstd::prelude::*;
use vstd::string::*;
use vstd::utf8::*;

use crate::diag::{Boundary, CompileError, engine_text, malformed};
use crate::text::{decimal, push_char, push_decimal, push_str};
use crate::utf8::{boff, lemma_boff_mono, lemma_boff_step, width};

pub mod word;
pub mod punct;
pub mod string;
pub mod stream;
pub mod capability;
pub mod laws;

verus! {

/// One lexeme and where it starts, in bytes from the start of the source.
#[derive(Debug, Clone)]
pub struct Token {
    pub kind: TokenKind,
    pub offset: usize,
    /// A LineTerminator stood between this token and the one before it,
    /// written directly or inside a multi-line comment.
    pub newline_before: bool,
    /// This `;` was inserted by automatic semicolon insertion rather than
    /// written.
    pub inserted: bool,
}

#[derive(Debug, Clone, PartialEq)]
pub enum TokenKind {
    /// A decimal integer literal, as its unsigned magnitude. The sign belongs
    /// to the parser.
    Int(u64),
    /// A numeric literal that is not a plain decimal integer within `u64`: it
    /// has a fraction or an exponent, or its digits exceed `u64`. Held as the
    /// literal's text; its binary64 value is the correctly rounded reading of
    /// that text.
    Num(String),
    /// `$N`: the Nth argument of this call.
    Arg(u64),
    /// A string literal, already decoded: escapes resolved, quotes gone.
    Str(String),
    /// A name.
    Ident(String),
    Function,
    Return,
    If,
    Else,
    While,
    For,
    Let,
    Const,
    Var,
    Typeof,
    True,
    False,
    Null,
    Undefined,
    Try,
    Catch,
    Finally,
    Throw,
    LParen,
    RParen,
    LBrace,
    RBrace,
    LBracket,
    RBracket,
    Semi,
    Comma,
    Dot,
    Colon,
    Question,
    Plus,
    Minus,
    Star,
    Slash,
    Percent,
    Bang,
    PlusPlus,
    MinusMinus,
    Eq,
    PlusEq,
    MinusEq,
    StarEq,
    SlashEq,
    PercentEq,
    EqEq,
    BangEq,
    EqEqEq,
    BangEqEq,
    Lt,
    LtEq,
    Gt,
    GtEq,
    AmpAmp,
    PipePipe,
    /// Real JavaScript this engine does not lower yet.
    Unsupported(Unlowered),
    Eof,
}

/// A lexeme the engine can name but not lower: the noun phrase for "this
/// engine does not support {phrase} yet", and which boundary it ran into.
#[derive(Debug, Clone, PartialEq)]
pub struct Unlowered {
    pub boundary: Boundary,
    pub phrase: String,
}

/// What a token is, in spec terms: the payloads as character sequences.
pub enum Kind {
    Int(u64),
    Num(Seq<char>),
    Arg(u64),
    Str(Seq<char>),
    Ident(Seq<char>),
    Function,
    Return,
    If,
    Else,
    While,
    For,
    Let,
    Const,
    Var,
    Typeof,
    True,
    False,
    Null,
    Undefined,
    Try,
    Catch,
    Finally,
    Throw,
    LParen,
    RParen,
    LBrace,
    RBrace,
    LBracket,
    RBracket,
    Semi,
    Comma,
    Dot,
    Colon,
    Question,
    Plus,
    Minus,
    Star,
    Slash,
    Percent,
    Bang,
    PlusPlus,
    MinusMinus,
    Eq,
    PlusEq,
    MinusEq,
    StarEq,
    SlashEq,
    PercentEq,
    EqEq,
    BangEq,
    EqEqEq,
    BangEqEq,
    Lt,
    LtEq,
    Gt,
    GtEq,
    AmpAmp,
    PipePipe,
    Unsupported(Boundary, Seq<char>),
    Eof,
}

impl View for TokenKind {
    type V = Kind;

    open spec fn view(&self) -> Kind {
        match self {
            TokenKind::Int(v) => Kind::Int(*v),
            TokenKind::Num(t) => Kind::Num(t@),
            TokenKind::Arg(v) => Kind::Arg(*v),
            TokenKind::Str(t) => Kind::Str(t@),
            TokenKind::Ident(t) => Kind::Ident(t@),
            TokenKind::Function => Kind::Function,
            TokenKind::Return => Kind::Return,
            TokenKind::If => Kind::If,
            TokenKind::Else => Kind::Else,
            TokenKind::While => Kind::While,
            TokenKind::For => Kind::For,
            TokenKind::Let => Kind::Let,
            TokenKind::Const => Kind::Const,
            TokenKind::Var => Kind::Var,
            TokenKind::Typeof => Kind::Typeof,
            TokenKind::True => Kind::True,
            TokenKind::False => Kind::False,
            TokenKind::Null => Kind::Null,
            TokenKind::Undefined => Kind::Undefined,
            TokenKind::Try => Kind::Try,
            TokenKind::Catch => Kind::Catch,
            TokenKind::Finally => Kind::Finally,
            TokenKind::Throw => Kind::Throw,
            TokenKind::LParen => Kind::LParen,
            TokenKind::RParen => Kind::RParen,
            TokenKind::LBrace => Kind::LBrace,
            TokenKind::RBrace => Kind::RBrace,
            TokenKind::LBracket => Kind::LBracket,
            TokenKind::RBracket => Kind::RBracket,
            TokenKind::Semi => Kind::Semi,
            TokenKind::Comma => Kind::Comma,
            TokenKind::Dot => Kind::Dot,
            TokenKind::Colon => Kind::Colon,
            TokenKind::Question => Kind::Question,
            TokenKind::Plus => Kind::Plus,
            TokenKind::Minus => Kind::Minus,
            TokenKind::Star => Kind::Star,
            TokenKind::Slash => Kind::Slash,
            TokenKind::Percent => Kind::Percent,
            TokenKind::Bang => Kind::Bang,
            TokenKind::PlusPlus => Kind::PlusPlus,
            TokenKind::MinusMinus => Kind::MinusMinus,
            TokenKind::Eq => Kind::Eq,
            TokenKind::PlusEq => Kind::PlusEq,
            TokenKind::MinusEq => Kind::MinusEq,
            TokenKind::StarEq => Kind::StarEq,
            TokenKind::SlashEq => Kind::SlashEq,
            TokenKind::PercentEq => Kind::PercentEq,
            TokenKind::EqEq => Kind::EqEq,
            TokenKind::BangEq => Kind::BangEq,
            TokenKind::EqEqEq => Kind::EqEqEq,
            TokenKind::BangEqEq => Kind::BangEqEq,
            TokenKind::Lt => Kind::Lt,
            TokenKind::LtEq => Kind::LtEq,
            TokenKind::Gt => Kind::Gt,
            TokenKind::GtEq => Kind::GtEq,
            TokenKind::AmpAmp => Kind::AmpAmp,
            TokenKind::PipePipe => Kind::PipePipe,
            TokenKind::Unsupported(u) => Kind::Unsupported(u.boundary, u.phrase@),
            TokenKind::Eof => Kind::Eof,
        }
    }
}

/// The short name of each kind, for a diagnostic sentence.
pub open spec fn kind_name(k: Kind) -> Seq<char> {
    match k {
        Kind::Int(..) | Kind::Num(..) => "a number"@,
        Kind::Arg(..) => "an argument reference"@,
        Kind::Str(..) => "a string literal"@,
        Kind::Ident(..) => "a name"@,
        Kind::Function => "the `function` keyword"@,
        Kind::Return => "the `return` keyword"@,
        Kind::If => "the `if` keyword"@,
        Kind::Else => "the `else` keyword"@,
        Kind::While => "the `while` keyword"@,
        Kind::For => "the `for` keyword"@,
        Kind::Let => "the `let` keyword"@,
        Kind::Const => "the `const` keyword"@,
        Kind::Var => "the `var` keyword"@,
        Kind::Typeof => "the `typeof` operator"@,
        Kind::True => "the `true` literal"@,
        Kind::False => "the `false` literal"@,
        Kind::Null => "the `null` literal"@,
        Kind::Undefined => "the `undefined` value"@,
        Kind::Try => "the `try` keyword"@,
        Kind::Catch => "the `catch` keyword"@,
        Kind::Finally => "the `finally` keyword"@,
        Kind::Throw => "the `throw` keyword"@,
        Kind::LParen => "a `(`"@,
        Kind::RParen => "a `)`"@,
        Kind::LBrace => "a `{`"@,
        Kind::RBrace => "a `}`"@,
        Kind::LBracket => "a `[`"@,
        Kind::RBracket => "a `]`"@,
        Kind::Dot => "a `.`"@,
        Kind::Colon => "a `:`"@,
        Kind::Question => "a `?`"@,
        Kind::Semi => "a `;`"@,
        Kind::Comma => "a `,`"@,
        Kind::Plus => "a `+`"@,
        Kind::Minus => "a `-`"@,
        Kind::Star => "a `*`"@,
        Kind::Slash => "a `/`"@,
        Kind::Percent => "a `%`"@,
        Kind::Bang => "a `!`"@,
        Kind::PlusPlus => "a `++`"@,
        Kind::MinusMinus => "a `--`"@,
        Kind::Eq => "a `=`"@,
        Kind::PlusEq => "a `+=`"@,
        Kind::MinusEq => "a `-=`"@,
        Kind::StarEq => "a `*=`"@,
        Kind::SlashEq => "a `/=`"@,
        Kind::PercentEq => "a `%=`"@,
        Kind::EqEq => "a `==`"@,
        Kind::BangEq => "a `!=`"@,
        Kind::EqEqEq => "a `===`"@,
        Kind::BangEqEq => "a `!==`"@,
        Kind::Lt => "a `<`"@,
        Kind::LtEq => "a `<=`"@,
        Kind::Gt => "a `>`"@,
        Kind::GtEq => "a `>=`"@,
        Kind::AmpAmp => "a `&&`"@,
        Kind::PipePipe => "a `||`"@,
        Kind::Unsupported(..) => "an unsupported construct"@,
        Kind::Eof => "the end of the source"@,
    }
}

impl TokenKind {
    /// A short name for use inside a [`crate::diag::malformed`] sentence.
    pub fn name(&self) -> (r: &'static str)
        ensures
            r@ == kind_name(self@),
    {
        match self {
            TokenKind::Int(_) | TokenKind::Num(_) => "a number",
            TokenKind::Arg(_) => "an argument reference",
            TokenKind::Str(_) => "a string literal",
            TokenKind::Ident(_) => "a name",
            TokenKind::Function => "the `function` keyword",
            TokenKind::Return => "the `return` keyword",
            TokenKind::If => "the `if` keyword",
            TokenKind::Else => "the `else` keyword",
            TokenKind::While => "the `while` keyword",
            TokenKind::For => "the `for` keyword",
            TokenKind::Let => "the `let` keyword",
            TokenKind::Const => "the `const` keyword",
            TokenKind::Var => "the `var` keyword",
            TokenKind::Typeof => "the `typeof` operator",
            TokenKind::True => "the `true` literal",
            TokenKind::False => "the `false` literal",
            TokenKind::Null => "the `null` literal",
            TokenKind::Undefined => "the `undefined` value",
            TokenKind::Try => "the `try` keyword",
            TokenKind::Catch => "the `catch` keyword",
            TokenKind::Finally => "the `finally` keyword",
            TokenKind::Throw => "the `throw` keyword",
            TokenKind::LParen => "a `(`",
            TokenKind::RParen => "a `)`",
            TokenKind::LBrace => "a `{`",
            TokenKind::RBrace => "a `}`",
            TokenKind::LBracket => "a `[`",
            TokenKind::RBracket => "a `]`",
            TokenKind::Dot => "a `.`",
            TokenKind::Colon => "a `:`",
            TokenKind::Question => "a `?`",
            TokenKind::Semi => "a `;`",
            TokenKind::Comma => "a `,`",
            TokenKind::Plus => "a `+`",
            TokenKind::Minus => "a `-`",
            TokenKind::Star => "a `*`",
            TokenKind::Slash => "a `/`",
            TokenKind::Percent => "a `%`",
            TokenKind::Bang => "a `!`",
            TokenKind::PlusPlus => "a `++`",
            TokenKind::MinusMinus => "a `--`",
            TokenKind::Eq => "a `=`",
            TokenKind::PlusEq => "a `+=`",
            TokenKind::MinusEq => "a `-=`",
            TokenKind::StarEq => "a `*=`",
            TokenKind::SlashEq => "a `/=`",
            TokenKind::PercentEq => "a `%=`",
            TokenKind::EqEq => "a `==`",
            TokenKind::BangEq => "a `!=`",
            TokenKind::EqEqEq => "a `===`",
            TokenKind::BangEqEq => "a `!==`",
            TokenKind::Lt => "a `<`",
            TokenKind::LtEq => "a `<=`",
            TokenKind::Gt => "a `>`",
            TokenKind::GtEq => "a `>=`",
            TokenKind::AmpAmp => "a `&&`",
            TokenKind::PipePipe => "a `||`",
            TokenKind::Unsupported(_) => "an unsupported construct",
            TokenKind::Eof => "the end of the source",
        }
    }
}

/// A token in spec terms.
pub struct TokenView {
    pub kind: Kind,
    pub offset: nat,
    pub newline_before: bool,
    pub inserted: bool,
}

impl View for Token {
    type V = TokenView;

    open spec fn view(&self) -> TokenView {
        TokenView {
            kind: self.kind@,
            offset: self.offset as nat,
            newline_before: self.newline_before,
            inserted: self.inserted,
        }
    }
}

/// The token views of a token list.
pub open spec fn tokens_view(ts: Seq<Token>) -> Seq<TokenView> {
    ts.map_values(|t: Token| t@)
}

// -- characters -----------------------------------------------------------------

/// The character at `p`, if there is one.
pub open spec fn at(cs: Seq<char>, p: int) -> Option<char> {
    if 0 <= p < cs.len() { Some(cs[p]) } else { None }
}

pub open spec fn is_digit(c: char) -> bool {
    '0' <= c <= '9'
}

pub open spec fn is_alpha(c: char) -> bool {
    ('a' <= c <= 'z') || ('A' <= c <= 'Z')
}

pub open spec fn is_alnum(c: char) -> bool {
    is_digit(c) || is_alpha(c)
}

pub open spec fn is_hex_digit(c: char) -> bool {
    is_digit(c) || ('a' <= c <= 'f') || ('A' <= c <= 'F')
}

/// ECMA-262 12.2 WhiteSpace, minus the line terminators.
pub open spec fn is_whitespace(c: char) -> bool {
    c == '\t' || c == '\u{b}' || c == '\u{c}' || c == ' ' || c == '\u{a0}' || c == '\u{feff}'
        || c == '\u{1680}' || ('\u{2000}' <= c <= '\u{200a}') || c == '\u{202f}' || c
        == '\u{205f}' || c == '\u{3000}'
}

/// ECMA-262 12.3 LineTerminator: all four, not just the two an ASCII lexer
/// notices.
pub open spec fn is_line_terminator(c: char) -> bool {
    c == '\n' || c == '\r' || c == '\u{2028}' || c == '\u{2029}'
}

fn whitespace(c: char) -> (r: bool)
    ensures
        r == is_whitespace(c),
{
    c == '\t' || c == '\u{b}' || c == '\u{c}' || c == ' ' || c == '\u{a0}' || c == '\u{feff}'
        || c == '\u{1680}' || ('\u{2000}' <= c && c <= '\u{200a}') || c == '\u{202f}' || c
        == '\u{205f}' || c == '\u{3000}'
}

fn line_terminator(c: char) -> (r: bool)
    ensures
        r == is_line_terminator(c),
{
    c == '\n' || c == '\r' || c == '\u{2028}' || c == '\u{2029}'
}

/// The character classes the lexer consumes runs of.
#[derive(Debug, Clone, Copy, PartialEq, Eq, Structural)]
pub enum Class {
    /// `0-9`.
    Digit,
    /// `0-9a-fA-F`.
    HexDigit,
    /// An identifier character: ASCII alphanumeric, `_` or `$`.
    Ident,
    /// ASCII alphanumeric or `_`: the rest of a `0x`, `0o` or `0b` literal.
    Radix,
    /// ASCII alphanumeric, `_` or `.`: the rest of a leading-zero literal.
    LeadingZero,
    /// ASCII alphanumeric, `.`, `+`, `-` or `_`: the rest of a literal with a
    /// suffix this engine does not read.
    Suffix,
    /// ASCII alphanumeric, `_`, `$` or `.`.
    Glued,
}

pub open spec fn in_class(k: Class, c: char) -> bool {
    match k {
        Class::Digit => is_digit(c),
        Class::HexDigit => is_hex_digit(c),
        Class::Ident => is_alnum(c) || c == '_' || c == '$',
        Class::Radix => is_alnum(c) || c == '_',
        Class::LeadingZero => is_alnum(c) || c == '_' || c == '.',
        Class::Suffix => is_alnum(c) || c == '.' || c == '+' || c == '-' || c == '_',
        Class::Glued => is_alnum(c) || c == '_' || c == '$' || c == '.',
    }
}

fn class_has(k: Class, c: char) -> (r: bool)
    ensures
        r == in_class(k, c),
{
    let alnum = ('0' <= c && c <= '9') || ('a' <= c && c <= 'z') || ('A' <= c && c <= 'Z');
    match k {
        Class::Digit => '0' <= c && c <= '9',
        Class::HexDigit => ('0' <= c && c <= '9') || ('a' <= c && c <= 'f') || ('A' <= c && c <= 'F'),
        Class::Ident => alnum || c == '_' || c == '$',
        Class::Radix => alnum || c == '_',
        Class::LeadingZero => alnum || c == '_' || c == '.',
        Class::Suffix => alnum || c == '.' || c == '+' || c == '-' || c == '_',
        Class::Glued => alnum || c == '_' || c == '$' || c == '.',
    }
}

/// The end of the run of class `k` that starts at `p`.
pub open spec fn eaten(cs: Seq<char>, p: nat, k: Class) -> nat
    decreases cs.len() - p,
{
    if p < cs.len() && in_class(k, cs[p as int]) {
        eaten(cs, p + 1, k)
    } else {
        p
    }
}

pub proof fn lemma_eaten_bounds(cs: Seq<char>, p: nat, k: Class)
    requires
        p <= cs.len(),
    ensures
        p <= eaten(cs, p, k) <= cs.len(),
        forall|i: int| p <= i < eaten(cs, p, k) ==> in_class(k, #[trigger] cs[i]),
    decreases cs.len() - p,
{
    if p < cs.len() && in_class(k, cs[p as int]) {
        lemma_eaten_bounds(cs, p + 1, k);
    }
}

// -- phrases --------------------------------------------------------------------

/// A token this engine can name but not lower.
fn unlowered(boundary: Boundary, phrase: &str) -> (k: TokenKind)
    ensures
        k@ == Kind::Unsupported(boundary, phrase@),
{
    let mut text = String::new();
    push_str(&mut text, phrase);
    TokenKind::Unsupported(Unlowered { boundary, phrase: text })
}

fn subset(phrase: &str) -> (k: TokenKind)
    ensures
        k@ == Kind::Unsupported(Boundary::Subset, phrase@),
{
    unlowered(Boundary::Subset, phrase)
}

fn full_js(phrase: &str) -> (k: TokenKind)
    ensures
        k@ == Kind::Unsupported(Boundary::FullJs, phrase@),
{
    unlowered(Boundary::FullJs, phrase)
}

fn third(phrase: &str) -> (k: TokenKind)
    ensures
        k@ == Kind::Unsupported(Boundary::ThirdBinding, phrase@),
{
    unlowered(Boundary::ThirdBinding, phrase)
}

/// The two boundaries the parser also reports, kept in one place so the lexer
/// and the parser cannot drift apart in their wording.
pub open spec fn out_of_i32_range() -> Seq<char> {
    "integers outside the signed 32-bit range"@
}

pub open spec fn too_many_arguments() -> Seq<char> {
    "more than 64 call arguments"@
}

/// A JavaScript string may hold a lone surrogate; a Rust `String` cannot, and
/// that is a representation limit of this engine.
pub open spec fn unpaired_surrogate() -> Seq<char> {
    "unpaired surrogates in string literals"@
}

// -- the lexer state ------------------------------------------------------------

/// The cursor over the source's characters, with its byte offset alongside.
pub struct Lexer {
    pub chars: Vec<char>,
    pub pos: usize,
    pub byte: usize,
}

impl Lexer {
    /// The cursor is inside the source and its byte offset is the UTF-8 length
    /// of what precedes it.
    pub open spec fn wf(&self) -> bool {
        &&& self.pos <= self.chars@.len()
        &&& self.byte == boff(self.chars@, self.pos as int)
        &&& encode_utf8(self.chars@).len() <= usize::MAX
    }

    fn peek(&self) -> (r: Option<char>)
        requires
            self.wf(),
        ensures
            r == at(self.chars@, self.pos as int),
    {
        if self.pos < self.chars.len() {
            Some(self.chars[self.pos])
        } else {
            None
        }
    }

    fn peek_at(&self, ahead: usize) -> (r: Option<char>)
        requires
            self.wf(),
        ensures
            r == at(self.chars@, self.pos + ahead),
    {
        if ahead < self.chars.len() - self.pos {
            Some(self.chars[self.pos + ahead])
        } else {
            None
        }
    }

    /// Moves past one character.
    fn bump(&mut self)
        requires
            old(self).wf(),
            old(self).pos < old(self).chars@.len(),
        ensures
            final(self).wf(),
            final(self).chars@ == old(self).chars@,
            final(self).pos == old(self).pos + 1,
    {
        proof {
            lemma_boff_step(self.chars@, self.pos as int);
            lemma_boff_mono(self.chars@, self.pos + 1, self.chars@.len() as int);
        }
        let _len = self.chars.len();
        let w = width(self.chars[self.pos]);
        self.byte = self.byte + w;
        self.pos = self.pos + 1;
    }

    /// Consumes the run of class `k` at the cursor.
    fn eat_while(&mut self, k: Class)
        requires
            old(self).wf(),
        ensures
            final(self).wf(),
            final(self).chars@ == old(self).chars@,
            final(self).pos == eaten(old(self).chars@, old(self).pos as nat, k),
    {
        while self.pos < self.chars.len() && class_has(k, self.chars[self.pos])
            invariant
                self.wf(),
                self.chars@ == old(self).chars@,
                eaten(self.chars@, self.pos as nat, k) == eaten(
                    old(self).chars@,
                    old(self).pos as nat,
                    k,
                ),
            decreases self.chars@.len() - self.pos,
        {
            self.bump();
        }
    }
}

// -- trivia ---------------------------------------------------------------------

/// Where the trivia scanner is: in code, inside a `//` comment, or inside a
/// `/*` comment opened at a given character position.
pub enum Trivia {
    Code,
    Line,
    Block(nat),
}

pub open spec fn trivia_rank(m: Trivia) -> nat {
    match m {
        Trivia::Code => 0,
        _ => 1,
    }
}

/// Whitespace, line terminators and both comment forms from `p`: where the
/// next lexeme starts and whether any of the trivia was a line terminator, or
/// the position of a `/*` the source ends inside.
///
/// A `//` comment ends before its line terminator, which is then counted as
/// trivia once. A line terminator inside a `/*` comment counts as one
/// (ECMA-262 12.4).
pub open spec fn trivia(cs: Seq<char>, p: nat, nl: bool, mode: Trivia) -> Result<(nat, bool), nat>
    decreases cs.len() - p, trivia_rank(mode),
{
    if p > cs.len() {
        Ok((p, nl))
    } else {
        match mode {
            Trivia::Code => if p == cs.len() {
                Ok((p, nl))
            } else {
                let c = cs[p as int];
                if c == '\n' || c == '\r' {
                    trivia(cs, p + 1, true, Trivia::Code)
                } else if c == ' ' || c == '\t' || c == '\u{b}' || c == '\u{c}' {
                    trivia(cs, p + 1, nl, Trivia::Code)
                } else if c == '/' && at(cs, p as int + 1) == Some('/') {
                    trivia(cs, p + 2, nl, Trivia::Line)
                } else if c == '/' && at(cs, p as int + 1) == Some('*') {
                    trivia(cs, p + 2, nl, Trivia::Block(p))
                } else if c as u32 >= 0x80 {
                    if is_line_terminator(c) {
                        trivia(cs, p + 1, true, Trivia::Code)
                    } else if is_whitespace(c) {
                        trivia(cs, p + 1, nl, Trivia::Code)
                    } else {
                        Ok((p, nl))
                    }
                } else {
                    Ok((p, nl))
                }
            },
            Trivia::Line => if p < cs.len() && !is_line_terminator(cs[p as int]) {
                trivia(cs, p + 1, nl, Trivia::Line)
            } else {
                trivia(cs, p, nl, Trivia::Code)
            },
            Trivia::Block(opened) => if p == cs.len() {
                Err(opened)
            } else if cs[p as int] == '*' && at(cs, p as int + 1) == Some('/') {
                trivia(cs, p + 2, nl, Trivia::Code)
            } else {
                trivia(cs, p + 1, nl || is_line_terminator(cs[p as int]), Trivia::Block(opened))
            },
        }
    }
}

/// What an unclosed `/*` comment is reported as.
pub open spec fn unclosed_comment(opened: nat) -> Seq<char> {
    "needs a `*/` to close the comment opened at byte "@ + decimal(opened)
        + "; the source ends first"@
}

/// `e` is the engine's "cannot finish reading" diagnostic `what` at `offset`.
pub open spec fn is_malformed(e: CompileError, what: Seq<char>, offset: nat) -> bool {
    &&& e.message@ == engine_text(what)
    &&& e.offset == offset
    &&& e.boundary == Boundary::Subset
}

impl Lexer {
    /// Whitespace, line terminators and both comment forms. Reports whether
    /// any of it was a line terminator, which is what ASI runs on.
    fn skip_trivia(&mut self) -> (r: Result<bool, CompileError>)
        requires
            old(self).wf(),
        ensures
            final(self).wf(),
            final(self).chars@ == old(self).chars@,
            match trivia(old(self).chars@, old(self).pos as nat, false, Trivia::Code) {
                Ok((q, nl)) => r == Ok::<bool, CompileError>(nl) && final(self).pos == q,
                Err(o) => r matches Err(e) && is_malformed(
                    e,
                    unclosed_comment(boff(old(self).chars@, o as int)),
                    boff(old(self).chars@, o as int),
                ),
            },
    {
        let ghost goal = trivia(self.chars@, self.pos as nat, false, Trivia::Code);
        let mut newline = false;
        loop
            invariant
                self.wf(),
                self.chars@ == old(self).chars@,
                goal == trivia(old(self).chars@, old(self).pos as nat, false, Trivia::Code),
                trivia(self.chars@, self.pos as nat, newline, Trivia::Code) == goal,
            decreases self.chars@.len() - self.pos,
        {
            let ghost p0 = self.pos;
            let c = match self.peek() {
                Some(c) => c,
                None => return Ok(newline),
            };
            if c == '\n' || c == '\r' {
                newline = true;
                self.bump();
            } else if c == ' ' || c == '\t' || c == '\u{b}' || c == '\u{c}' {
                self.bump();
            } else if c == '/' && self.peek_at(1) == Some('/') {
                self.bump();
                self.bump();
                // The terminator itself is left for the next pass, so it is
                // counted exactly once.
                while self.pos < self.chars.len() && !line_terminator(self.chars[self.pos])
                    invariant
                        self.wf(),
                        self.chars@ == old(self).chars@,
                        self.pos > p0,
                        trivia(self.chars@, self.pos as nat, newline, Trivia::Line) == goal,
                    decreases self.chars@.len() - self.pos,
                {
                    self.bump();
                }
            } else if c == '/' && self.peek_at(1) == Some('*') {
                let opened = self.byte;
                let ghost opened_at = self.pos as nat;
                self.bump();
                self.bump();
                loop
                    invariant_except_break
                        trivia(self.chars@, self.pos as nat, newline, Trivia::Block(opened_at))
                            == goal,
                    invariant
                        self.wf(),
                        self.chars@ == old(self).chars@,
                        self.pos > p0,
                        opened == boff(self.chars@, opened_at as int),
                        goal == trivia(old(self).chars@, old(self).pos as nat, false, Trivia::Code),
                    ensures
                        trivia(self.chars@, self.pos as nat, newline, Trivia::Code) == goal,
                    decreases self.chars@.len() - self.pos,
                {
                    let d = match self.peek() {
                        Some(d) => d,
                        None => {
                            let mut what = String::new();
                            push_str(&mut what, "needs a `*/` to close the comment opened at byte ");
                            push_decimal(&mut what, opened);
                            push_str(&mut what, "; the source ends first");
                            proof {
                                reveal_strlit("needs a `*/` to close the comment opened at byte ");
                                reveal_strlit("; the source ends first");
                                assert(what@ =~= unclosed_comment(opened as nat));
                            }
                            return Err(malformed(what.as_str(), opened));
                        },
                    };
                    if d == '*' && self.peek_at(1) == Some('/') {
                        self.bump();
                        self.bump();
                        break;
                    }
                    // A multi-line comment holding a line terminator is one
                    // to the grammar: miss this and `return /*\n*/ x` returns
                    // `x`.
                    newline = newline || line_terminator(d);
                    self.bump();
                }
            } else if c as u32 >= 0x80 {
                // Beyond ASCII only whitespace and the two exotic line
                // terminators are trivia; anything else starts a lexeme.
                if line_terminator(c) {
                    newline = true;
                } else if !whitespace(c) {
                    return Ok(newline);
                }
                self.bump();
            } else {
                return Ok(newline);
            }
        }
    }
}

// -- lexemes --------------------------------------------------------------------

/// A lexing failure in spec terms: the verb phrase completing "this engine
/// ...", and where it points, in bytes.
pub struct Fault {
    pub what: Seq<char>,
    pub offset: nat,
}

/// What lexing one lexeme produced: its kind and where the cursor ends, or a
/// fault.
pub type Lexed = Result<(Kind, nat), Fault>;

/// The executable outcome `r`, with the cursor at `pos`, is the spec outcome
/// `l`.
pub open spec fn lexed_as(r: Result<TokenKind, CompileError>, pos: nat, l: Lexed) -> bool {
    match l {
        Ok((k, q)) => r matches Ok(t) && t@ == k && pos == q,
        Err(f) => r matches Err(e) && is_malformed(e, f.what, f.offset),
    }
}

/// The value of a run of decimal digits.
pub open spec fn decimal_value(ds: Seq<char>) -> nat
    decreases ds.len(),
{
    if ds.len() == 0 {
        0
    } else {
        decimal_value(ds.drop_last()) * 10 + (ds.last() as nat - '0' as nat) as nat
    }
}

/// The value of a run of hexadecimal digits.
pub open spec fn hex_value(ds: Seq<char>) -> nat
    decreases ds.len(),
{
    if ds.len() == 0 {
        0
    } else {
        hex_value(ds.drop_last()) * 16 + hex_digit_value(ds.last())
    }
}

pub open spec fn hex_digit_value(c: char) -> nat {
    if '0' <= c <= '9' {
        (c as nat - '0' as nat) as nat
    } else if 'a' <= c <= 'f' {
        (c as nat - 'a' as nat + 10) as nat
    } else {
        (c as nat - 'A' as nat + 10) as nat
    }
}

/// There is a character and it is a decimal digit.
pub open spec fn is_digit_opt(c: Option<char>) -> bool {
    c matches Some(d) && is_digit(d)
}

/// What a number glued to a following name is reported as.
pub open spec fn glued_number() -> Seq<char> {
    "needs a separator between this number and the name after it; ECMA-262 12.9.3 ends a numeric literal before any identifier character"@
}

/// A numeric literal in any JavaScript form, from `start`. A radix prefix, a
/// leading zero, a BigInt suffix and a numeric separator name themselves; a
/// fraction or an exponent makes a [`Kind::Num`]; a plain run of digits is an
/// [`Kind::Int`] when it fits `u64` and a [`Kind::Num`] when it does not. A
/// number directly followed by a digit or an identifier character is refused
/// (ECMA-262 12.9.3).
pub open spec fn number(cs: Seq<char>, start: nat) -> Lexed {
    let c1 = at(cs, start as int + 1);
    if cs[start as int] == '0' && (c1 == Some('x') || c1 == Some('X')) {
        Ok((Kind::Unsupported(Boundary::Subset, "hexadecimal number literals"@), eaten(cs, start + 2, Class::Radix)))
    } else if cs[start as int] == '0' && (c1 == Some('o') || c1 == Some('O')) {
        Ok((Kind::Unsupported(Boundary::Subset, "octal number literals"@), eaten(cs, start + 2, Class::Radix)))
    } else if cs[start as int] == '0' && (c1 == Some('b') || c1 == Some('B')) {
        Ok((Kind::Unsupported(Boundary::Subset, "binary number literals"@), eaten(cs, start + 2, Class::Radix)))
    } else if cs[start as int] == '0' && is_digit_opt(c1) {
        Ok((Kind::Unsupported(Boundary::Subset, "number literals written with a leading zero"@), eaten(cs, start + 1, Class::LeadingZero)))
    } else {
        decimal_literal(cs, start)
    }
}

/// A `.` and the digits after it, from `p`: where they end and whether there
/// was one.
pub open spec fn fraction_end(cs: Seq<char>, p: nat) -> (nat, bool) {
    if at(cs, p as int) == Some('.') {
        (eaten(cs, p + 1, Class::Digit), true)
    } else {
        (p, false)
    }
}

/// An exponent from `p`: `e` or `E`, an optional sign, then at least one digit;
/// where it ends and whether there was one. `1einvalid` has none.
pub open spec fn exponent_end(cs: Seq<char>, p: nat) -> (nat, bool) {
    let sign = at(cs, p as int + 1) == Some('+') || at(cs, p as int + 1) == Some('-');
    let after = if sign { at(cs, p as int + 2) } else { at(cs, p as int + 1) };
    if (at(cs, p as int) == Some('e') || at(cs, p as int) == Some('E')) && is_digit_opt(after) {
        (eaten(cs, p + if sign { 2nat } else { 1nat }, Class::Digit), true)
    } else {
        (p, false)
    }
}

/// A decimal literal from `start`: digits, an optional fraction, an optional
/// exponent, and then what may follow it.
pub open spec fn decimal_literal(cs: Seq<char>, start: nat) -> Lexed {
    let p1 = eaten(cs, start, Class::Digit);
    let (p2, point) = fraction_end(cs, p1);
    let (p3, exponent) = exponent_end(cs, p2);
    decimal_end(cs, start, p3, point || exponent)
}

/// The end of a decimal literal `start..p`: a suffix this engine does not read
/// names itself, a glued name is refused, and otherwise the text is the value.
pub open spec fn decimal_end(cs: Seq<char>, start: nat, p: nat, fractional: bool) -> Lexed {
    let next = at(cs, p as int);
    if next == Some('n') {
        Ok((Kind::Unsupported(Boundary::Subset, "BigInt literals"@), eaten(cs, p, Class::Suffix)))
    } else if next == Some('_') {
        Ok((Kind::Unsupported(Boundary::Subset, "numeric separators in number literals"@), eaten(cs, p, Class::Suffix)))
    } else if next matches Some(d) && (is_digit(d) || is_alpha(d) || d == '$') {
        Err(Fault { what: glued_number(), offset: boff(cs, start as int) })
    } else {
        let text = cs.subrange(start as int, p as int);
        if fractional {
            Ok((Kind::Num(text), p))
        } else if decimal_value(text) <= u64::MAX {
            Ok((Kind::Int(decimal_value(text) as u64), p))
        } else {
            Ok((Kind::Num(text), p))
        }
    }
}

/// The characters `start..end` as a `String`.
fn string_of(cs: &Vec<char>, start: usize, end: usize) -> (s: String)
    requires
        start <= end <= cs@.len(),
    ensures
        s@ == cs@.subrange(start as int, end as int),
{
    let mut s = String::new();
    let mut i = start;
    while i < end
        invariant
            start <= i <= end <= cs@.len(),
            s@ == cs@.subrange(start as int, i as int),
        decreases end - i,
    {
        push_char(&mut s, cs[i]);
        assert(cs@.subrange(start as int, i + 1) =~= cs@.subrange(start as int, i as int).push(cs@[i as int]));
        i += 1;
    }
    s
}

proof fn lemma_decimal_stays_large(cs: Seq<char>, start: int, k: int, end: int)
    requires
        0 <= start <= k <= end <= cs.len(),
        decimal_value(cs.subrange(start, k)) > u64::MAX,
    ensures
        decimal_value(cs.subrange(start, end)) > u64::MAX,
    decreases end - k,
{
    if k < end {
        assert(cs.subrange(start, k + 1).drop_last() =~= cs.subrange(start, k));
        lemma_decimal_stays_large(cs, start, k + 1, end);
    }
}

/// The value of the decimal digits `start..end`, when it fits `u64`.
fn parse_decimal(cs: &Vec<char>, start: usize, end: usize) -> (r: Option<u64>)
    requires
        start <= end <= cs@.len(),
        forall|i: int| start <= i < end ==> is_digit(#[trigger] cs@[i]),
    ensures
        decimal_value(cs@.subrange(start as int, end as int)) <= u64::MAX ==> r == Some(
            decimal_value(cs@.subrange(start as int, end as int)) as u64,
        ),
        decimal_value(cs@.subrange(start as int, end as int)) > u64::MAX ==> r is None,
{
    let mut v: u64 = 0;
    let mut i = start;
    while i < end
        invariant
            start <= i <= end <= cs@.len(),
            forall|j: int| start <= j < end ==> is_digit(#[trigger] cs@[j]),
            v == decimal_value(cs@.subrange(start as int, i as int)),
        decreases end - i,
    {
        let d = (cs[i] as u32 - '0' as u32) as u64;
        let ghost prefix = cs@.subrange(start as int, i as int);
        let ghost next = cs@.subrange(start as int, i + 1);
        assert(next.drop_last() =~= prefix);
        if v > (u64::MAX - d) / 10 {
            proof {
                assert(decimal_value(next) > u64::MAX);
                lemma_decimal_stays_large(cs@, start as int, i + 1, end as int);
            }
            return None;
        }
        v = v * 10 + d;
        i += 1;
    }
    Some(v)
}

impl Lexer {
    /// A numeric literal in any JavaScript form.
    fn number(&mut self) -> (r: Result<TokenKind, CompileError>)
        requires
            old(self).wf(),
            old(self).pos < old(self).chars@.len(),
        ensures
            final(self).wf(),
            final(self).chars@ == old(self).chars@,
            lexed_as(r, final(self).pos as nat, number(old(self).chars@, old(self).pos as nat)),
    {
        let ghost cs = self.chars@;
        let start = self.pos;
        let start_byte = self.byte;
        if self.chars[start] == '0' {
            let c1 = self.peek_at(1);
            let phrase = if c1 == Some('x') || c1 == Some('X') {
                Some("hexadecimal number literals")
            } else if c1 == Some('o') || c1 == Some('O') {
                Some("octal number literals")
            } else if c1 == Some('b') || c1 == Some('B') {
                Some("binary number literals")
            } else {
                None
            };
            if let Some(phrase) = phrase {
                self.bump();
                self.bump();
                self.eat_while(Class::Radix);
                return Ok(subset(phrase));
            }
            // A `0` followed by another digit is a LegacyOctalIntegerLiteral or
            // a NonOctalDecimalIntegerLiteral: both strict-mode errors, named
            // rather than read as the decimal they are not.
            if let Some(d) = c1 {
                if '0' <= d && d <= '9' {
                    self.bump();
                    self.eat_while(Class::LeadingZero);
                    return Ok(subset("number literals written with a leading zero"));
                }
            }
        }
        self.decimal_literal()
    }

    /// A decimal literal: digits, an optional fraction, an optional exponent.
    fn decimal_literal(&mut self) -> (r: Result<TokenKind, CompileError>)
        requires
            old(self).wf(),
        ensures
            final(self).wf(),
            final(self).chars@ == old(self).chars@,
            lexed_as(r, final(self).pos as nat, decimal_literal(old(self).chars@, old(self).pos as nat)),
    {
        let ghost cs = self.chars@;
        let start = self.pos;
        let start_byte = self.byte;
        self.eat_while(Class::Digit);
        proof {
            lemma_eaten_bounds(cs, start as nat, Class::Digit);
        }
        let ghost p1 = self.pos;
        // A fraction and an exponent are read, not refused: this engine's
        // numbers are binary64.
        let point = self.fraction();
        let exponent = self.exponent();
        if point || exponent {
            self.decimal_end(start, start_byte, true)
        } else {
            assert(self.pos == p1);
            self.decimal_end(start, start_byte, false)
        }
    }

    fn fraction(&mut self) -> (point: bool)
        requires
            old(self).wf(),
        ensures
            final(self).wf(),
            final(self).chars@ == old(self).chars@,
            (final(self).pos as nat, point) == fraction_end(old(self).chars@, old(self).pos as nat),
            old(self).pos <= final(self).pos,
    {
        if self.peek() == Some('.') {
            self.bump();
            proof {
                lemma_eaten_bounds(self.chars@, self.pos as nat, Class::Digit);
            }
            self.eat_while(Class::Digit);
            true
        } else {
            false
        }
    }

    fn exponent(&mut self) -> (exponent: bool)
        requires
            old(self).wf(),
        ensures
            final(self).wf(),
            final(self).chars@ == old(self).chars@,
            (final(self).pos as nat, exponent) == exponent_end(old(self).chars@, old(self).pos as nat),
            old(self).pos <= final(self).pos,
    {
        let e = self.peek();
        if e == Some('e') || e == Some('E') {
            let s1 = self.peek_at(1);
            let signed = s1 == Some('+') || s1 == Some('-');
            let after = if signed { self.peek_at(2) } else { s1 };
            if let Some(d) = after {
                if '0' <= d && d <= '9' {
                    self.bump();
                    if signed {
                        self.bump();
                    }
                    proof {
                        lemma_eaten_bounds(self.chars@, self.pos as nat, Class::Digit);
                    }
                    self.eat_while(Class::Digit);
                    return true;
                }
            }
        }
        false
    }

    /// The end of a decimal literal that started at `start`.
    fn decimal_end(&mut self, start: usize, start_byte: usize, fractional: bool) -> (r: Result<TokenKind, CompileError>)
        requires
            old(self).wf(),
            start <= old(self).pos,
            start_byte == boff(old(self).chars@, start as int),
            !fractional ==> forall|i: int| start <= i < old(self).pos ==> is_digit(#[trigger] old(self).chars@[i]),
        ensures
            final(self).wf(),
            final(self).chars@ == old(self).chars@,
            lexed_as(r, final(self).pos as nat, decimal_end(old(self).chars@, start as nat, old(self).pos as nat, fractional)),
    {
        let next = self.peek();
        // The suffixes that still turn a decimal literal into something this
        // engine does not read, each consumed whole.
        if next == Some('n') {
            self.eat_while(Class::Suffix);
            return Ok(subset("BigInt literals"));
        }
        if next == Some('_') {
            self.eat_while(Class::Suffix);
            return Ok(subset("numeric separators in number literals"));
        }
        if let Some(d) = next {
            if ('0' <= d && d <= '9') || ('a' <= d && d <= 'z') || ('A' <= d && d <= 'Z') || d == '$' {
                self.eat_while(Class::Glued);
                return Err(malformed(
                    "needs a separator between this number and the name after it; ECMA-262 12.9.3 ends a numeric literal before any identifier character",
                    start_byte,
                ));
            }
        }
        let end = self.pos;
        if fractional {
            return Ok(TokenKind::Num(string_of(&self.chars, start, end)));
        }
        // Past `u64` the digits still denote a double: the `u64` is this
        // lexer's intermediate, not a boundary of the language.
        match parse_decimal(&self.chars, start, end) {
            Some(value) => Ok(TokenKind::Int(value)),
            None => Ok(TokenKind::Num(string_of(&self.chars, start, end))),
        }
    }
}

} // verus!
